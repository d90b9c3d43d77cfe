use vstd::prelude::*;
use core::ops::{Add, Mul};
use vstd::std_specs::ops::{AddSpec, MulSpec, SubSpec};

use crate::matrix::{lemma_offset_in_grid, Matrix};
use crate::vector::{add_ok, add_seq, dot_ok, dot_prefix, dot_seq, sub_ok, sub_seq};

verus! {

/// On integers, vector addition and subtraction act entry by entry:
/// entry `i` of `a + b` is `a[i] + b[i]`, and entry `i` of `a - b` is `a[i] - b[i]`.
pub proof fn law_entrywise(a: Seq<i64>, b: Seq<i64>)
    ensures
        add_ok(a, b) ==> forall|i: int|
            0 <= i < a.len() ==> #[trigger] add_seq(a, b)[i] == a[i] + b[i],
        sub_ok(a, b) ==> forall|i: int|
            0 <= i < a.len() ==> #[trigger] sub_seq(a, b)[i] == a[i] - b[i],
{
    if add_ok(a, b) {
        assert forall|i: int| 0 <= i < a.len() implies #[trigger] add_seq(a, b)[i] == a[i] + b[i] by {
            assert(a[i].add_req(b[i]));
        }
    }
    if sub_ok(a, b) {
        assert forall|i: int| 0 <= i < a.len() implies #[trigger] sub_seq(a, b)[i] == a[i] - b[i] by {
            assert(a[i].sub_req(b[i]));
        }
    }
}

/// Subtracting `b` undoes adding it: `(a + b) - b == a`, whenever `a + b` is defined.
pub proof fn law_sub_undoes_add(a: Seq<i64>, b: Seq<i64>)
    requires
        add_ok(a, b),
    ensures
        sub_ok(add_seq(a, b), b),
        sub_seq(add_seq(a, b), b) == a,
{
    law_entrywise(a, b);
    assert(sub_seq(add_seq(a, b), b) =~= a);
}

proof fn lemma_dot_prefix_commutes(a: Seq<i64>, b: Seq<i64>, n: nat)
    requires
        a.len() == b.len(),
        n <= a.len(),
        forall|k: int| 0 <= k < a.len() ==> #[trigger] a[k].mul_req(b[k]),
    ensures
        dot_prefix(0i64, a, b, n) == dot_prefix(0i64, b, a, n),
    decreases n,
{
    if n > 0 {
        lemma_dot_prefix_commutes(a, b, (n - 1) as nat);
        let x = a[n - 1] as int;
        let y = b[n - 1] as int;
        assert(x * y == y * x) by (nonlinear_arith);
    }
}

/// The integer dot product is symmetric: `dot(a, b) == dot(b, a)`.
pub proof fn law_dot_commutes(a: Seq<i64>, b: Seq<i64>)
    requires
        dot_ok(0i64, a, b),
    ensures
        dot_ok(0i64, b, a),
        dot_seq(0i64, a, b) == dot_seq(0i64, b, a),
{
    assert forall|k: int| 0 <= k < a.len() implies #[trigger] a[k].mul_req(b[k]) by {
        assert(a[k].mul_req(b[k]) && dot_prefix(0i64, a, b, k as nat).add_req(a[k].mul_spec(b[k])));
    }
    assert forall|k: int| 0 <= k < b.len() implies #[trigger] b[k].mul_req(a[k]) && dot_prefix(
        0i64,
        b,
        a,
        k as nat,
    ).add_req(b[k].mul_spec(a[k])) by {
        assert(a[k].mul_req(b[k]) && dot_prefix(0i64, a, b, k as nat).add_req(a[k].mul_spec(b[k])));
        lemma_dot_prefix_commutes(a, b, k as nat);
        let x = a[k] as int;
        let y = b[k] as int;
        assert(x * y == y * x) by (nonlinear_arith);
    }
    lemma_dot_prefix_commutes(a, b, a.len());
}

/// Transposing twice gives back the matrix: if `t` is the transpose of `m`
/// and `u` is the transpose of `t`, then `u` equals `m`.
pub proof fn law_transpose_twice<T>(m: Matrix<T>, t: Matrix<T>, u: Matrix<T>)
    requires
        m.wf(),
        t.is_transpose_of(&m),
        u.is_transpose_of(&t),
    ensures
        u.rows == m.rows,
        u.cols == m.cols,
        u.elements@ == m.elements@,
{
    assert forall|k: int| 0 <= k < m.elements@.len() implies u.elements@[k] == m.elements@[k] by {
        lemma_offset_in_grid(k, m.rows as int, m.cols as int);
        let i = k / m.cols as int;
        let j = k % m.cols as int;
        assert(t.entry(j, i) == m.entry(i, j));
        assert(u.entry(i, j) == t.entry(j, i));
    }
    assert(u.elements@ =~= m.elements@);
}

/// A matrix-vector product has one entry per row of the matrix, whatever the
/// scalar and whatever zero its sums start from.
pub proof fn law_product_length<T: Add<Output = T> + Mul<Output = T>>(m: Matrix<T>, zero: T, v: Seq<T>)
    ensures
        m.mat_vec_seq(zero, v).len() == m.rows,
{
}

} // verus!
