use core::ops::{Add, Index, Mul, Sub};
use vstd::arithmetic::div_mod::lemma_fundamental_div_mod_converse;
use vstd::prelude::*;
use vstd::std_specs::ops::{AddSpec, MulSpec, SubSpec};

use crate::vector::{
    add_ok, add_seq, dot_ok, dot_prefix, dot_seq, is_zero, scale_seq, sub_ok, sub_seq, Vector,
};

verus! {

/// A dense matrix stored row-major: entry `(r, c)` lives at `r * cols + c`.
#[derive(Clone, Debug, PartialEq)]
pub struct Matrix<T> {
    pub rows: usize,
    pub cols: usize,
    pub elements: Vec<T>,
}

/// The rows of a transpose are the columns of the matrix it was taken from.
pub proof fn lemma_transpose_rows<T>(t: Matrix<T>, m: Matrix<T>)
    requires
        m.wf(),
        t.is_transpose_of(&m),
    ensures
        forall|i: int| 0 <= i < m.cols ==> #[trigger] t.row(i) == m.col(i),
{
    assert forall|i: int| 0 <= i < m.cols implies #[trigger] t.row(i) == m.col(i) by {
        assert forall|j: int| 0 <= j < m.rows implies t.row(i)[j] == m.col(i)[j] by {
            assert(t.entry(i, j) == m.entry(j, i));
        }
        assert(t.row(i) =~= m.col(i));
    }
}

/// A cell of a `rows x cols` grid lies inside the flat buffer.
pub proof fn lemma_cell_in_bounds(i: int, j: int, rows: int, cols: int)
    requires
        0 <= i < rows,
        0 <= j < cols,
    ensures
        0 <= i * cols + j < rows * cols,
        i * cols + j + 1 <= rows * cols,
{
    assert(0 <= i * cols) by (nonlinear_arith)
        requires
            0 <= i,
            0 <= cols,
    ;
    assert(i * cols + cols <= rows * cols) by (nonlinear_arith)
        requires
            i + 1 <= rows,
            0 <= cols,
    ;
}

/// A flat offset splits back into its row and column.
pub proof fn lemma_cell_split(i: int, j: int, cols: int)
    requires
        0 <= i,
        0 <= j < cols,
    ensures
        (i * cols + j) / cols == i,
        (i * cols + j) % cols == j,
{
    lemma_fundamental_div_mod_converse(i * cols + j, cols, i, j);
}

/// An offset below `rows * cols` names a cell of the grid.
pub proof fn lemma_offset_in_grid(k: int, rows: int, cols: int)
    requires
        0 <= k < rows * cols,
        0 <= rows,
        0 <= cols,
    ensures
        cols > 0,
        0 <= k / cols < rows,
        0 <= k % cols < cols,
        k == (k / cols) * cols + k % cols,
{
    if cols == 0 {
        assert(rows * cols == 0) by (nonlinear_arith)
            requires
                cols == 0,
        ;
    }
    vstd::arithmetic::div_mod::lemma_fundamental_div_mod(k, cols);
    vstd::arithmetic::div_mod::lemma_div_pos_is_pos(k, cols);
    vstd::arithmetic::div_mod::lemma_mod_bound(k, cols);
    let q = k / cols;
    assert(q * cols == cols * q) by (nonlinear_arith);
    if q >= rows {
        assert(q * cols >= rows * cols) by (nonlinear_arith)
            requires
                q >= rows,
                cols > 0,
        ;
    }
}

impl<T> Matrix<T> {
    /// The buffer holds exactly `rows * cols` entries.
    pub open spec fn wf(&self) -> bool {
        self.elements@.len() == self.rows * self.cols
    }

    /// Entry `(i, j)`.
    pub open spec fn entry(&self, i: int, j: int) -> T {
        self.elements@[i * self.cols + j]
    }

    /// Row `i`, as a sequence of `cols` entries.
    pub open spec fn row(&self, i: int) -> Seq<T> {
        Seq::new(self.cols as nat, |j: int| self.entry(i, j))
    }

    /// Column `j`, as a sequence of `rows` entries.
    pub open spec fn col(&self, j: int) -> Seq<T> {
        Seq::new(self.rows as nat, |i: int| self.entry(i, j))
    }

    /// `self` is the transpose of `m`: the shape swapped, entry `(j, i)` here
    /// being entry `(i, j)` of `m`.
    pub open spec fn is_transpose_of(&self, m: &Matrix<T>) -> bool {
        &&& self.wf()
        &&& self.rows == m.cols
        &&& self.cols == m.rows
        &&& forall|i: int, j: int|
            0 <= i < m.rows && 0 <= j < m.cols ==> #[trigger] self.entry(j, i) == m.entry(i, j)
    }

    /// The product of this matrix with `v`, each row's sum starting from `zero`.
    pub open spec fn mat_vec_seq(&self, zero: T, v: Seq<T>) -> Seq<T>
        where T: Add<Output = T> + Mul<Output = T>
    {
        Seq::new(self.rows as nat, |i: int| dot_seq(zero, self.row(i), v))
    }

    /// Wraps a row-major buffer of `rows * cols` entries.
    pub fn new(rows: usize, cols: usize, elements: Vec<T>) -> (r: Self)
        requires
            elements@.len() == rows * cols,
        ensures
            r.wf(),
            r.rows == rows,
            r.cols == cols,
            r.elements@ == elements@,
    {
        Matrix { rows, cols, elements }
    }
}

impl<T: Copy> Matrix<T> {
    /// The `rows x cols` matrix whose entry `(i, j)` is `f(i, j)`, filled row by row.
    pub fn from_fn(rows: usize, cols: usize, f: impl Fn(usize, usize) -> T) -> (r: Self)
        requires
            rows * cols <= usize::MAX,
            forall|i: usize, j: usize| i < rows && j < cols ==> #[trigger] f.requires((i, j)),
        ensures
            r.wf(),
            r.rows == rows,
            r.cols == cols,
            forall|i: usize, j: usize|
                i < rows && j < cols ==> #[trigger] f.ensures((i, j), r.entry(i as int, j as int)),
    {
        let n: usize = rows * cols;
        let mut elements: Vec<T> = Vec::new();
        let mut k: usize = 0;
        while k < n
            invariant
                n == rows * cols,
                k <= n,
                elements@.len() == k,
                forall|i: usize, j: usize| i < rows && j < cols ==> #[trigger] f.requires((i, j)),
                forall|m: int|
                    0 <= m < k ==> #[trigger] f.ensures(
                        ((m / cols as int) as usize, (m % cols as int) as usize),
                        elements@[m],
                    ),
            decreases n - k,
        {
            proof {
                lemma_offset_in_grid(k as int, rows as int, cols as int);
            }
            let x = f(k / cols, k % cols);
            elements.push(x);
            k = k + 1;
        }
        let r = Matrix { rows, cols, elements };
        assert forall|i: usize, j: usize| i < rows && j < cols implies #[trigger] f.ensures(
            (i, j),
            r.entry(i as int, j as int),
        ) by {
            let m = i * cols + j;
            lemma_cell_in_bounds(i as int, j as int, rows as int, cols as int);
            lemma_cell_split(i as int, j as int, cols as int);
            assert(f.ensures(((m / cols as int) as usize, (m % cols as int) as usize), elements@[m]));
        }
        r
    }

    /// The transpose: a `cols x rows` matrix whose entry `(j, i)` is entry `(i, j)` here.
    pub fn transpose(&self) -> (r: Self)
        requires
            self.wf(),
        ensures
            r.is_transpose_of(self),
    {
        let n: usize = self.elements.len();
        let rows = self.rows;
        let cols = self.cols;
        let mut elements: Vec<T> = Vec::new();
        let mut k: usize = 0;
        proof {
            assert(rows * cols == cols * rows) by (nonlinear_arith);
        }
        while k < n
            invariant
                n == rows * cols,
                n == cols * rows,
                rows == self.rows,
                cols == self.cols,
                self.wf(),
                k <= n,
                elements@.len() == k,
                forall|m: int|
                    0 <= m < k ==> #[trigger] elements@[m] == self.entry(m % rows as int, m / rows as int),
            decreases n - k,
        {
            proof {
                lemma_offset_in_grid(k as int, cols as int, rows as int);
                lemma_cell_in_bounds((k % rows) as int, (k / rows) as int, rows as int, cols as int);
            }
            let x = self.elements[(k % rows) * cols + k / rows];
            elements.push(x);
            k = k + 1;
        }
        let r = Matrix { rows: cols, cols: rows, elements };
        assert forall|i: int, j: int|
            0 <= i < self.rows && 0 <= j < self.cols implies #[trigger] r.entry(j, i) == self.entry(
            i,
            j,
        ) by {
            lemma_cell_in_bounds(j, i, cols as int, rows as int);
            lemma_cell_split(j, i, rows as int);
            assert(elements@[j * rows + i] == self.entry(i, j));
        }
        r
    }
}

impl<T: Copy + Mul<Output = T> + Add<Output = T>> Matrix<T> {
    /// The product with `v`, each row's sum starting from `zero`.
    pub(crate) fn mul_vector_from(&self, v: &Vector<T>, zero: T) -> (r: Vector<T>)
        requires
            self.wf(),
            self.cols == v@.len(),
            forall|i: int| 0 <= i < self.rows ==> dot_ok(zero, #[trigger] self.row(i), v@),
        ensures
            r@ == self.mat_vec_seq(zero, v@),
    {
        let mut elements: Vec<T> = Vec::new();
        let mut i: usize = 0;
        while i < self.rows
            invariant
                self.wf(),
                self.cols == v@.len(),
                forall|i: int| 0 <= i < self.rows ==> dot_ok(zero, #[trigger] self.row(i), v@),
                i <= self.rows,
                elements@.len() == i,
                forall|k: int|
                    0 <= k < i ==> #[trigger] elements@[k] == dot_seq(zero, self.row(k), v@),
            decreases self.rows - i,
        {
            assert(dot_ok(zero, self.row(i as int), v@));
            let x = self.row_times(i, v, zero);
            elements.push(x);
            i = i + 1;
        }
        let r = Vector { elements };
        assert(r@ =~= self.mat_vec_seq(zero, v@));
        r
    }

    /// Row `i` times `v`, summed from `zero`.
    fn row_times(&self, i: usize, v: &Vector<T>, zero: T) -> (r: T)
        requires
            self.wf(),
            i < self.rows,
            self.cols == v@.len(),
            dot_ok(zero, self.row(i as int), v@),
        ensures
            r == dot_seq(zero, self.row(i as int), v@),
    {
        let len: usize = self.elements.len();
        let mut sum = zero;
        let mut c: usize = 0;
        while c < self.cols
            invariant
                len == self.elements@.len(),
                self.wf(),
                i < self.rows,
                self.cols == v@.len(),
                dot_ok(zero, self.row(i as int), v@),
                c <= self.cols,
                sum == dot_prefix(zero, self.row(i as int), v@, c as nat),
            decreases self.cols - c,
        {
            proof {
                lemma_cell_in_bounds(i as int, c as int, self.rows as int, self.cols as int);
                assert(self.row(i as int)[c as int].mul_req(v@[c as int]));
            }
            let p = self.elements[i * self.cols + c] * v.elements[c];
            sum = sum + p;
            c = c + 1;
        }
        sum
    }

    /// Row `i` here times column `j` of `other`, summed from `zero`.
    fn row_times_col(&self, i: usize, other: &Matrix<T>, j: usize, zero: T) -> (r: T)
        requires
            self.wf(),
            other.wf(),
            self.cols == other.rows,
            i < self.rows,
            j < other.cols,
            dot_ok(zero, self.row(i as int), other.col(j as int)),
        ensures
            r == dot_seq(zero, self.row(i as int), other.col(j as int)),
    {
        let len: usize = self.elements.len();
        let other_len: usize = other.elements.len();
        let mut sum = zero;
        let mut c: usize = 0;
        while c < self.cols
            invariant
                len == self.elements@.len(),
                other_len == other.elements@.len(),
                self.wf(),
                other.wf(),
                self.cols == other.rows,
                i < self.rows,
                j < other.cols,
                dot_ok(zero, self.row(i as int), other.col(j as int)),
                c <= self.cols,
                sum == dot_prefix(zero, self.row(i as int), other.col(j as int), c as nat),
            decreases self.cols - c,
        {
            proof {
                lemma_cell_in_bounds(i as int, c as int, self.rows as int, self.cols as int);
                lemma_cell_in_bounds(c as int, j as int, other.rows as int, other.cols as int);
                assert(self.row(i as int)[c as int].mul_req(other.col(j as int)[c as int]));
            }
            let p = self.elements[i * self.cols + c] * other.elements[c * other.cols + j];
            sum = sum + p;
            c = c + 1;
        }
        sum
    }
}

/// Each row of `m` may be multiplied by `v`, the sums starting from the scalar's zero.
pub open spec fn mat_vec_ok<T: Copy + Mul<Output = T> + Add<Output = T> + Default>(
    m: &Matrix<T>,
    v: &Vector<T>,
) -> bool {
    &&& m.wf()
    &&& m.cols == v@.len()
    &&& forall|z: T|
        #[trigger] is_zero(z) ==> forall|i: int| 0 <= i < m.rows ==> dot_ok(z, #[trigger] m.row(i), v@)
}

/// Each row of `a` may be multiplied by each column of `b`, the sums starting
/// from the scalar's zero, and the product's buffer fits in memory.
pub open spec fn mat_mat_ok<T: Copy + Mul<Output = T> + Add<Output = T> + Default>(
    a: &Matrix<T>,
    b: &Matrix<T>,
) -> bool {
    &&& a.wf()
    &&& b.wf()
    &&& a.cols == b.rows
    &&& a.rows * b.cols <= usize::MAX
    &&& forall|z: T|
        #[trigger] is_zero(z) ==> forall|i: int, j: int|
            0 <= i < a.rows && 0 <= j < b.cols ==> dot_ok(z, #[trigger] a.row(i), #[trigger] b.col(j))
}

impl<T: Copy + Add<Output = T>> vstd::std_specs::ops::AddSpecImpl<&Matrix<T>> for &Matrix<T> {
    open spec fn obeys_add_spec() -> bool {
        false
    }

    open spec fn add_req(self, rhs: &Matrix<T>) -> bool {
        self.wf() && self.rows == rhs.rows && self.cols == rhs.cols && add_ok(
            self.elements@,
            rhs.elements@,
        )
    }

    open spec fn add_spec(self, rhs: &Matrix<T>) -> Matrix<T> {
        arbitrary()
    }
}

impl<T: Copy + Add<Output = T>> Matrix<T> {
    /// Entrywise sum of two matrices of one shape.
    pub fn add_matrix(&self, other: &Matrix<T>) -> (r: Matrix<T>)
        requires
            self.wf() && self.rows == other.rows && self.cols == other.cols && add_ok(self.elements@, other.elements@),
        ensures
            r.wf(),
            r.rows == self.rows,
            r.cols == self.cols,
            T::obeys_add_spec() ==> r.elements@ == add_seq(self.elements@, other.elements@),
    {
        let mut elements: Vec<T> = Vec::new();
        let mut i: usize = 0;
        while i < self.elements.len()
            invariant
                add_ok(self.elements@, other.elements@),
                i <= self.elements@.len(),
                elements@.len() == i,
                T::obeys_add_spec() ==> forall|k: int|
                    0 <= k < i ==> elements@[k] == #[trigger] self.elements@[k].add_spec(
                        other.elements@[k],
                    ),
            decreases self.elements@.len() - i,
        {
            proof {
                assert(self.elements@[i as int].add_req(other.elements@[i as int]));
            }
            elements.push(self.elements[i] + other.elements[i]);
            i = i + 1;
        }
        let r = Matrix { rows: self.rows, cols: self.cols, elements };
        proof {
            if T::obeys_add_spec() {
                assert(r.elements@ =~= add_seq(self.elements@, other.elements@));
            }
        }
        r
    }
}

impl<T: Copy + Add<Output = T>> Add<&Matrix<T>> for &Matrix<T> {
    type Output = Matrix<T>;

    /// Entrywise sum of two matrices of one shape.
    fn add(self, other: &Matrix<T>) -> (r: Matrix<T>)
        ensures
            r.wf(),
            r.rows == self.rows,
            r.cols == self.cols,
            T::obeys_add_spec() ==> r.elements@ == add_seq(self.elements@, other.elements@),
    {
        self.add_matrix(other)
    }
}

impl<T: Copy + Sub<Output = T>> vstd::std_specs::ops::SubSpecImpl<&Matrix<T>> for &Matrix<T> {
    open spec fn obeys_sub_spec() -> bool {
        false
    }

    open spec fn sub_req(self, rhs: &Matrix<T>) -> bool {
        self.wf() && self.rows == rhs.rows && self.cols == rhs.cols && sub_ok(
            self.elements@,
            rhs.elements@,
        )
    }

    open spec fn sub_spec(self, rhs: &Matrix<T>) -> Matrix<T> {
        arbitrary()
    }
}

impl<T: Copy + Sub<Output = T>> Matrix<T> {
    /// Entrywise difference of two matrices of one shape.
    pub fn sub_matrix(&self, other: &Matrix<T>) -> (r: Matrix<T>)
        requires
            self.wf() && self.rows == other.rows && self.cols == other.cols && sub_ok(self.elements@, other.elements@),
        ensures
            r.wf(),
            r.rows == self.rows,
            r.cols == self.cols,
            T::obeys_sub_spec() ==> r.elements@ == sub_seq(self.elements@, other.elements@),
    {
        let mut elements: Vec<T> = Vec::new();
        let mut i: usize = 0;
        while i < self.elements.len()
            invariant
                sub_ok(self.elements@, other.elements@),
                i <= self.elements@.len(),
                elements@.len() == i,
                T::obeys_sub_spec() ==> forall|k: int|
                    0 <= k < i ==> elements@[k] == #[trigger] self.elements@[k].sub_spec(
                        other.elements@[k],
                    ),
            decreases self.elements@.len() - i,
        {
            proof {
                assert(self.elements@[i as int].sub_req(other.elements@[i as int]));
            }
            elements.push(self.elements[i] - other.elements[i]);
            i = i + 1;
        }
        let r = Matrix { rows: self.rows, cols: self.cols, elements };
        proof {
            if T::obeys_sub_spec() {
                assert(r.elements@ =~= sub_seq(self.elements@, other.elements@));
            }
        }
        r
    }
}

impl<T: Copy + Sub<Output = T>> Sub<&Matrix<T>> for &Matrix<T> {
    type Output = Matrix<T>;

    /// Entrywise difference of two matrices of one shape.
    fn sub(self, other: &Matrix<T>) -> (r: Matrix<T>)
        ensures
            r.wf(),
            r.rows == self.rows,
            r.cols == self.cols,
            T::obeys_sub_spec() ==> r.elements@ == sub_seq(self.elements@, other.elements@),
    {
        self.sub_matrix(other)
    }
}

impl<T: Copy + Mul<Output = T>> vstd::std_specs::ops::MulSpecImpl<T> for &Matrix<T> {
    open spec fn obeys_mul_spec() -> bool {
        false
    }

    open spec fn mul_req(self, rhs: T) -> bool {
        self.wf() && forall|i: int|
            0 <= i < self.elements@.len() ==> #[trigger] self.elements@[i].mul_req(rhs)
    }

    open spec fn mul_spec(self, rhs: T) -> Matrix<T> {
        arbitrary()
    }
}

impl<T: Copy + Mul<Output = T>> Matrix<T> {
    /// Each entry multiplied by the scalar.
    pub fn scale(&self, scalar: T) -> (r: Matrix<T>)
        requires
            self.wf() && forall|i: int| 0 <= i < self.elements@.len() ==> #[trigger] self.elements@[i].mul_req(scalar),
        ensures
            r.wf(),
            r.rows == self.rows,
            r.cols == self.cols,
            T::obeys_mul_spec() ==> r.elements@ == scale_seq(self.elements@, scalar),
    {
        let mut elements: Vec<T> = Vec::new();
        let mut i: usize = 0;
        while i < self.elements.len()
            invariant
                forall|i: int|
                    0 <= i < self.elements@.len() ==> #[trigger] self.elements@[i].mul_req(scalar),
                i <= self.elements@.len(),
                elements@.len() == i,
                T::obeys_mul_spec() ==> forall|k: int|
                    0 <= k < i ==> elements@[k] == #[trigger] self.elements@[k].mul_spec(scalar),
            decreases self.elements@.len() - i,
        {
            proof {
                assert(self.elements@[i as int].mul_req(scalar));
            }
            elements.push(self.elements[i] * scalar);
            i = i + 1;
        }
        let r = Matrix { rows: self.rows, cols: self.cols, elements };
        proof {
            if T::obeys_mul_spec() {
                assert(r.elements@ =~= scale_seq(self.elements@, scalar));
            }
        }
        r
    }
}

impl<T: Copy + Mul<Output = T>> Mul<T> for &Matrix<T> {
    type Output = Matrix<T>;

    /// Each entry multiplied by the scalar.
    fn mul(self, scalar: T) -> (r: Matrix<T>)
        ensures
            r.wf(),
            r.rows == self.rows,
            r.cols == self.cols,
            T::obeys_mul_spec() ==> r.elements@ == scale_seq(self.elements@, scalar),
    {
        self.scale(scalar)
    }
}

impl<T: Copy + Mul<Output = T> + Add<Output = T> + Default> vstd::std_specs::ops::MulSpecImpl<&Vector<T>> for &Matrix<T> {
    open spec fn obeys_mul_spec() -> bool {
        false
    }

    open spec fn mul_req(self, rhs: &Vector<T>) -> bool {
        mat_vec_ok(self, rhs)
    }

    open spec fn mul_spec(self, rhs: &Vector<T>) -> Vector<T> {
        arbitrary()
    }
}

impl<T: Copy + Mul<Output = T> + Add<Output = T> + Default> Matrix<T> {
    /// The matrix-vector product: one entry per row, that row's dot product with `v`.
    pub fn mul_vector(&self, v: &Vector<T>) -> (r: Vector<T>)
        requires
            mat_vec_ok(self, v),
        ensures
            r@.len() == self.rows,
            exists|z: T| #[trigger] is_zero(z) && r@ == self.mat_vec_seq(z, v@),
    {
        let zero = T::default();
        assert(is_zero(zero));
        self.mul_vector_from(v, zero)
    }
}

impl<T: Copy + Mul<Output = T> + Add<Output = T> + Default> Mul<&Vector<T>> for &Matrix<T> {
    type Output = Vector<T>;

    /// The matrix-vector product: one entry per row, that row's dot product with `v`.
    fn mul(self, v: &Vector<T>) -> (r: Vector<T>)
        ensures
            r@.len() == self.rows,
            exists|z: T| #[trigger] is_zero(z) && r@ == self.mat_vec_seq(z, v@),
    {
        self.mul_vector(v)
    }
}

impl<T: Copy + Mul<Output = T> + Add<Output = T> + Default> vstd::std_specs::ops::MulSpecImpl<&Matrix<T>> for &Matrix<T> {
    open spec fn obeys_mul_spec() -> bool {
        false
    }

    open spec fn mul_req(self, rhs: &Matrix<T>) -> bool {
        mat_mat_ok(self, rhs)
    }

    open spec fn mul_spec(self, rhs: &Matrix<T>) -> Matrix<T> {
        arbitrary()
    }
}

impl<T: Copy + Mul<Output = T> + Add<Output = T> + Default> Matrix<T> {
    /// The matrix product: entry `(i, j)` is row `i` here times column `j` of `other`.
    pub fn mul_matrix(&self, other: &Matrix<T>) -> (r: Matrix<T>)
        requires
            mat_mat_ok(self, other),
        ensures
            r.wf(),
            r.rows == self.rows,
            r.cols == other.cols,
            exists|z: T|
                #[trigger] is_zero(z) && forall|i: int, j: int|
                    0 <= i < r.rows && 0 <= j < r.cols ==> #[trigger] r.entry(i, j) == dot_seq(
                        z,
                        self.row(i),
                        other.col(j),
                    ),
    {
        let zero = T::default();
        assert(is_zero(zero));
        let rows = self.rows;
        let cols = other.cols;
        let n: usize = rows * cols;
        let mut elements: Vec<T> = Vec::new();
        let mut k: usize = 0;
        while k < n
            invariant
                is_zero(zero),
                mat_mat_ok(self, other),
                rows == self.rows,
                cols == other.cols,
                n == rows * cols,
                k <= n,
                elements@.len() == k,
                forall|m: int|
                    0 <= m < k ==> #[trigger] elements@[m] == dot_seq(
                        zero,
                        self.row(m / cols as int),
                        other.col(m % cols as int),
                    ),
            decreases n - k,
        {
            proof {
                lemma_offset_in_grid(k as int, rows as int, cols as int);
                assert(dot_ok(zero, self.row(k as int / cols as int), other.col(k as int % cols as int)));
            }
            let x = self.row_times_col(k / cols, other, k % cols, zero);
            elements.push(x);
            k = k + 1;
        }
        let r = Matrix { rows, cols, elements };
        assert forall|i: int, j: int| 0 <= i < r.rows && 0 <= j < r.cols implies #[trigger] r.entry(
            i,
            j,
        ) == dot_seq(zero, self.row(i), other.col(j)) by {
            lemma_cell_in_bounds(i, j, rows as int, cols as int);
            lemma_cell_split(i, j, cols as int);
            assert(elements@[i * cols + j] == dot_seq(
                zero,
                self.row((i * cols + j) / cols as int),
                other.col((i * cols + j) % cols as int),
            ));
        }
        r
    }
}

impl<T: Copy + Mul<Output = T> + Add<Output = T> + Default> Mul<&Matrix<T>> for &Matrix<T> {
    type Output = Matrix<T>;

    /// The matrix product: entry `(i, j)` is row `i` here times column `j` of `other`.
    fn mul(self, other: &Matrix<T>) -> (r: Matrix<T>)
        ensures
            r.wf(),
            r.rows == self.rows,
            r.cols == other.cols,
            exists|z: T|
                #[trigger] is_zero(z) && forall|i: int, j: int|
                    0 <= i < r.rows && 0 <= j < r.cols ==> #[trigger] r.entry(i, j) == dot_seq(
                        z,
                        self.row(i),
                        other.col(j),
                    ),
    {
        self.mul_matrix(other)
    }
}

impl<T> vstd::std_specs::core::IndexSpecImpl<(usize, usize)> for Matrix<T> {
    open spec fn index_req(&self, index: &(usize, usize)) -> bool {
        self.wf() && index.0 < self.rows && index.1 < self.cols
    }
}

impl<T> Index<(usize, usize)> for Matrix<T> {
    type Output = T;

    /// Entry `(row, col)`, stored at offset `row * cols + col`.
    fn index(&self, index: (usize, usize)) -> (r: &T)
        ensures
            *r == self.entry(index.0 as int, index.1 as int),
    {
        let len: usize = self.elements.len();
        proof {
            lemma_cell_in_bounds(index.0 as int, index.1 as int, self.rows as int, self.cols as int);
            assert(index.0 * self.cols + index.1 < len);
        }
        &self.elements[index.0 * self.cols + index.1]
    }
}

} // verus!
