use core::ops::{Add, Index, Mul, Sub};
use vstd::prelude::*;
use vstd::std_specs::ops::{AddSpec, MulSpec, SubSpec};

use crate::matrix::{lemma_cell_in_bounds, lemma_cell_split, lemma_offset_in_grid, Matrix};

verus! {

/// A dense vector of scalars.
#[derive(Clone, Debug, PartialEq)]
pub struct Vector<T> {
    pub elements: Vec<T>,
}

/// Both sequences have one length and each pair of entries may be added.
pub open spec fn add_ok<T: Add<Output = T>>(a: Seq<T>, b: Seq<T>) -> bool {
    a.len() == b.len() && forall|i: int| 0 <= i < a.len() ==> #[trigger] a[i].add_req(b[i])
}

/// Both sequences have one length and each pair of entries may be subtracted.
pub open spec fn sub_ok<T: Sub<Output = T>>(a: Seq<T>, b: Seq<T>) -> bool {
    a.len() == b.len() && forall|i: int| 0 <= i < a.len() ==> #[trigger] a[i].sub_req(b[i])
}

/// Both sequences have one length and each pair of entries may be multiplied.
pub open spec fn mul_ok<T: Mul<Output = T>>(a: Seq<T>, b: Seq<T>) -> bool {
    a.len() == b.len() && forall|i: int| 0 <= i < a.len() ==> #[trigger] a[i].mul_req(b[i])
}

/// Entrywise sum.
pub open spec fn add_seq<T: Add<Output = T>>(a: Seq<T>, b: Seq<T>) -> Seq<T> {
    Seq::new(a.len(), |i: int| a[i].add_spec(b[i]))
}

/// Entrywise difference.
pub open spec fn sub_seq<T: Sub<Output = T>>(a: Seq<T>, b: Seq<T>) -> Seq<T> {
    Seq::new(a.len(), |i: int| a[i].sub_spec(b[i]))
}

/// Entrywise (Hadamard) product.
pub open spec fn mul_seq<T: Mul<Output = T>>(a: Seq<T>, b: Seq<T>) -> Seq<T> {
    Seq::new(a.len(), |i: int| a[i].mul_spec(b[i]))
}

/// Each entry multiplied by the scalar `s`.
pub open spec fn scale_seq<T: Mul<Output = T>>(a: Seq<T>, s: T) -> Seq<T> {
    Seq::new(a.len(), |i: int| a[i].mul_spec(s))
}

/// The running sum `seed + a[0]*b[0] + ... + a[n-1]*b[n-1]`, added left to right.
pub open spec fn dot_prefix<T: Add<Output = T> + Mul<Output = T>>(
    seed: T,
    a: Seq<T>,
    b: Seq<T>,
    n: nat,
) -> T
    decreases n,
{
    if n == 0 {
        seed
    } else {
        dot_prefix(seed, a, b, (n - 1) as nat).add_spec(a[n - 1].mul_spec(b[n - 1]))
    }
}

/// The sum of entrywise products of `a` and `b`, starting from `seed`.
pub open spec fn dot_seq<T: Add<Output = T> + Mul<Output = T>>(seed: T, a: Seq<T>, b: Seq<T>) -> T {
    dot_prefix(seed, a, b, a.len())
}

/// The scalar's arithmetic is modelled by vstd, and every step of the running
/// sum from `seed` over `a` and `b` stays within the scalar's range.
pub open spec fn dot_ok<T: Add<Output = T> + Mul<Output = T>>(seed: T, a: Seq<T>, b: Seq<T>) -> bool {
    &&& T::obeys_add_spec()
    &&& T::obeys_mul_spec()
    &&& a.len() == b.len()
    &&& forall|k: int|
        #![trigger a[k]]
        0 <= k < a.len() ==> a[k].mul_req(b[k]) && dot_prefix(
            seed,
            a,
            b,
            k as nat,
        ).add_req(a[k].mul_spec(b[k]))
}

/// `z` is a value that `T::default()` may return: the scalar's zero.
pub open spec fn is_zero<T: Default>(z: T) -> bool {
    call_ensures(T::default, (), z)
}

impl<T> Vector<T> {
    /// The entries of the vector.
    pub open spec fn view(&self) -> Seq<T> {
        self.elements@
    }

    /// Wraps `elements` as they are.
    pub fn new(elements: Vec<T>) -> (r: Self)
        ensures
            r@ == elements@,
    {
        Vector { elements }
    }
}

impl<T: Copy> Vector<T> {
    /// The vector of length `size` whose entry `i` is `f(i)`.
    pub fn from_fn(size: usize, f: impl Fn(usize) -> T) -> (r: Self)
        requires
            forall|i: usize| i < size ==> #[trigger] f.requires((i,)),
        ensures
            r@.len() == size,
            forall|i: usize| i < size ==> #[trigger] f.ensures((i,), r@[i as int]),
    {
        let mut elements: Vec<T> = Vec::new();
        let mut i: usize = 0;
        while i < size
            invariant
                i <= size,
                elements@.len() == i,
                forall|i: usize| i < size ==> #[trigger] f.requires((i,)),
                forall|k: usize| k < i ==> #[trigger] f.ensures((k,), elements@[k as int]),
            decreases size - i,
        {
            let x = f(i);
            elements.push(x);
            i = i + 1;
        }
        Vector { elements }
    }

    /// The vector of `f` applied to each entry.
    pub fn map(&self, f: impl Fn(&T) -> T) -> (r: Self)
        requires
            forall|i: int| 0 <= i < self@.len() ==> #[trigger] f.requires((&self@[i],)),
        ensures
            r@.len() == self@.len(),
            forall|i: int| 0 <= i < self@.len() ==> #[trigger] f.ensures((&self@[i],), r@[i]),
    {
        let mut elements: Vec<T> = Vec::new();
        let mut i: usize = 0;
        while i < self.elements.len()
            invariant
                i <= self@.len(),
                elements@.len() == i,
                forall|i: int| 0 <= i < self@.len() ==> #[trigger] f.requires((&self@[i],)),
                forall|k: int| 0 <= k < i ==> #[trigger] f.ensures((&self@[k],), elements@[k]),
            decreases self@.len() - i,
        {
            let x = f(&self.elements[i]);
            elements.push(x);
            i = i + 1;
        }
        Vector { elements }
    }
}

impl<T: Copy + Mul<Output = T>> Vector<T> {
    /// The Hadamard product: entry `i` is `self[i] * other[i]`.
    pub fn element_wise_mul(&self, other: &Self) -> (r: Self)
        requires
            mul_ok(self@, other@),
        ensures
            r@.len() == self@.len(),
            T::obeys_mul_spec() ==> r@ == mul_seq(self@, other@),
    {
        let mut elements: Vec<T> = Vec::new();
        let mut i: usize = 0;
        while i < self.elements.len()
            invariant
                mul_ok(self@, other@),
                i <= self@.len(),
                elements@.len() == i,
                T::obeys_mul_spec() ==> forall|k: int|
                    0 <= k < i ==> elements@[k] == #[trigger] self@[k].mul_spec(other@[k]),
            decreases self@.len() - i,
        {
            proof {
                assert(self@[i as int].mul_req(other@[i as int]));
            }
            elements.push(self.elements[i] * other.elements[i]);
            i = i + 1;
        }
        let r = Vector { elements };
        proof {
            if T::obeys_mul_spec() {
                assert(r@ =~= mul_seq(self@, other@));
            }
        }
        r
    }

    /// The outer product: a `len(self) x len(other)` matrix whose entry `(i, j)`
    /// is `self[i] * other[j]`.
    pub fn outer(&self, other: &Self) -> (r: Matrix<T>)
        requires
            self@.len() * other@.len() <= usize::MAX,
            forall|i: int, j: int|
                0 <= i < self@.len() && 0 <= j < other@.len() ==> #[trigger] self@[i].mul_req(
                    other@[j],
                ),
        ensures
            r.wf(),
            r.rows == self@.len(),
            r.cols == other@.len(),
            T::obeys_mul_spec() ==> forall|i: int, j: int|
                0 <= i < r.rows && 0 <= j < r.cols ==> #[trigger] r.entry(i, j) == self@[i].mul_spec(
                    other@[j],
                ),
    {
        let rows = self.elements.len();
        let cols = other.elements.len();
        let n: usize = rows * cols;
        let mut elements: Vec<T> = Vec::new();
        let mut k: usize = 0;
        while k < n
            invariant
                rows == self@.len(),
                cols == other@.len(),
                n == rows * cols,
                k <= n,
                elements@.len() == k,
                forall|i: int, j: int|
                    0 <= i < self@.len() && 0 <= j < other@.len() ==> #[trigger] self@[i].mul_req(
                        other@[j],
                    ),
                T::obeys_mul_spec() ==> forall|m: int|
                    0 <= m < k ==> #[trigger] elements@[m] == self@[m / cols as int].mul_spec(
                        other@[m % cols as int],
                    ),
            decreases n - k,
        {
            proof {
                lemma_offset_in_grid(k as int, rows as int, cols as int);
                assert(self@[k as int / cols as int].mul_req(other@[k as int % cols as int]));
            }
            elements.push(self.elements[k / cols] * other.elements[k % cols]);
            k = k + 1;
        }
        let r = Matrix { rows, cols, elements };
        proof {
            if T::obeys_mul_spec() {
                assert forall|i: int, j: int| 0 <= i < r.rows && 0 <= j < r.cols implies #[trigger] r.entry(
                    i,
                    j,
                ) == self@[i].mul_spec(other@[j]) by {
                    lemma_cell_in_bounds(i, j, rows as int, cols as int);
                    lemma_cell_split(i, j, cols as int);
                    assert(elements@[i * cols + j] == self@[(i * cols + j) / cols as int].mul_spec(
                        other@[(i * cols + j) % cols as int],
                    ));
                }
            }
        }
        r
    }
}

impl<T: Copy + Mul<Output = T> + Add<Output = T> + Default> Vector<T> {
    /// The dot product: the sum of `self[i] * other[i]`, started from the scalar's zero.
    pub fn dot(&self, other: &Self) -> (r: T)
        requires
            self@.len() == other@.len(),
            forall|z: T| #[trigger] is_zero(z) ==> dot_ok(z, self@, other@),
        ensures
            exists|z: T| #[trigger] is_zero(z) && r == dot_seq(z, self@, other@),
    {
        let zero = T::default();
        let mut sum = zero;
        let mut i: usize = 0;
        assert(is_zero(zero));
        while i < self.elements.len()
            invariant
                is_zero(zero),
                dot_ok(zero, self@, other@),
                i <= self@.len(),
                sum == dot_prefix(zero, self@, other@, i as nat),
            decreases self@.len() - i,
        {
            proof {
                assert(self@[i as int].mul_req(other@[i as int]));
            }
            let p = self.elements[i] * other.elements[i];
            sum = sum + p;
            i = i + 1;
        }
        sum
    }
}

impl<T: Copy + Add<Output = T>> vstd::std_specs::ops::AddSpecImpl<&Vector<T>> for &Vector<T> {
    open spec fn obeys_add_spec() -> bool {
        false
    }

    open spec fn add_req(self, rhs: &Vector<T>) -> bool {
        add_ok(self@, rhs@)
    }

    open spec fn add_spec(self, rhs: &Vector<T>) -> Vector<T> {
        arbitrary()
    }
}

impl<T: Copy + Add<Output = T>> Vector<T> {
    /// Entrywise sum of two vectors of one length.
    pub fn add_vector(&self, other: &Vector<T>) -> (r: Vector<T>)
        requires
            add_ok(self@, other@),
        ensures
            r@.len() == self@.len(),
            T::obeys_add_spec() ==> r@ == add_seq(self@, other@),
    {
        let mut elements: Vec<T> = Vec::new();
        let mut i: usize = 0;
        while i < self.elements.len()
            invariant
                add_ok(self@, other@),
                i <= self@.len(),
                elements@.len() == i,
                T::obeys_add_spec() ==> forall|k: int|
                    0 <= k < i ==> elements@[k] == #[trigger] self@[k].add_spec(other@[k]),
            decreases self@.len() - i,
        {
            proof {
                assert(self@[i as int].add_req(other@[i as int]));
            }
            elements.push(self.elements[i] + other.elements[i]);
            i = i + 1;
        }
        let r = Vector { elements };
        proof {
            if T::obeys_add_spec() {
                assert(r@ =~= add_seq(self@, other@));
            }
        }
        r
    }
}

impl<T: Copy + Add<Output = T>> Add<&Vector<T>> for &Vector<T> {
    type Output = Vector<T>;

    /// Entrywise sum of two vectors of one length.
    fn add(self, other: &Vector<T>) -> (r: Vector<T>)
        ensures
            r@.len() == self@.len(),
            T::obeys_add_spec() ==> r@ == add_seq(self@, other@),
    {
        self.add_vector(other)
    }
}

impl<T: Copy + Sub<Output = T>> vstd::std_specs::ops::SubSpecImpl<&Vector<T>> for &Vector<T> {
    open spec fn obeys_sub_spec() -> bool {
        false
    }

    open spec fn sub_req(self, rhs: &Vector<T>) -> bool {
        sub_ok(self@, rhs@)
    }

    open spec fn sub_spec(self, rhs: &Vector<T>) -> Vector<T> {
        arbitrary()
    }
}

impl<T: Copy + Sub<Output = T>> Vector<T> {
    /// Entrywise difference of two vectors of one length.
    pub fn sub_vector(&self, other: &Vector<T>) -> (r: Vector<T>)
        requires
            sub_ok(self@, other@),
        ensures
            r@.len() == self@.len(),
            T::obeys_sub_spec() ==> r@ == sub_seq(self@, other@),
    {
        let mut elements: Vec<T> = Vec::new();
        let mut i: usize = 0;
        while i < self.elements.len()
            invariant
                sub_ok(self@, other@),
                i <= self@.len(),
                elements@.len() == i,
                T::obeys_sub_spec() ==> forall|k: int|
                    0 <= k < i ==> elements@[k] == #[trigger] self@[k].sub_spec(other@[k]),
            decreases self@.len() - i,
        {
            proof {
                assert(self@[i as int].sub_req(other@[i as int]));
            }
            elements.push(self.elements[i] - other.elements[i]);
            i = i + 1;
        }
        let r = Vector { elements };
        proof {
            if T::obeys_sub_spec() {
                assert(r@ =~= sub_seq(self@, other@));
            }
        }
        r
    }
}

impl<T: Copy + Sub<Output = T>> Sub<&Vector<T>> for &Vector<T> {
    type Output = Vector<T>;

    /// Entrywise difference of two vectors of one length.
    fn sub(self, other: &Vector<T>) -> (r: Vector<T>)
        ensures
            r@.len() == self@.len(),
            T::obeys_sub_spec() ==> r@ == sub_seq(self@, other@),
    {
        self.sub_vector(other)
    }
}

impl<T: Copy + Mul<Output = T>> vstd::std_specs::ops::MulSpecImpl<T> for &Vector<T> {
    open spec fn obeys_mul_spec() -> bool {
        false
    }

    open spec fn mul_req(self, rhs: T) -> bool {
        forall|i: int| 0 <= i < self@.len() ==> #[trigger] self@[i].mul_req(rhs)
    }

    open spec fn mul_spec(self, rhs: T) -> Vector<T> {
        arbitrary()
    }
}

impl<T: Copy + Mul<Output = T>> Vector<T> {
    /// Each entry multiplied by the scalar.
    pub fn scale(&self, scalar: T) -> (r: Vector<T>)
        requires
            forall|i: int| 0 <= i < self@.len() ==> #[trigger] self@[i].mul_req(scalar),
        ensures
            r@.len() == self@.len(),
            T::obeys_mul_spec() ==> r@ == scale_seq(self@, scalar),
    {
        let mut elements: Vec<T> = Vec::new();
        let mut i: usize = 0;
        while i < self.elements.len()
            invariant
                forall|i: int| 0 <= i < self@.len() ==> #[trigger] self@[i].mul_req(scalar),
                i <= self@.len(),
                elements@.len() == i,
                T::obeys_mul_spec() ==> forall|k: int|
                    0 <= k < i ==> elements@[k] == #[trigger] self@[k].mul_spec(scalar),
            decreases self@.len() - i,
        {
            proof {
                assert(self@[i as int].mul_req(scalar));
            }
            elements.push(self.elements[i] * scalar);
            i = i + 1;
        }
        let r = Vector { elements };
        proof {
            if T::obeys_mul_spec() {
                assert(r@ =~= scale_seq(self@, scalar));
            }
        }
        r
    }
}

impl<T: Copy + Mul<Output = T>> Mul<T> for &Vector<T> {
    type Output = Vector<T>;

    /// Each entry multiplied by the scalar.
    fn mul(self, scalar: T) -> (r: Vector<T>)
        ensures
            r@.len() == self@.len(),
            T::obeys_mul_spec() ==> r@ == scale_seq(self@, scalar),
    {
        self.scale(scalar)
    }
}

impl<T> vstd::std_specs::core::IndexSpecImpl<usize> for Vector<T> {
    open spec fn index_req(&self, index: &usize) -> bool {
        *index < self@.len()
    }
}

impl<T> Index<usize> for Vector<T> {
    type Output = T;

    /// Entry `index`, counted from zero.
    fn index(&self, index: usize) -> (r: &T)
        ensures
            *r == self@[index as int],
    {
        &self.elements[index]
    }
}

} // verus!
