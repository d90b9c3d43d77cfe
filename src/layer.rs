use core::ops::{Add, Mul, Sub};
use vstd::prelude::*;
use vstd::std_specs::ops::{AddSpec, MulSpec, SubSpec};

use crate::activations::ActivationFunction;
use crate::matrix::{lemma_offset_in_grid, lemma_transpose_rows, mat_vec_ok, Matrix};
use crate::vector::{
    add_ok, add_seq, dot_ok, dot_seq, is_zero, mul_ok, mul_seq, scale_seq, sub_ok, sub_seq, Vector,
};

verus! {

/// One fully connected layer: an `output_size x input_size` weight matrix, one
/// bias per output, and the activation applied to each output.
pub struct Layer<T> {
    pub weights: Matrix<T>,
    pub biases: Vector<T>,
    pub activation: ActivationFunction,
}

/// A copy of `v`.
pub(crate) fn copy_vector<T: Copy>(v: &Vector<T>) -> (r: Vector<T>)
    ensures
        r@ == v@,
{
    let mut elements: Vec<T> = Vec::new();
    let mut i: usize = 0;
    while i < v.elements.len()
        invariant
            i <= v@.len(),
            elements@ == v@.subrange(0, i as int),
        decreases v@.len() - i,
    {
        elements.push(v.elements[i]);
        i = i + 1;
    }
    assert(elements@ =~= v@);
    Vector { elements }
}

/// The product of the transpose of `m` with `v`: entry `j` is column `j` of
/// `m` times `v`, summed from `zero`.
pub open spec fn transpose_times<T: Add<Output = T> + Mul<Output = T>>(
    m: Matrix<T>,
    zero: T,
    v: Seq<T>,
) -> Seq<T> {
    Seq::new(m.cols as nat, |j: int| dot_seq(zero, m.col(j), v))
}

/// Weight `(i, j)` after one step with local gradient `g`, input `x` and rate
/// `rate`: `w[i][j] - (g[i] * x[j]) * rate`.
pub open spec fn stepped_weight<T: Copy + Mul<Output = T> + Sub<Output = T>>(
    w: Matrix<T>,
    g: Seq<T>,
    x: Seq<T>,
    rate: T,
    i: int,
    j: int,
) -> T {
    w.entry(i, j).sub_spec(g[i].mul_spec(x[j]).mul_spec(rate))
}

/// Column `j` of the stepped weights.
pub open spec fn stepped_col<T: Copy + Mul<Output = T> + Sub<Output = T>>(
    w: Matrix<T>,
    g: Seq<T>,
    x: Seq<T>,
    rate: T,
    j: int,
) -> Seq<T> {
    Seq::new(w.rows as nat, |i: int| stepped_weight(w, g, x, rate, i, j))
}

/// The gradient one training step hands to the layer before: entry `j` is
/// column `j` of the stepped weights times `g`, summed from `zero`.
pub open spec fn stepped_delta<T: Copy + Mul<Output = T> + Add<Output = T> + Sub<Output = T>>(
    w: Matrix<T>,
    g: Seq<T>,
    x: Seq<T>,
    rate: T,
    zero: T,
) -> Seq<T> {
    Seq::new(w.cols as nat, |j: int| dot_seq(zero, stepped_col(w, g, x, rate, j), g))
}

/// The shapes of one training step agree, and every operation of it stays
/// within the scalar's range, for a layer with weights `w` and biases `b`,
/// upstream gradient `delta`, activation derivative `deriv`, input `x`, rate
/// `rate`, and sums started from `zero`.
pub open spec fn step_ok_at<T: Copy + Mul<Output = T> + Add<Output = T> + Sub<Output = T>>(
    w: Matrix<T>,
    b: Seq<T>,
    delta: Seq<T>,
    deriv: Seq<T>,
    x: Seq<T>,
    rate: T,
    zero: T,
) -> bool {
    let g = mul_seq(delta, deriv);
    &&& w.wf()
    &&& b.len() == w.rows
    &&& delta.len() == w.rows
    &&& deriv.len() == w.rows
    &&& x.len() == w.cols
    &&& T::obeys_add_spec()
    &&& T::obeys_sub_spec()
    &&& T::obeys_mul_spec()
    &&& mul_ok(delta, deriv)
    &&& forall|i: int| 0 <= i < g.len() ==> #[trigger] g[i].mul_req(rate)
    &&& sub_ok(b, scale_seq(g, rate))
    &&& forall|i: int, j: int|
        0 <= i < w.rows && 0 <= j < w.cols ==> {
            &&& #[trigger] g[i].mul_req(x[j])
            &&& g[i].mul_spec(x[j]).mul_req(rate)
            &&& w.entry(i, j).sub_req(g[i].mul_spec(x[j]).mul_spec(rate))
        }
    &&& forall|j: int| 0 <= j < w.cols ==> dot_ok(zero, #[trigger] stepped_col(w, g, x, rate, j), g)
}

/// One training step is well defined whatever zero the scalar has.
pub open spec fn step_ok<T: Copy + Mul<Output = T> + Add<Output = T> + Sub<Output = T> + Default>(
    w: Matrix<T>,
    b: Seq<T>,
    delta: Seq<T>,
    deriv: Seq<T>,
    x: Seq<T>,
    rate: T,
) -> bool {
    forall|z: T| #[trigger] is_zero(z) ==> step_ok_at(w, b, delta, deriv, x, rate, z)
}

/// `new` is `old` after one step with local gradient `g`, input `x` and rate
/// `rate`: same shape and activation, each weight stepped, and
/// `biases - g * rate`.
pub open spec fn is_stepped<T: Copy + Mul<Output = T> + Sub<Output = T>>(
    new: Layer<T>,
    old: Layer<T>,
    g: Seq<T>,
    x: Seq<T>,
    rate: T,
) -> bool {
    &&& new.wf()
    &&& new.weights.rows == old.weights.rows
    &&& new.weights.cols == old.weights.cols
    &&& new.activation == old.activation
    &&& forall|i: int, j: int|
        0 <= i < old.weights.rows && 0 <= j < old.weights.cols ==> #[trigger] new.weights.entry(i, j)
            == stepped_weight(old.weights, g, x, rate, i, j)
    &&& new.biases@ == sub_seq(old.biases@, scale_seq(g, rate))
}

impl<T> Layer<T> {
    /// The weights form a matrix and there is one bias per output.
    pub open spec fn wf(&self) -> bool {
        self.weights.wf() && self.biases@.len() == self.weights.rows
    }

    /// Builds a layer from its weights, biases and activation.
    pub fn from_parts(weights: Matrix<T>, biases: Vector<T>, activation: ActivationFunction) -> (r:
        Self)
        requires
            weights.wf(),
            biases@.len() == weights.rows,
        ensures
            r.wf(),
            r.weights == weights,
            r.biases == biases,
            r.activation == activation,
    {
        Layer { weights, biases, activation }
    }
}

impl<T: Copy + Mul<Output = T> + Add<Output = T> + Default> Layer<T> {
    /// The weighted input `weights * input + biases`, before the activation.
    pub fn weighted_input(&self, input: &Vector<T>) -> (r: Vector<T>)
        requires
            self.wf(),
            mat_vec_ok(&self.weights, input),
            forall|z: T|
                #[trigger] is_zero(z) ==> add_ok(self.weights.mat_vec_seq(z, input@), self.biases@),
        ensures
            r@.len() == self.weights.rows,
            exists|z: T|
                #[trigger] is_zero(z) && (T::obeys_add_spec() ==> r@ == add_seq(
                    self.weights.mat_vec_seq(z, input@),
                    self.biases@,
                )),
    {
        let product = self.weights.mul_vector(input);
        let ghost z = choose|z: T| #[trigger] is_zero(z) && product@ == self.weights.mat_vec_seq(z, input@);
        let r = product.add_vector(&self.biases);
        assert(is_zero(z));
        r
    }

    /// The gradients for an upstream gradient `delta`: the weight gradient
    /// `outer(delta, input)`, the bias gradient `delta`, and the input gradient
    /// `transpose(weights) * delta`. The layer is left as it is.
    pub fn backward(&self, input: &Vector<T>, delta: &Vector<T>) -> (r: (Matrix<T>, Vector<T>, Vector<T>))
        requires
            self.wf(),
            input@.len() == self.weights.cols,
            delta@.len() == self.weights.rows,
            forall|i: int, j: int|
                0 <= i < delta@.len() && 0 <= j < input@.len() ==> #[trigger] delta@[i].mul_req(
                    input@[j],
                ),
            forall|z: T|
                #[trigger] is_zero(z) ==> forall|j: int|
                    0 <= j < self.weights.cols ==> dot_ok(z, #[trigger] self.weights.col(j), delta@),
        ensures
            r.0.wf(),
            r.0.rows == delta@.len(),
            r.0.cols == input@.len(),
            T::obeys_mul_spec() ==> forall|i: int, j: int|
                0 <= i < r.0.rows && 0 <= j < r.0.cols ==> #[trigger] r.0.entry(i, j) == delta@[i].mul_spec(
                    input@[j],
                ),
            r.1@ == delta@,
            r.2@.len() == input@.len(),
            exists|z: T| #[trigger] is_zero(z) && r.2@ == transpose_times(self.weights, z, delta@),
    {
        // The weight buffer exists, so `rows * cols` fits in a `usize`.
        let _weight_count: usize = self.weights.elements.len();
        let delta_weights = delta.outer(input);
        let delta_biases = copy_vector(delta);
        let transposed = self.weights.transpose();
        proof {
            lemma_transpose_rows(transposed, self.weights);
        }
        let delta_input = transposed.mul_vector(delta);
        let ghost z = choose|z: T| #[trigger] is_zero(z) && delta_input@ == transposed.mat_vec_seq(z, delta@);
        assert(delta_input@ =~= transpose_times(self.weights, z, delta@));
        (delta_weights, delta_biases, delta_input)
    }
}

impl<T: Copy + Mul<Output = T> + Sub<Output = T>> Layer<T> {
    /// One gradient-descent step: `weights -= delta_weights * learning_rate`
    /// and `biases -= delta_biases * learning_rate`. The activation is kept.
    pub fn apply_gradients(
        &mut self,
        delta_weights: &Matrix<T>,
        delta_biases: &Vector<T>,
        learning_rate: T,
    )
        requires
            old(self).wf(),
            delta_weights.wf(),
            delta_weights.rows == old(self).weights.rows,
            delta_weights.cols == old(self).weights.cols,
            delta_biases@.len() == old(self).biases@.len(),
            T::obeys_mul_spec(),
            forall|i: int|
                0 <= i < delta_weights.elements@.len() ==> #[trigger] delta_weights.elements@[i].mul_req(
                    learning_rate,
                ),
            forall|i: int|
                0 <= i < delta_biases@.len() ==> #[trigger] delta_biases@[i].mul_req(learning_rate),
            sub_ok(
                old(self).weights.elements@,
                scale_seq(delta_weights.elements@, learning_rate),
            ),
            sub_ok(old(self).biases@, scale_seq(delta_biases@, learning_rate)),
        ensures
            final(self).wf(),
            final(self).weights.rows == old(self).weights.rows,
            final(self).weights.cols == old(self).weights.cols,
            final(self).activation == old(self).activation,
            T::obeys_sub_spec() ==> final(self).weights.elements@ == sub_seq(
                old(self).weights.elements@,
                scale_seq(delta_weights.elements@, learning_rate),
            ),
            T::obeys_sub_spec() ==> final(self).biases@ == sub_seq(
                old(self).biases@,
                scale_seq(delta_biases@, learning_rate),
            ),
    {
        let step_weights = delta_weights.scale(learning_rate);
        let step_biases = delta_biases.scale(learning_rate);
        let weights = self.weights.sub_matrix(&step_weights);
        let biases = self.biases.sub_vector(&step_biases);
        self.weights = weights;
        self.biases = biases;
    }
}

impl<T: Copy + Mul<Output = T> + Add<Output = T> + Sub<Output = T>> Layer<T> {
    /// One backward step of training with sums started from `zero`.
    pub(crate) fn step_from(
        &mut self,
        delta: &Vector<T>,
        activation_derivative: &Vector<T>,
        input: &Vector<T>,
        learning_rate: T,
        zero: T,
    ) -> (r: Vector<T>)
        requires
            old(self).wf(),
            step_ok_at(
                old(self).weights,
                old(self).biases@,
                delta@,
                activation_derivative@,
                input@,
                learning_rate,
                zero,
            ),
        ensures
            is_stepped(
                *final(self),
                *old(self),
                mul_seq(delta@, activation_derivative@),
                input@,
                learning_rate,
            ),
            r@ == stepped_delta(
                old(self).weights,
                mul_seq(delta@, activation_derivative@),
                input@,
                learning_rate,
                zero,
            ),
    {
        let ghost w0 = self.weights;
        let ghost rows = w0.rows as int;
        let ghost cols = w0.cols as int;
        // The weight buffer exists, so `rows * cols` fits in a `usize`.
        let _weight_count: usize = self.weights.elements.len();
        let local = delta.element_wise_mul(activation_derivative);
        let ghost g = local@;
        assert(g == mul_seq(delta@, activation_derivative@));
        let delta_weights = local.outer(input);
        assert forall|k: int|
            0 <= k < delta_weights.elements@.len() implies #[trigger] delta_weights.elements@[k].mul_req(
            learning_rate,
        ) by {
            lemma_offset_in_grid(k, rows, cols);
            let (i, j) = (k / cols, k % cols);
            assert(k == i * cols + j);
            assert(g[i].mul_req(input@[j]));
            assert(delta_weights.entry(i, j) == g[i].mul_spec(input@[j]));
        }
        assert(sub_ok(w0.elements@, scale_seq(delta_weights.elements@, learning_rate))) by {
            assert forall|k: int| 0 <= k < w0.elements@.len() implies #[trigger] w0.elements@[k].sub_req(
                scale_seq(delta_weights.elements@, learning_rate)[k],
            ) by {
                lemma_offset_in_grid(k, rows, cols);
                let (i, j) = (k / cols, k % cols);
                assert(k == i * cols + j);
                assert(g[i].mul_req(input@[j]));
                assert(delta_weights.entry(i, j) == g[i].mul_spec(input@[j]));
                assert(w0.entry(i, j).sub_req(g[i].mul_spec(input@[j]).mul_spec(learning_rate)));
            }
        }
        self.apply_gradients(&delta_weights, &local, learning_rate);
        assert forall|i: int, j: int| 0 <= i < rows && 0 <= j < cols implies #[trigger] self.weights.entry(
            i,
            j,
        ) == stepped_weight(w0, g, input@, learning_rate, i, j) by {
            crate::matrix::lemma_cell_in_bounds(i, j, rows, cols);
            assert(g[i].mul_req(input@[j]));
            assert(delta_weights.entry(i, j) == g[i].mul_spec(input@[j]));
        }
        let transposed = self.weights.transpose();
        proof {
            lemma_transpose_rows(transposed, self.weights);
            assert forall|j: int| 0 <= j < cols implies #[trigger] transposed.row(j) == stepped_col(
                w0,
                g,
                input@,
                learning_rate,
                j,
            ) by {
                assert(transposed.row(j) == self.weights.col(j));
                assert(self.weights.col(j) =~= stepped_col(w0, g, input@, learning_rate, j));
            }
        }
        let r = transposed.mul_vector_from(&local, zero);
        assert(r@ =~= stepped_delta(w0, g, input@, learning_rate, zero));
        r
    }
}

impl<T: Copy + Mul<Output = T> + Add<Output = T> + Sub<Output = T> + Default> Layer<T> {
    /// One backward step of training. The local gradient is
    /// `g = delta * activation_derivative` entry by entry; the weights move by
    /// `outer(g, input) * learning_rate` and the biases by `g * learning_rate`;
    /// the gradient handed to the layer before is `transpose(weights) * g`,
    /// taken with the weights as they stand after the update.
    pub fn train_step(
        &mut self,
        delta: &Vector<T>,
        activation_derivative: &Vector<T>,
        input: &Vector<T>,
        learning_rate: T,
    ) -> (r: Vector<T>)
        requires
            old(self).wf(),
            delta@.len() == old(self).weights.rows,
            activation_derivative@.len() == old(self).weights.rows,
            input@.len() == old(self).weights.cols,
            step_ok(
                old(self).weights,
                old(self).biases@,
                delta@,
                activation_derivative@,
                input@,
                learning_rate,
            ),
        ensures
            is_stepped(
                *final(self),
                *old(self),
                mul_seq(delta@, activation_derivative@),
                input@,
                learning_rate,
            ),
            exists|z: T|
                #[trigger] is_zero(z) && r@ == stepped_delta(
                    old(self).weights,
                    mul_seq(delta@, activation_derivative@),
                    input@,
                    learning_rate,
                    z,
                ),
    {
        let zero = T::default();
        assert(is_zero(zero));
        self.step_from(delta, activation_derivative, input, learning_rate, zero)
    }
}

} // verus!
