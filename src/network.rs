use core::ops::{Add, Mul, Sub};
use vstd::prelude::*;

use crate::activations::ActivationFunction;
use crate::layer::{copy_vector, is_stepped, step_ok_at, stepped_delta, Layer};
use crate::matrix::Matrix;
use crate::vector::{add_ok, add_seq, dot_ok, is_zero, mul_seq, Vector};

verus! {

/// Each layer's output feeds the next layer's input.
pub open spec fn chained<T>(layers: Seq<Layer<T>>) -> bool {
    forall|k: int|
        0 <= k < layers.len() - 1 ==> #[trigger] layers[k].weights.rows == layers[k + 1].weights.cols
}

/// The upstream gradient that reaches layer `k` when the layers are trained
/// from the last one down: `delta` at the last layer, and below it what the
/// training step of layer `k + 1` hands back.
pub open spec fn delta_into<T: Copy + Mul<Output = T> + Add<Output = T> + Sub<Output = T>>(
    layers: Seq<Layer<T>>,
    activations: Seq<Vector<T>>,
    derivatives: Seq<Vector<T>>,
    delta: Seq<T>,
    rate: T,
    zero: T,
    k: int,
) -> Seq<T>
    decreases layers.len() - k,
{
    if k + 1 >= layers.len() {
        delta
    } else {
        let d = delta_into(layers, activations, derivatives, delta, rate, zero, k + 1);
        stepped_delta(
            layers[k + 1].weights,
            mul_seq(d, derivatives[k + 1]@),
            activations[k + 1]@,
            rate,
            zero,
        )
    }
}

/// The local gradient of layer `k`: its upstream gradient times its
/// activation derivative, entry by entry.
pub open spec fn local_gradient<T: Copy + Mul<Output = T> + Add<Output = T> + Sub<Output = T>>(
    layers: Seq<Layer<T>>,
    activations: Seq<Vector<T>>,
    derivatives: Seq<Vector<T>>,
    delta: Seq<T>,
    rate: T,
    zero: T,
    k: int,
) -> Seq<T> {
    mul_seq(delta_into(layers, activations, derivatives, delta, rate, zero, k), derivatives[k]@)
}

/// Every training step of the backward pass is well defined, sums starting from `zero`.
pub open spec fn backprop_ok<T: Copy + Mul<Output = T> + Add<Output = T> + Sub<Output = T>>(
    layers: Seq<Layer<T>>,
    activations: Seq<Vector<T>>,
    derivatives: Seq<Vector<T>>,
    delta: Seq<T>,
    rate: T,
    zero: T,
) -> bool {
    forall|k: int|
        0 <= k < layers.len() ==> #[trigger] step_ok_at(
            layers[k].weights,
            layers[k].biases@,
            delta_into(layers, activations, derivatives, delta, rate, zero, k),
            derivatives[k]@,
            activations[k]@,
            rate,
            zero,
        )
}

/// The backward pass of training on one example. Layers are visited last to
/// first; layer `k` takes
/// `train_step(delta_k, derivatives[k], activations[k], learning_rate)`, where
/// `delta_k` is `delta` for the last layer and otherwise what layer `k + 1`
/// returned. `activations[k]` is the input of layer `k` and `derivatives[k]`
/// the activation derivative at its weighted input.
pub fn backpropagate<T: Copy + Mul<Output = T> + Add<Output = T> + Sub<Output = T> + Default>(
    layers: &mut Vec<Layer<T>>,
    activations: &Vec<Vector<T>>,
    derivatives: &Vec<Vector<T>>,
    delta: &Vector<T>,
    learning_rate: T,
)
    requires
        chained(old(layers)@),
        activations@.len() == old(layers)@.len(),
        derivatives@.len() == old(layers)@.len(),
        forall|k: int|
            0 <= k < old(layers)@.len() ==> {
                &&& (#[trigger] old(layers)@[k]).wf()
                &&& activations@[k]@.len() == old(layers)@[k].weights.cols
                &&& derivatives@[k]@.len() == old(layers)@[k].weights.rows
            },
        old(layers)@.len() > 0 ==> delta@.len() == old(layers)@.last().weights.rows,
        forall|z: T|
            #[trigger] is_zero(z) ==> backprop_ok(
                old(layers)@,
                activations@,
                derivatives@,
                delta@,
                learning_rate,
                z,
            ),
    ensures
        final(layers)@.len() == old(layers)@.len(),
        exists|z: T|
            #[trigger] is_zero(z) && forall|k: int|
                0 <= k < old(layers)@.len() ==> is_stepped(
                    #[trigger] final(layers)@[k],
                    old(layers)@[k],
                    local_gradient(old(layers)@, activations@, derivatives@, delta@, learning_rate, z, k),
                    activations@[k]@,
                    learning_rate,
                ),
{
    let ghost start = layers@;
    let n: usize = layers.len();
    let zero = T::default();
    assert(is_zero(zero));
    let mut done: Vec<Layer<T>> = Vec::new();
    let mut d = copy_vector(delta);
    let mut k: usize = n;
    while k > 0
        invariant
            n == start.len(),
            k <= n,
            activations@.len() == n,
            derivatives@.len() == n,
            backprop_ok(start, activations@, derivatives@, delta@, learning_rate, zero),
            forall|m: int| 0 <= m < n ==> (#[trigger] start[m]).wf(),
            layers@ == start.subrange(0, k as int),
            done@.len() == n - k,
            forall|m: int|
                0 <= m < n - k ==> is_stepped(
                    #[trigger] done@[m],
                    start[n - 1 - m],
                    local_gradient(start, activations@, derivatives@, delta@, learning_rate, zero, n - 1 - m),
                    activations@[n - 1 - m]@,
                    learning_rate,
                ),
            k > 0 ==> d@ == delta_into(start, activations@, derivatives@, delta@, learning_rate, zero, k - 1),
        decreases k,
    {
        let mut layer = layers.pop().unwrap();
        k = k - 1;
        assert(layer == start[k as int]);
        assert(step_ok_at(
            start[k as int].weights,
            start[k as int].biases@,
            delta_into(start, activations@, derivatives@, delta@, learning_rate, zero, k as int),
            derivatives@[k as int]@,
            activations@[k as int]@,
            learning_rate,
            zero,
        ));
        let next = layer.step_from(&d, &derivatives[k], &activations[k], learning_rate, zero);
        done.push(layer);
        d = next;
    }
    let mut m: usize = 0;
    while m < n
        invariant
            n == start.len(),
            m <= n,
            activations@.len() == n,
            layers@.len() == m,
            done@.len() == n - m,
            forall|p: int|
                0 <= p < m ==> is_stepped(
                    #[trigger] layers@[p],
                    start[p],
                    local_gradient(start, activations@, derivatives@, delta@, learning_rate, zero, p),
                    activations@[p]@,
                    learning_rate,
                ),
            forall|p: int|
                0 <= p < n - m ==> is_stepped(
                    #[trigger] done@[p],
                    start[n - 1 - p],
                    local_gradient(start, activations@, derivatives@, delta@, learning_rate, zero, n - 1 - p),
                    activations@[n - 1 - p]@,
                    learning_rate,
                ),
        decreases n - m,
    {
        let layer = done.pop().unwrap();
        layers.push(layer);
        m = m + 1;
    }
}

/// The weighted input `weights * a + biases` of `layer`, sums starting from `zero`.
pub open spec fn weighted<T: Copy + Mul<Output = T> + Add<Output = T>>(
    layer: Layer<T>,
    zero: T,
    a: Seq<T>,
) -> Seq<T> {
    add_seq(layer.weights.mat_vec_seq(zero, a), layer.biases@)
}

/// `a` is what `f` may give for activation `act` on each entry of `z`.
pub open spec fn activated<T, F: Fn(ActivationFunction, &T) -> T>(
    f: F,
    act: ActivationFunction,
    z: Seq<T>,
    a: Seq<T>,
) -> bool {
    a.len() == z.len() && forall|i: int| 0 <= i < z.len() ==> #[trigger] call_ensures(f, (act, &z[i]), a[i])
}

/// `chain` may be the inputs of the first `chain.len()` layers: it starts
/// at `input`, and each next entry is the previous one's weighted input
/// activated through `f`.
pub open spec fn chain_ok<T: Copy + Mul<Output = T> + Add<Output = T>, F: Fn(ActivationFunction, &T) -> T>(
    layers: Seq<Layer<T>>,
    f: F,
    input: Seq<T>,
    zero: T,
    chain: Seq<Seq<T>>,
) -> bool {
    &&& chain.len() >= 1
    &&& chain[0] == input
    &&& forall|j: int|
        0 <= j < chain.len() - 1 ==> activated(
            f,
            layers[j].activation,
            weighted(layers[j], zero, #[trigger] chain[j]),
            chain[j + 1],
        )
}

/// Layer `layer` can take input `a`: the shapes agree, its weighted input stays
/// within the scalar's range, and `f` accepts each entry of it.
pub open spec fn layer_ok<T: Copy + Mul<Output = T> + Add<Output = T>, F: Fn(ActivationFunction, &T) -> T>(
    layer: Layer<T>,
    f: F,
    zero: T,
    a: Seq<T>,
) -> bool {
    &&& layer.wf()
    &&& a.len() == layer.weights.cols
    &&& forall|i: int| 0 <= i < layer.weights.rows ==> dot_ok(zero, #[trigger] layer.weights.row(i), a)
    &&& add_ok(layer.weights.mat_vec_seq(zero, a), layer.biases@)
    &&& forall|i: int|
        0 <= i < layer.weights.rows ==> #[trigger] call_requires(
            f,
            (layer.activation, &weighted(layer, zero, a)[i]),
        )
}

/// Every layer can take every input that may reach it.
pub open spec fn forward_ok<T: Copy + Mul<Output = T> + Add<Output = T>, F: Fn(ActivationFunction, &T) -> T>(
    layers: Seq<Layer<T>>,
    f: F,
    input: Seq<T>,
    zero: T,
) -> bool {
    forall|chain: Seq<Seq<T>>|
        chain.len() <= layers.len() && #[trigger] chain_ok(layers, f, input, zero, chain) ==> layer_ok(
            layers[chain.len() - 1],
            f,
            zero,
            chain.last(),
        )
}

/// The forward pass on one input. Returns the weighted input of each layer and
/// the activations: `activations[0]` is `input`, and `activations[k + 1]` is
/// `activate(layer k's activation, z_k[i])` entry by entry, where
/// `z_k = weights_k * activations[k] + biases_k`.
pub fn forward_pass<T: Copy + Mul<Output = T> + Add<Output = T> + Default>(
    layers: &Vec<Layer<T>>,
    input: &Vector<T>,
    activate: impl Fn(ActivationFunction, &T) -> T,
) -> (r: (Vec<Vector<T>>, Vec<Vector<T>>))
    requires
        forall|z: T| #[trigger] is_zero(z) ==> forward_ok(layers@, activate, input@, z),
    ensures
        r.0@.len() == layers@.len(),
        r.1@.len() == layers@.len() + 1,
        r.1@[0]@ == input@,
        exists|z: T|
            #[trigger] is_zero(z) && forall|k: int|
                0 <= k < layers@.len() ==> {
                    &&& #[trigger] r.0@[k]@ == weighted(layers@[k], z, r.1@[k]@)
                    &&& activated(activate, layers@[k].activation, r.0@[k]@, r.1@[k + 1]@)
                },
{
    let zero = T::default();
    assert(is_zero(zero));
    let n: usize = layers.len();
    let mut weighted_inputs: Vec<Vector<T>> = Vec::new();
    let mut activations: Vec<Vector<T>> = Vec::new();
    let mut current = copy_vector(input);
    let ghost mut chain: Seq<Seq<T>> = seq![input@];
    let mut k: usize = 0;
    while k < n
        invariant
            n == layers@.len(),
            k <= n,
            forward_ok(layers@, activate, input@, zero),
            weighted_inputs@.len() == k,
            activations@.len() == k,
            k == 0 ==> current@ == input@,
            k > 0 ==> activations@[0]@ == input@,
            chain.len() == k + 1,
            chain_ok(layers@, activate, input@, zero, chain),
            chain.last() == current@,
            forall|j: int| 0 <= j < k ==> #[trigger] chain[j] == activations@[j]@,
            forall|j: int|
                0 <= j < k ==> {
                    &&& #[trigger] weighted_inputs@[j]@ == weighted(layers@[j], zero, activations@[j]@)
                    &&& activated(
                        activate,
                        layers@[j].activation,
                        weighted_inputs@[j]@,
                        if j + 1 < k { activations@[j + 1]@ } else { current@ },
                    )
                },
        decreases n - k,
    {
        let layer = &layers[k];
        assert(chain_ok(layers@, activate, input@, zero, chain));
        assert(layer_ok(layers@[k as int], activate, zero, current@));
        let product = layer.weights.mul_vector_from(&current, zero);
        let z = product.add_vector(&layer.biases);
        assert(z@ =~= weighted(*layer, zero, current@));
        let mut out: Vec<T> = Vec::new();
        let mut i: usize = 0;
        while i < z.elements.len()
            invariant
                i <= z@.len(),
                out@.len() == i,
                z@ == weighted(*layer, zero, current@),
                z@.len() == layer.weights.rows,
                layer_ok(*layer, activate, zero, current@),
                forall|m: int| 0 <= m < i ==> #[trigger] call_ensures(activate, (layer.activation, &z@[m]), out@[m]),
            decreases z@.len() - i,
        {
            assert(call_requires(activate, (layer.activation, &weighted(*layer, zero, current@)[i as int])));
            let x = activate(layer.activation, &z.elements[i]);
            out.push(x);
            i = i + 1;
        }
        let next = Vector { elements: out };
        proof {
            let old_chain = chain;
            chain = chain.push(next@);
            assert forall|j: int| 0 <= j < chain.len() - 1 implies activated(
                activate,
                layers@[j].activation,
                weighted(layers@[j], zero, #[trigger] chain[j]),
                chain[j + 1],
            ) by {
                if j < k {
                    assert(chain[j] == old_chain[j]);
                    assert(chain[j + 1] == old_chain[j + 1]);
                } else {
                    assert(*layer == layers@[k as int]);
                }
            }
        }
        activations.push(current);
        weighted_inputs.push(z);
        current = next;
        k = k + 1;
    }
    activations.push(current);
    (weighted_inputs, activations)
}

} // verus!
