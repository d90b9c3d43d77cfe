use core::ops::Sub;
use vstd::prelude::*;
use vstd::std_specs::ops::SubSpec;

use crate::vector::{sub_ok, sub_seq, Vector};

verus! {

/// The loss that training minimises.
#[derive(Clone, Copy, Debug, PartialEq, Eq)]
pub enum LossFunction {
    MeanSquaredError,
}

impl LossFunction {
    /// The gradient of the loss with respect to the output, up to a constant
    /// factor: for mean squared error, `output - target` entry by entry.
    pub fn derivative<T: Copy + Sub<Output = T>>(&self, output: &Vector<T>, target: &Vector<T>) -> (r: Vector<T>)
        requires
            sub_ok(output@, target@),
        ensures
            r@.len() == output@.len(),
            T::obeys_sub_spec() ==> r@ == sub_seq(output@, target@),
    {
        match self {
            LossFunction::MeanSquaredError => output.sub_vector(target),
        }
    }
}

} // verus!
