use vstd::prelude::*;

verus! {

/// The nonlinearity a layer applies to each entry of its weighted input.
#[derive(Clone, Copy, Debug, PartialEq, Eq)]
pub enum ActivationFunction {
    ReLU,
    Sigmoid,
    Tanh,
}

} // verus!
