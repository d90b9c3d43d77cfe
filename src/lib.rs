pub mod activations;
pub mod laws;
pub mod layer;
pub mod loss;
pub mod matrix;
pub mod network;
pub mod vector;

pub use activations::ActivationFunction;
pub use layer::Layer;
pub use loss::LossFunction;
pub use matrix::Matrix;
pub use vector::Vector;
pub use network::{backpropagate, forward_pass};
