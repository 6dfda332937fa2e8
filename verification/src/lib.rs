//! A small fully-connected feedforward network with a hand-written forward
//! pass and error backpropagation, generic over the number type it computes
//! with.
//!
//! The network never looks inside a number: it only combines numbers through
//! the operations of [`scalar::Scalar`]. Every contract is therefore stated
//! over those operations, and holds for whatever number type is plugged in.

pub mod scalar;
pub mod fixed;
pub mod activation;
pub mod model;
pub mod neuron;
pub mod layer;
pub mod network;
pub mod train;
pub mod laws;
pub mod ordered;

pub use crate::layer::Layer;
pub use crate::network::{Gradient, Network, NetworkError};
pub use crate::neuron::Neuron;
pub use crate::train::mse;
