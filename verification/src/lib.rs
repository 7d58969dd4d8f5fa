//! A gated recurrent memory cell with backpropagation through time, and the
//! readiness-driven node of an arbitrarily wired network graph.
//!
//! Every numeric value is a [`Scalar`]: the cell and the node are verified once
//! for every number type, and each contract states its result over the scalar's
//! own operations.

pub mod activation;
pub mod layer;
pub mod lstm;
pub mod neuron;
pub mod nodetype;
pub mod scalar;
pub mod vectorops;

pub use activation::Activation;
pub use layer::SubLayer;
pub use lstm::{LSTMState, LSTM};
pub use neuron::{Layer, Neuron};
pub use nodetype::{NodeType, Slots};
pub use scalar::Scalar;
pub use vectorops::Signal;
