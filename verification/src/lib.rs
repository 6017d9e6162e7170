//! Quantized single-neuron inference over the Pallas base field: the
//! fixed-point codec, the cubic sigmoid approximation, the score gate and
//! the trace that a proving backend is handed.

pub mod circuit;
pub mod codec;
pub mod driver;
pub mod error;
pub mod field;
pub mod gate;
pub mod public;
pub mod sigmoid;
