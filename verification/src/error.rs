//! What can go wrong before a backend is ever called.

use vstd::prelude::*;

verus! {

/// The failures that the circuit core detects by itself.
#[derive(Clone, Copy, Debug, PartialEq, Eq, Structural)]
pub enum CircuitError {
    /// A quantized value lies outside the safe fixed-point range.
    Encoding,
    /// The weight and input vectors differ in length, or are wider than the
    /// trace allows.
    ShapeMismatch,
    /// The computed score is not the declared public score.
    ConstraintViolation,
}

impl CircuitError {
    /// A one-line description for a human reader.
    pub fn describe(&self) -> (r: &'static str)
        ensures
            r@ == match *self {
                CircuitError::Encoding => "value outside the fixed-point range"@,
                CircuitError::ShapeMismatch => "weight and input vectors do not match"@,
                CircuitError::ConstraintViolation => "score does not equal the public score"@,
            },
    {
        match self {
            CircuitError::Encoding => "value outside the fixed-point range",
            CircuitError::ShapeMismatch => "weight and input vectors do not match",
            CircuitError::ConstraintViolation => "score does not equal the public score",
        }
    }
}

} // verus!
