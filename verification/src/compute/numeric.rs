//! The numeric engine's handle and errors. Its methods compute in floating
//! point and run outside the verified library.

use vstd::prelude::*;
use crate::text::prefixed;

verus! {

/// Errors of numeric computation.
#[derive(Debug, Clone)]
pub enum Error {
    ComputationFailed(String),
    Overflow(String),
    Parse(String),
    InvalidInput(String),
    ConvergenceFailed(String),
}

/// The displayed message of a numeric error.
pub open spec fn numeric_error_text(e: Error) -> Seq<char> {
    match e {
        Error::ComputationFailed(m) => "Computation error: "@ + m@,
        Error::Overflow(m) => "Overflow: "@ + m@,
        Error::Parse(m) => "Parse error: "@ + m@,
        Error::InvalidInput(m) => "Invalid input: "@ + m@,
        Error::ConvergenceFailed(m) => "Convergence failed: "@ + m@,
    }
}

impl Error {
    /// The displayed message, such as `Overflow: factorial`.
    pub fn to_string(&self) -> (r: String)
        ensures
            r@ == numeric_error_text(*self),
    {
        match self {
            Error::ComputationFailed(m) => prefixed("Computation error: ", m),
            Error::Overflow(m) => prefixed("Overflow: ", m),
            Error::Parse(m) => prefixed("Parse error: ", m),
            Error::InvalidInput(m) => prefixed("Invalid input: ", m),
            Error::ConvergenceFailed(m) => prefixed("Convergence failed: ", m),
        }
    }
}

/// The numeric computation engine.
#[derive(Debug)]
pub struct NumericEngine;

impl NumericEngine {
    pub fn new() -> (r: Self) {
        NumericEngine
    }
}

} // verus!
