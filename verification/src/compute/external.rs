//! The bridge to external computation engines.

use vstd::prelude::*;
use crate::text::{prefixed, to_owned_string};

verus! {

/// Errors of an external engine.
#[derive(Debug, Clone)]
pub enum Error {
    ConnectionFailed(String),
    CallFailed(String),
}

/// The displayed message of an external-engine error.
pub open spec fn external_error_text(e: Error) -> Seq<char> {
    match e {
        Error::ConnectionFailed(m) => "Connection failed: "@ + m@,
        Error::CallFailed(m) => "Call failed: "@ + m@,
    }
}

impl Error {
    /// The displayed message, such as `Call failed: timeout`.
    pub fn to_string(&self) -> (r: String)
        ensures
            r@ == external_error_text(*self),
    {
        match self {
            Error::ConnectionFailed(m) => prefixed("Connection failed: ", m),
            Error::CallFailed(m) => prefixed("Call failed: ", m),
        }
    }
}

/// A bridge to external engines. No engine is connected: a call answers
/// with the expression it was given.
#[derive(Debug)]
pub struct ExternalBridge;

impl ExternalBridge {
    pub fn new() -> (r: Self) {
        ExternalBridge
    }

    /// Calls `engine` on `expr`; the answer is the expression itself.
    pub fn call(&self, engine: &str, expr: &str) -> (r: Result<String, Error>)
        ensures
            r matches Ok(s) && s@ == expr@,
    {
        Ok(to_owned_string(expr))
    }
}

impl Default for ExternalBridge {
    fn default() -> (r: Self) {
        ExternalBridge::new()
    }
}

} // verus!
