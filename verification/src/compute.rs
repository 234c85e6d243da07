//! The computation engines' verified parts: input validation, the shared
//! expression scanner, caches, counters and the external-engine bridge.

pub mod cache;
pub mod validation;
pub mod lexer;
pub mod external;
pub mod numeric;
pub mod simd;
pub mod symbolic;
pub mod replay;

use vstd::prelude::*;
use crate::text::prefixed;

verus! {

/// Errors of the computation engines.
#[derive(Debug, Clone)]
pub enum Error {
    Symbolic(symbolic::Error),
    Numeric(numeric::Error),
    External(external::Error),
    Parse(String),
    Validation(validation::ValidationError),
}

/// The displayed message of a computation error: the inner error's message
/// after the kind of engine.
pub open spec fn compute_error_text(e: Error) -> Seq<char> {
    match e {
        Error::Symbolic(s) => "Symbolic error: "@ + symbolic::symbolic_error_text(s),
        Error::Numeric(n) => "Numeric error: "@ + numeric::numeric_error_text(n),
        Error::External(x) => "External engine error: "@ + external::external_error_text(x),
        Error::Parse(m) => "Parse error: "@ + m@,
        Error::Validation(v) => "Validation error: "@ + validation::validation_message(v@),
    }
}

impl Error {
    /// The displayed message, such as `Parse error: ...`.
    pub fn to_string(&self) -> (r: String)
        ensures
            r@ == compute_error_text(*self),
    {
        match self {
            Error::Symbolic(s) => {
                let inner = s.to_string();
                prefixed("Symbolic error: ", &inner)
            },
            Error::Numeric(n) => {
                let inner = n.to_string();
                prefixed("Numeric error: ", &inner)
            },
            Error::External(x) => {
                let inner = x.to_string();
                prefixed("External engine error: ", &inner)
            },
            Error::Parse(m) => prefixed("Parse error: ", m),
            Error::Validation(v) => {
                let inner = v.to_string();
                prefixed("Validation error: ", &inner)
            },
        }
    }
}

impl From<validation::ValidationError> for Error {
    /// A validation error.
    fn from(e: validation::ValidationError) -> (r: Self) {
        Error::Validation(e)
    }
}

impl vstd::std_specs::convert::FromSpecImpl<validation::ValidationError> for Error {
    open spec fn obeys_from_spec() -> bool {
        true
    }

    open spec fn from_spec(e: validation::ValidationError) -> Error {
        Error::Validation(e)
    }
}

impl From<symbolic::Error> for Error {
    /// A symbolic error.
    fn from(e: symbolic::Error) -> (r: Self) {
        Error::Symbolic(e)
    }
}

impl vstd::std_specs::convert::FromSpecImpl<symbolic::Error> for Error {
    open spec fn obeys_from_spec() -> bool {
        true
    }

    open spec fn from_spec(e: symbolic::Error) -> Error {
        Error::Symbolic(e)
    }
}

impl From<numeric::Error> for Error {
    /// A numeric error.
    fn from(e: numeric::Error) -> (r: Self) {
        Error::Numeric(e)
    }
}

impl vstd::std_specs::convert::FromSpecImpl<numeric::Error> for Error {
    open spec fn obeys_from_spec() -> bool {
        true
    }

    open spec fn from_spec(e: numeric::Error) -> Error {
        Error::Numeric(e)
    }
}

impl From<external::Error> for Error {
    /// An external-engine error.
    fn from(e: external::Error) -> (r: Self) {
        Error::External(e)
    }
}

impl vstd::std_specs::convert::FromSpecImpl<external::Error> for Error {
    open spec fn obeys_from_spec() -> bool {
        true
    }

    open spec fn from_spec(e: external::Error) -> Error {
        Error::External(e)
    }
}

} // verus!
