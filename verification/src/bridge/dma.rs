//! Errors and statistics of the DMA buffer pool.

use vstd::prelude::*;
use crate::text::{prefixed, to_owned_string};

verus! {

#[verifier::external_type_specification]
#[verifier::external_body]
pub struct ExIoError(std::io::Error);

/// Calls `Display` on an I/O error; its text comes from the platform.
#[verifier::external_body]
fn io_error_text(e: &std::io::Error) -> (r: String) {
    e.to_string()
}

/// Errors of DMA buffers and pools.
#[derive(Debug)]
pub enum DmaError {
    Io(std::io::Error),
    AllocationFailed(String),
    InvalidOperation(String),
    PoolExhausted,
}

impl DmaError {
    /// The displayed message, such as `Pool exhausted`; an I/O error is
    /// shown after `IO error: `.
    pub fn to_string(&self) -> (r: String)
        ensures
            self matches DmaError::AllocationFailed(m) ==> r@ == "Memory allocation failed: "@ + m@,
            self matches DmaError::InvalidOperation(m) ==> r@ == "Invalid operation: "@ + m@,
            self matches DmaError::PoolExhausted ==> r@ == "Pool exhausted"@,
            self matches DmaError::Io(_) ==> r@.len() >= 10 && r@.subrange(0, 10) == "IO error: "@,
    {
        match self {
            DmaError::Io(e) => {
                let text = io_error_text(e);
                let r = prefixed("IO error: ", &text);
                proof {
                    reveal_strlit("IO error: ");
                    assert(r@.subrange(0, 10) =~= "IO error: "@);
                }
                r
            },
            DmaError::AllocationFailed(m) => prefixed("Memory allocation failed: ", m),
            DmaError::InvalidOperation(m) => prefixed("Invalid operation: ", m),
            DmaError::PoolExhausted => to_owned_string("Pool exhausted"),
        }
    }
}

/// Statistics of a buffer pool.
#[derive(Debug, Clone, Copy, PartialEq, Eq, Structural)]
pub struct PoolStats {
    pub capacity: usize,
    pub used: usize,
    pub slot_size: usize,
}

} // verus!
