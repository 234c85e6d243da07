//! Metadata of record batches.

use vstd::prelude::*;

verus! {

/// Metadata of a record batch: its row count, an optional identifier and
/// an optional creation time in milliseconds since the Unix epoch.
#[derive(Debug, Clone)]
pub struct BatchMetadata {
    pub num_rows: usize,
    pub batch_id: Option<String>,
    pub created_at: Option<u64>,
}

impl Default for BatchMetadata {
    /// No rows, no identifier, no creation time.
    fn default() -> (r: Self)
        ensures
            r.num_rows == 0,
            r.batch_id is None,
            r.created_at is None,
    {
        BatchMetadata { num_rows: 0, batch_id: None, created_at: None }
    }
}

} // verus!
