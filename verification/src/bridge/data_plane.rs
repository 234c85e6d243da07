//! Identifiers, errors and usage statistics of data planes.

use vstd::prelude::*;
use crate::clock::unix_millis;
use crate::text::{prefixed, to_owned_string};

verus! {

/// Errors of data plane operations.
#[derive(Debug, Clone)]
pub enum DataPlaneError {
    SchemaNotFound(String),
    BatchNotFound(String),
    Internal(String),
    Serialization(String),
}

/// The displayed message of a data plane error.
pub open spec fn data_plane_error_text(e: DataPlaneError) -> Seq<char> {
    match e {
        DataPlaneError::SchemaNotFound(m) => "Schema not found: "@ + m@,
        DataPlaneError::BatchNotFound(m) => "Batch not found: "@ + m@,
        DataPlaneError::Internal(m) => "Data plane error: "@ + m@,
        DataPlaneError::Serialization(m) => "Serialization error: "@ + m@,
    }
}

impl DataPlaneError {
    /// The displayed message, such as `Batch not found: b1`.
    pub fn to_string(&self) -> (r: String)
        ensures
            r@ == data_plane_error_text(*self),
    {
        match self {
            DataPlaneError::SchemaNotFound(m) => prefixed("Schema not found: ", m),
            DataPlaneError::BatchNotFound(m) => prefixed("Batch not found: ", m),
            DataPlaneError::Internal(m) => prefixed("Data plane error: ", m),
            DataPlaneError::Serialization(m) => prefixed("Serialization error: ", m),
        }
    }
}

/// The name of a data plane.
#[derive(Debug, Clone, Hash, PartialEq, Eq)]
pub struct DataPlaneId(pub String);

impl DataPlaneId {
    /// The identifier with the given name.
    pub fn new(name: &str) -> (r: Self)
        ensures
            r.0@ == name@,
    {
        DataPlaneId(to_owned_string(name))
    }
}

/// Usage statistics of a data plane; times are milliseconds since the Unix
/// epoch.
#[derive(Debug, Clone, Copy, PartialEq, Eq, Structural)]
pub struct PlaneStats {
    pub created_at: u64,
    pub last_accessed: u64,
    pub access_count: u64,
    pub buffer_add_count: u64,
    pub buffer_remove_count: u64,
}

impl PlaneStats {
    /// Statistics of a fresh plane: both times read from the clock, all
    /// counts zero.
    pub fn new() -> (r: Self)
        ensures
            r.access_count == 0,
            r.buffer_add_count == 0,
            r.buffer_remove_count == 0,
    {
        PlaneStats {
            created_at: unix_millis(),
            last_accessed: unix_millis(),
            access_count: 0,
            buffer_add_count: 0,
            buffer_remove_count: 0,
        }
    }

    /// Records an access: the access time is read from the clock and the
    /// access count advances.
    pub fn record_access(&mut self)
        requires
            old(self).access_count < u64::MAX,
        ensures
            final(self).access_count == old(self).access_count + 1,
            final(self).created_at == old(self).created_at,
            final(self).buffer_add_count == old(self).buffer_add_count,
            final(self).buffer_remove_count == old(self).buffer_remove_count,
    {
        self.last_accessed = unix_millis();
        self.access_count = self.access_count + 1;
    }

    /// Records that a buffer was added.
    pub fn record_buffer_add(&mut self)
        requires
            old(self).buffer_add_count < u64::MAX,
        ensures
            *final(self) == (PlaneStats { buffer_add_count: (old(self).buffer_add_count + 1) as u64, ..*old(self) }),
    {
        self.buffer_add_count = self.buffer_add_count + 1;
    }

    /// Records that a buffer was removed.
    pub fn record_buffer_remove(&mut self)
        requires
            old(self).buffer_remove_count < u64::MAX,
        ensures
            *final(self) == (PlaneStats {
                buffer_remove_count: (old(self).buffer_remove_count + 1) as u64,
                ..*old(self)
            }),
    {
        self.buffer_remove_count = self.buffer_remove_count + 1;
    }
}

} // verus!
