//! Column buffers for zero-copy data transfer.

use vstd::prelude::*;
use vstd::slice::{slice_subrange, slice_to_vec};
use crate::text::to_owned_string;
use crate::wire::push_bytes;

verus! {

/// A named column of 64-bit integers.
#[derive(Debug)]
pub struct ArrowBufferInt {
    data: Vec<i64>,
    name: String,
}

impl ArrowBufferInt {
    pub closed spec fn values(&self) -> Seq<i64> {
        self.data@
    }

    pub closed spec fn spec_name(&self) -> Seq<char> {
        self.name@
    }

    /// A column holding a copy of `data`.
    pub fn from_data(name: &str, data: &[i64]) -> (r: Self)
        ensures
            r.values() == data@,
            r.spec_name() == name@,
    {
        ArrowBufferInt { data: slice_to_vec(data), name: to_owned_string(name) }
    }

    /// The values.
    pub fn as_slice(&self) -> (r: &[i64])
        ensures
            r@ == self.values(),
    {
        self.data.as_slice()
    }

    /// The number of rows.
    pub fn len(&self) -> (r: usize)
        ensures
            r == self.values().len(),
    {
        self.data.len()
    }

    /// Whether there are no rows.
    pub fn is_empty(&self) -> (r: bool)
        ensures
            r == (self.values().len() == 0),
    {
        self.data.len() == 0
    }
}

/// Collects the bytes of a serialized stream.
#[derive(Debug)]
pub struct ArrowWriter {
    buffer: Vec<u8>,
}

impl ArrowWriter {
    pub closed spec fn written(&self) -> Seq<u8> {
        self.buffer@
    }

    /// A writer with nothing written.
    pub fn new() -> (r: Self)
        ensures
            r.written().len() == 0,
    {
        ArrowWriter { buffer: Vec::new() }
    }

    /// Appends bytes.
    pub fn write(&mut self, data: &[u8])
        ensures
            final(self).written() == old(self).written() + data@,
    {
        push_bytes(&mut self.buffer, data);
    }

    /// Everything written, in order.
    pub fn finalize(self) -> (r: Vec<u8>)
        ensures
            r@ == self.written(),
    {
        self.buffer
    }
}

impl Default for ArrowWriter {
    /// A writer with nothing written.
    fn default() -> (r: Self)
        ensures
            r.written().len() == 0,
    {
        ArrowWriter::new()
    }
}

/// Reads back the bytes of a serialized stream.
#[derive(Debug)]
pub struct ArrowReader {
    data: Vec<u8>,
    position: usize,
}

impl ArrowReader {
    pub closed spec fn bytes(&self) -> Seq<u8> {
        self.data@
    }

    /// How far the reader has got.
    pub closed spec fn spec_position(&self) -> usize {
        self.position
    }

    /// A reader at the start of `data`.
    pub fn new(data: Vec<u8>) -> (r: Self)
        ensures
            r.bytes() == data@,
            r.spec_position() == 0,
    {
        ArrowReader { data, position: 0 }
    }

    /// Whether bytes are left to read.
    pub fn has_more(&self) -> (r: bool)
        ensures
            r == (self.spec_position() < self.bytes().len()),
    {
        self.position < self.data.len()
    }

    /// The bytes not read yet.
    pub fn remaining(&self) -> (r: &[u8])
        requires
            self.spec_position() <= self.bytes().len(),
        ensures
            r@ == self.bytes().skip(self.spec_position() as int),
    {
        let r = slice_subrange(self.data.as_slice(), self.position, self.data.len());
        assert(r@ =~= self.bytes().skip(self.spec_position() as int));
        r
    }
}

} // verus!
