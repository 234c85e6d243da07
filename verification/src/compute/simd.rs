//! Counters shared by parallel numeric work.

use vstd::prelude::*;

verus! {

/// A counter of completed work items.
#[derive(Debug)]
pub struct AtomicCounter {
    count: u64,
}

impl AtomicCounter {
    pub closed spec fn value(&self) -> u64 {
        self.count
    }

    /// A counter starting at `initial`.
    pub fn new(initial: u64) -> (r: Self)
        ensures
            r.value() == initial,
    {
        AtomicCounter { count: initial }
    }

    /// Adds one and returns the new count.
    pub fn increment(&mut self) -> (r: u64)
        requires
            old(self).value() < u64::MAX,
        ensures
            r == old(self).value() + 1,
            final(self).value() == r,
    {
        self.count = self.count + 1;
        self.count
    }

    /// The current count.
    pub fn get(&self) -> (r: u64)
        ensures
            r == self.value(),
    {
        self.count
    }
}

} // verus!
