//! Caches of rendering results: a bounded cache whose entries expire, and
//! the cache of precomputed values.

use vstd::prelude::*;
use crate::clock::{elapsed, instant_now, whole_secs};
use crate::compute::cache::{index_of_key, remove_if};
use crate::kernel::validation::types::str_eq;
use crate::strmap::{lemma_entry_map_remove, unique_keys};
use crate::text::{lemma_first_index, lemma_first_index_props};

pub use crate::compute::cache::PrecomputeCache;

verus! {

/// A bounded in-memory cache whose entries expire after a number of
/// seconds. When the cache is full, an insertion first evicts the oldest
/// entry. Entries are kept in insertion order, which is the order of their
/// creation times.
pub struct L1Cache<K, V> {
    data: Vec<(K, (V, std::time::Instant))>,
    capacity: usize,
    ttl_secs: u64,
}

impl<V> L1Cache<String, V> {
    pub closed spec fn entries(&self) -> Seq<(String, (V, std::time::Instant))> {
        self.data@
    }

    /// The keys, oldest first.
    pub open spec fn keys(&self) -> Seq<Seq<char>> {
        Seq::new(self.entries().len(), |i: int| self.entries()[i].0@)
    }

    /// The values, in key order.
    pub open spec fn values(&self) -> Seq<V> {
        Seq::new(self.entries().len(), |i: int| self.entries()[i].1.0)
    }

    pub closed spec fn spec_capacity(&self) -> usize {
        self.capacity
    }

    pub closed spec fn spec_ttl_secs(&self) -> u64 {
        self.ttl_secs
    }

    /// Each key occurs once.
    pub closed spec fn wf(&self) -> bool {
        unique_keys(self.data@)
    }

    /// The position an insertion evicts first: the oldest entry when the
    /// cache is full and not empty, else none (`-1`).
    pub open spec fn eviction_slot(&self) -> int {
        if self.keys().len() >= self.spec_capacity() && self.keys().len() > 0 {
            0
        } else {
            -1
        }
    }

    /// An empty cache of the given capacity and time to live.
    pub fn new(capacity: usize, ttl_secs: u64) -> (r: Self)
        ensures
            r.wf(),
            r.keys().len() == 0,
            r.spec_capacity() == capacity,
            r.spec_ttl_secs() == ttl_secs,
    {
        L1Cache { data: Vec::new(), capacity, ttl_secs }
    }

    fn find(&self, key: &str) -> (r: usize)
        ensures
            r == index_of_key(self.keys(), key@),
            r <= self.keys().len(),
    {
        let mut i: usize = 0;
        while i < self.data.len()
            invariant
                i <= self.data@.len(),
                forall|j: int| 0 <= j < i ==> self.keys()[j] != key@,
            decreases self.data@.len() - i,
        {
            if str_eq(self.data[i].0.as_str(), key) {
                proof {
                    lemma_first_index(self.keys().len() as int, |k: int| self.keys()[k] == key@, i as int);
                }
                return i;
            }
            i = i + 1;
        }
        proof {
            lemma_first_index(self.keys().len() as int, |k: int| self.keys()[k] == key@, i as int);
        }
        i
    }

    /// A copy of the value under `key` while it is younger than the time to
    /// live; whether it still is depends on the clock. With no time to live
    /// nothing is returned.
    pub fn get(&self, key: &str) -> (r: Option<V>)
        where
            V: Clone,
        ensures
            index_of_key(self.keys(), key@) == self.keys().len() ==> r is None,
            self.spec_ttl_secs() == 0 ==> r is None,
            r matches Some(v) ==> index_of_key(self.keys(), key@) < self.keys().len() && cloned(
                self.values()[index_of_key(self.keys(), key@)],
                v,
            ),
    {
        let j = self.find(key);
        if j < self.data.len() {
            let age = whole_secs(&elapsed(&self.data[j].1.1));
            return self.get_at_age(key, age);
        }
        None
    }

    /// A copy of the value under `key` for an entry `age_secs` whole seconds
    /// old: present exactly when the key is cached and the age is under the
    /// time to live.
    pub fn get_at_age(&self, key: &str, age_secs: u64) -> (r: Option<V>)
        where
            V: Clone,
        ensures
            (r is Some) == (index_of_key(self.keys(), key@) < self.keys().len() && age_secs
                < self.spec_ttl_secs()),
            r matches Some(v) ==> cloned(self.values()[index_of_key(self.keys(), key@)], v),
    {
        let j = self.find(key);
        if j < self.data.len() && age_secs < self.ttl_secs {
            return Some(self.data[j].1.0.clone());
        }
        None
    }

    /// Stores `value` under `key` as the newest entry. When the cache is
    /// full, the oldest entry is evicted first; an earlier entry for `key`
    /// is replaced.
    pub fn insert(&mut self, key: String, value: V)
        requires
            old(self).wf(),
        ensures
            final(self).wf(),
            final(self).spec_capacity() == old(self).spec_capacity(),
            final(self).spec_ttl_secs() == old(self).spec_ttl_secs(),
            ({
                let e = old(self).eviction_slot();
                let k1 = remove_if(old(self).keys(), e);
                let j = index_of_key(k1, key@);
                &&& final(self).keys() == remove_if(k1, j).push(key@)
                &&& final(self).values() == remove_if(remove_if(old(self).values(), e), j).push(value)
            }),
    {
        let ghost e = old(self).eviction_slot();
        let len = self.data.len();
        if len >= self.capacity && len > 0 {
            let ghost before = self.data@;
            self.data.remove(0);
            proof {
                lemma_entry_map_remove(before, 0);
            }
        }
        let ghost mid = *self;
        assert(mid.keys() =~= remove_if(old(self).keys(), e));
        assert(mid.values() =~= remove_if(old(self).values(), e));
        let j = self.find(key.as_str());
        if j < self.data.len() {
            let ghost before = self.data@;
            self.data.remove(j);
            proof {
                lemma_entry_map_remove(before, j as int);
            }
        }
        let ghost mid2 = *self;
        assert(mid2.keys() =~= remove_if(mid.keys(), j as int));
        assert(mid2.values() =~= remove_if(mid.values(), j as int));
        assert forall|i: int| 0 <= i < mid2.keys().len() implies mid2.keys()[i] != key@ by {
            let p = |k: int| mid.keys()[k] == key@;
            lemma_first_index_props(mid.keys().len() as int, p);
            if j < mid.keys().len() {
                let i2 = if i < j { i } else { i + 1 };
                assert(mid2.keys()[i] == mid.keys()[i2]);
                assert(mid.keys()[j as int] == key@);
                assert(mid.data@[i2].0@ != mid.data@[j as int].0@);
            } else {
                assert(mid2.keys()[i] == mid.keys()[i]);
                assert(!p(i));
            }
        }
        let ghost before = self.data@;
        self.data.push((key, (value, instant_now())));
        proof {
            assert(self.keys() =~= mid2.keys().push(key@));
            assert(self.values() =~= mid2.values().push(value));
            assert forall|a: int, b: int|
                0 <= a < self.data@.len() && 0 <= b < self.data@.len() && a != b implies #[trigger] self.data@[a].0@
                != #[trigger] self.data@[b].0@ by {
                assert(self.keys()[a] == self.data@[a].0@);
                assert(self.keys()[b] == self.data@[b].0@);
                if a < before.len() && b < before.len() {
                    assert(self.data@[a] == before[a] && self.data@[b] == before[b]);
                }
            }
        }
    }

    /// The number of entries.
    pub fn len(&self) -> (r: usize)
        ensures
            r == self.keys().len(),
    {
        self.data.len()
    }

    /// Whether there are no entries.
    pub fn is_empty(&self) -> (r: bool)
        ensures
            r == (self.keys().len() == 0),
    {
        self.data.len() == 0
    }
}

} // verus!
