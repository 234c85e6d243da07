//! Caches for computation results: a bounded cache with expiry and
//! least-used eviction, a plain key/value cache, a cache with a generation
//! counter, and the cache of expression expansions.

use vstd::prelude::*;
use crate::clock::{elapsed, instant_now, whole_secs};
use crate::kernel::validation::types::str_eq;
use crate::strmap::{lemma_entry_map_remove, unique_keys, StrMap};
use crate::text::{
    chars_of, decimal, first_index, lemma_decimal_digits, lemma_decimal_injective, lemma_first_index,
    lemma_first_index_props, prefixed, push_decimal, string_push, string_push_str, to_owned_string,
};

verus! {

/// Cache errors.
#[derive(Debug, Clone)]
pub enum CacheError {
    Miss(String),
    InvalidKey(String),
    Serialization(String),
}

/// The displayed message of a cache error.
pub open spec fn cache_error_text(e: CacheError) -> Seq<char> {
    match e {
        CacheError::Miss(k) => "Cache miss: "@ + k@,
        CacheError::InvalidKey(k) => "Invalid key: "@ + k@,
        CacheError::Serialization(m) => "Serialization error: "@ + m@,
    }
}

impl CacheError {
    /// The displayed message, such as `Cache miss: x`.
    pub fn to_string(&self) -> (r: String)
        ensures
            r@ == cache_error_text(*self),
    {
        match self {
            CacheError::Miss(k) => prefixed("Cache miss: ", k),
            CacheError::InvalidKey(k) => prefixed("Invalid key: ", k),
            CacheError::Serialization(m) => prefixed("Serialization error: ", m),
        }
    }
}

/// A cached value with its creation time and how often it was read.
#[derive(Debug)]
pub struct CacheEntry<V> {
    pub value: V,
    pub created: std::time::Instant,
    pub access_count: u64,
}

/// `s` without position `i`, or `s` itself when `i` is not a position of it.
pub open spec fn remove_if<A>(s: Seq<A>, i: int) -> Seq<A> {
    if 0 <= i < s.len() {
        s.remove(i)
    } else {
        s
    }
}

/// The position of `k` in `keys`, or `keys.len()` when it is absent.
pub open spec fn index_of_key(keys: Seq<Seq<char>>, k: Seq<char>) -> int {
    first_index(keys.len() as int, |i: int| keys[i] == k)
}

/// The first position holding the smallest count.
pub open spec fn least_used(counts: Seq<u64>) -> int {
    first_index(counts.len() as int, |i: int| forall|j: int| 0 <= j < counts.len() ==> counts[i] <= counts[j])
}

/// What a read of `key` that returned `r` did to a cache: the entries stay;
/// a hit (a fresh entry) returns a copy of the value and advances the entry's
/// read count and the hit counter (both wrapping); anything else, including
/// an absent key, is a miss that advances the miss counter.
pub open spec fn read_effect<V: Clone>(
    before: L1Cache<String, V>,
    after: L1Cache<String, V>,
    key: Seq<char>,
    r: Option<V>,
) -> bool {
    &&& after.keys() == before.keys()
    &&& after.values() == before.values()
    &&& after.spec_capacity() == before.spec_capacity()
    &&& after.spec_ttl_secs() == before.spec_ttl_secs()
    &&& (index_of_key(before.keys(), key) == before.keys().len() ==> r is None)
    &&& match r {
        Some(v) => {
            let j = index_of_key(before.keys(), key);
            &&& j < before.keys().len()
            &&& cloned(before.values()[j], v)
            &&& after.counts() == before.counts().update(j, before.counts()[j].wrapping_add(1))
            &&& after.spec_hits() == before.spec_hits().wrapping_add(1)
            &&& after.spec_misses() == before.spec_misses()
        },
        None => {
            &&& after.counts() == before.counts()
            &&& after.spec_hits() == before.spec_hits()
            &&& after.spec_misses() == before.spec_misses().wrapping_add(1)
        },
    }
}

/// What storing `value` under `key` did to a cache: when it was full, the
/// entry at its eviction slot went first; an earlier entry for `key` went
/// too; the new entry comes last with a read count of zero. The counters,
/// capacity and time to live stay, and a cache within its bound stays so.
pub open spec fn insert_effect<V>(
    before: L1Cache<String, V>,
    after: L1Cache<String, V>,
    key: Seq<char>,
    value: V,
) -> bool {
    &&& after.spec_capacity() == before.spec_capacity()
    &&& after.spec_ttl_secs() == before.spec_ttl_secs()
    &&& after.spec_hits() == before.spec_hits()
    &&& after.spec_misses() == before.spec_misses()
    &&& (before.keys().len() <= before.bound() ==> after.keys().len() <= before.bound())
    &&& ({
        let e = before.eviction_slot();
        let k1 = remove_if(before.keys(), e);
        let j = index_of_key(k1, key);
        &&& after.keys() == remove_if(k1, j).push(key)
        &&& after.counts() == remove_if(remove_if(before.counts(), e), j).push(0)
        &&& after.values() == remove_if(remove_if(before.values(), e), j).push(value)
    })
}

/// A bounded in-memory cache. Entries expire after the time to live; when
/// the cache is full, an insertion first evicts the least-read entry, the
/// oldest one among equals. Entries are kept in insertion order, which is
/// the order of their creation times.
pub struct L1Cache<K, V> {
    data: Vec<(K, CacheEntry<V>)>,
    capacity: usize,
    ttl_secs: u64,
    hits: u64,
    misses: u64,
}

impl<V> L1Cache<String, V> {
    pub closed spec fn entries(&self) -> Seq<(String, CacheEntry<V>)> {
        self.data@
    }

    /// The keys, oldest first.
    pub open spec fn keys(&self) -> Seq<Seq<char>> {
        Seq::new(self.entries().len(), |i: int| self.entries()[i].0@)
    }

    /// How often each entry was read, in key order.
    pub open spec fn counts(&self) -> Seq<u64> {
        Seq::new(self.entries().len(), |i: int| self.entries()[i].1.access_count)
    }

    /// The values, in key order.
    pub open spec fn values(&self) -> Seq<V> {
        Seq::new(self.entries().len(), |i: int| self.entries()[i].1.value)
    }

    pub closed spec fn spec_capacity(&self) -> usize {
        self.capacity
    }

    /// The time to live, in whole seconds.
    pub closed spec fn spec_ttl_secs(&self) -> u64 {
        self.ttl_secs
    }

    pub closed spec fn spec_hits(&self) -> u64 {
        self.hits
    }

    pub closed spec fn spec_misses(&self) -> u64 {
        self.misses
    }

    /// Each key occurs once.
    pub closed spec fn wf(&self) -> bool {
        unique_keys(self.data@)
    }

    /// The most entries the cache holds: its capacity, but at least one.
    pub open spec fn bound(&self) -> int {
        if self.spec_capacity() > 0 {
            self.spec_capacity() as int
        } else {
            1
        }
    }

    /// The position an insertion evicts first: the least-read entry when the
    /// cache is full and not empty, else none (`-1`).
    pub open spec fn eviction_slot(&self) -> int {
        if self.keys().len() >= self.spec_capacity() && self.keys().len() > 0 {
            least_used(self.counts())
        } else {
            -1
        }
    }

    /// An empty cache of the given capacity and time to live in seconds.
    pub fn new(capacity: usize, ttl_secs: u64) -> (r: Self)
        ensures
            r.wf(),
            r.keys().len() == 0,
            r.spec_capacity() == capacity,
            r.spec_ttl_secs() == ttl_secs,
            r.spec_hits() == 0,
            r.spec_misses() == 0,
    {
        L1Cache { data: Vec::new(), capacity, ttl_secs, hits: 0, misses: 0 }
    }

    fn find(&self, key: &str) -> (r: usize)
        ensures
            r == index_of_key(self.keys(), key@),
            r <= self.keys().len(),
    {
        let mut i: usize = 0;
        while i < self.data.len()
            invariant
                i <= self.data@.len(),
                forall|j: int| 0 <= j < i ==> self.keys()[j] != key@,
            decreases self.data@.len() - i,
        {
            if str_eq(self.data[i].0.as_str(), key) {
                proof {
                    lemma_first_index(self.keys().len() as int, |k: int| self.keys()[k] == key@, i as int);
                }
                return i;
            }
            i = i + 1;
        }
        proof {
            lemma_first_index(self.keys().len() as int, |k: int| self.keys()[k] == key@, i as int);
        }
        i
    }

    /// Reads `key`. A present entry younger than the time to live is a hit:
    /// its value is returned and its read count advances; anything else is a
    /// miss. The entry's age is read from the clock; with no time to live
    /// every read misses.
    pub fn get(&mut self, key: &str) -> (r: Option<V>)
        where
            V: Clone,
        requires
            old(self).wf(),
        ensures
            final(self).wf(),
            read_effect(*old(self), *final(self), key@, r),
            old(self).spec_ttl_secs() == 0 ==> r is None,
    {
        let j = self.find(key);
        if j < self.data.len() {
            let age = whole_secs(&elapsed(&self.data[j].1.created));
            return self.get_at_age(key, age);
        }
        self.misses = self.misses.wrapping_add(1);
        None
    }

    /// Reads `key` as [`L1Cache::get`] does, for an entry `age_secs` whole
    /// seconds old: a hit exactly when the key is present and the age is
    /// under the time to live. (A span is under `n` seconds exactly when its
    /// whole seconds are.)
    pub fn get_at_age(&mut self, key: &str, age_secs: u64) -> (r: Option<V>)
        where
            V: Clone,
        requires
            old(self).wf(),
        ensures
            final(self).wf(),
            read_effect(*old(self), *final(self), key@, r),
            (r is Some) == (index_of_key(old(self).keys(), key@) < old(self).keys().len() && age_secs
                < old(self).spec_ttl_secs()),
    {
        let j = self.find(key);
        if j < self.data.len() && age_secs < self.ttl_secs {
            self.hits = self.hits.wrapping_add(1);
            let ghost before = self.data@;
            let count = self.data[j].1.access_count;
            self.data[j].1.access_count = count.wrapping_add(1);
            proof {
                assert(self.keys() =~= old(self).keys());
                assert(self.values() =~= old(self).values());
                assert(self.counts() =~= old(self).counts().update(j as int, count.wrapping_add(1)));
                assert forall|a: int, b: int|
                    0 <= a < self.data@.len() && 0 <= b < self.data@.len() && a != b implies #[trigger] self.data@[a].0@
                    != #[trigger] self.data@[b].0@ by {
                    assert(self.data@[a].0 == before[a].0);
                    assert(self.data@[b].0 == before[b].0);
                }
            }
            return Some(self.data[j].1.value.clone());
        }
        self.misses = self.misses.wrapping_add(1);
        None
    }

    fn least_used_index(&self) -> (r: usize)
        requires
            self.data@.len() > 0,
        ensures
            r == least_used(self.counts()),
            r < self.data@.len(),
    {
        let mut best: usize = 0;
        let mut i: usize = 1;
        while i < self.data.len()
            invariant
                1 <= i <= self.data@.len(),
                best < i,
                forall|j: int| 0 <= j < i ==> self.counts()[best as int] <= self.counts()[j],
                forall|j: int| 0 <= j < best ==> self.counts()[j] > self.counts()[best as int],
            decreases self.data@.len() - i,
        {
            if self.data[i].1.access_count < self.data[best].1.access_count {
                best = i;
            }
            i = i + 1;
        }
        proof {
            let c = self.counts();
            let p = |k: int| forall|j: int| 0 <= j < c.len() ==> c[k] <= c[j];
            assert forall|j: int| 0 <= j < best implies !#[trigger] p(j) by {
                assert(c[j] > c[best as int]);
            }
            lemma_first_index(c.len() as int, p, best as int);
        }
        best
    }

    /// Stores `value` under `key` with a read count of zero, as the newest
    /// entry. When the cache is full, the least-read entry (the oldest among
    /// equals) is evicted first; an earlier entry for `key` is replaced.
    /// Afterwards `key` is the newest entry and holds `value`, so a read of
    /// it younger than the time to live is a hit ([`L1Cache::get_at_age`]);
    /// a cache that was not full keeps every other key.
    pub fn insert(&mut self, key: String, value: V)
        requires
            old(self).wf(),
        ensures
            final(self).wf(),
            insert_effect(*old(self), *final(self), key@, value),
            final(self).keys().len() > 0,
            index_of_key(final(self).keys(), key@) == final(self).keys().len() - 1,
            final(self).values()[final(self).keys().len() - 1] == value,
            old(self).keys().len() < old(self).spec_capacity() ==> forall|k: Seq<char>|
                k != key@ && old(self).keys().contains(k) ==> #[trigger] final(self).keys().contains(k),
    {
        let ghost e = old(self).eviction_slot();
        if self.data.len() >= self.capacity && self.data.len() > 0 {
            let victim = self.least_used_index();
            let ghost before = self.data@;
            self.data.remove(victim);
            proof {
                lemma_entry_map_remove(before, victim as int);
            }
        }
        let ghost mid = *self;
        assert(mid.keys() =~= remove_if(old(self).keys(), e));
        assert(mid.counts() =~= remove_if(old(self).counts(), e));
        assert(mid.values() =~= remove_if(old(self).values(), e));
        let j = self.find(key.as_str());
        if j < self.data.len() {
            let ghost before = self.data@;
            self.data.remove(j);
            proof {
                lemma_entry_map_remove(before, j as int);
            }
        }
        let ghost mid2 = *self;
        assert(mid2.keys() =~= remove_if(mid.keys(), j as int));
        assert(mid2.counts() =~= remove_if(mid.counts(), j as int));
        assert(mid2.values() =~= remove_if(mid.values(), j as int));
        assert(forall|i: int| 0 <= i < mid2.keys().len() ==> mid2.keys()[i] != key@) by {
            assert forall|i: int| 0 <= i < mid2.keys().len() implies mid2.keys()[i] != key@ by {
                let p = |k: int| mid.keys()[k] == key@;
                lemma_first_index_props(mid.keys().len() as int, p);
                if j < mid.keys().len() {
                    let i2 = if i < j { i } else { i + 1 };
                    assert(mid2.keys()[i] == mid.keys()[i2]);
                    assert(mid.keys()[j as int] == key@);
                    assert(mid.data@[i2].0@ != mid.data@[j as int].0@);
                } else {
                    assert(mid2.keys()[i] == mid.keys()[i]);
                    assert(!p(i));
                }
            }
        }
        let ghost before = self.data@;
        self.data.push((key, CacheEntry { value, created: instant_now(), access_count: 0 }));
        proof {
            assert(self.keys() =~= mid2.keys().push(key@));
            lemma_first_index(self.keys().len() as int, |k: int| self.keys()[k] == key@, mid2.keys().len() as int);
            if old(self).keys().len() < old(self).spec_capacity() {
                assert forall|k: Seq<char>| k != key@ && old(self).keys().contains(k) implies #[trigger] self.keys().contains(k) by {
                    let i = choose|i: int| 0 <= i < old(self).keys().len() && old(self).keys()[i] == k;
                    assert(mid.keys()[i] == k);
                    if j < mid.keys().len() {
                        let i2 = if i < j { i } else { i - 1 };
                        lemma_first_index_props(mid.keys().len() as int, |k: int| mid.keys()[k] == key@);
                        assert(mid.keys()[j as int] == key@);
                        assert(i != j);
                        assert(mid2.keys()[i2] == k);
                        assert(self.keys()[i2] == k);
                    } else {
                        assert(mid2.keys()[i] == k);
                        assert(self.keys()[i] == k);
                    }
                }
            }
            assert(self.counts() =~= mid2.counts().push(0));
            assert(self.values() =~= mid2.values().push(value));
            assert forall|a: int, b: int|
                0 <= a < self.data@.len() && 0 <= b < self.data@.len() && a != b implies #[trigger] self.data@[a].0@
                != #[trigger] self.data@[b].0@ by {
                assert(self.keys()[a] == self.data@[a].0@);
                assert(self.keys()[b] == self.data@[b].0@);
                if a < before.len() && b < before.len() {
                    assert(self.data@[a] == before[a] && self.data@[b] == before[b]);
                }
            }
        }
    }

    /// Whether `key` has an entry, fresh or not.
    pub fn contains(&self, key: &str) -> (r: bool)
        ensures
            r == self.keys().contains(key@),
    {
        let j = self.find(key);
        proof {
            let p = |k: int| self.keys()[k] == key@;
            lemma_first_index_props(self.keys().len() as int, p);
            if j < self.keys().len() {
                assert(self.keys()[j as int] == key@);
            } else {
                assert forall|i: int| 0 <= i < self.keys().len() implies self.keys()[i] != key@ by {
                    assert(!p(i));
                }
            }
        }
        j < self.data.len()
    }

    /// Removes `key` and returns its value, if it had one.
    pub fn remove(&mut self, key: &str) -> (r: Option<V>)
        requires
            old(self).wf(),
        ensures
            final(self).wf(),
            final(self).spec_capacity() == old(self).spec_capacity(),
            final(self).spec_ttl_secs() == old(self).spec_ttl_secs(),
            final(self).spec_hits() == old(self).spec_hits(),
            final(self).spec_misses() == old(self).spec_misses(),
            ({
                let j = index_of_key(old(self).keys(), key@);
                &&& final(self).keys() == remove_if(old(self).keys(), j)
                &&& final(self).counts() == remove_if(old(self).counts(), j)
                &&& final(self).values() == remove_if(old(self).values(), j)
                &&& match r {
                    Some(v) => j < old(self).keys().len() && v == old(self).values()[j],
                    None => j == old(self).keys().len(),
                }
            }),
    {
        let j = self.find(key);
        if j < self.data.len() {
            let ghost before = self.data@;
            let (_, entry) = self.data.remove(j);
            proof {
                lemma_entry_map_remove(before, j as int);
                assert(self.keys() =~= remove_if(old(self).keys(), j as int));
                assert(self.counts() =~= remove_if(old(self).counts(), j as int));
                assert(self.values() =~= remove_if(old(self).values(), j as int));
            }
            Some(entry.value)
        } else {
            proof {
                assert(self.keys() =~= remove_if(old(self).keys(), j as int));
                assert(self.counts() =~= remove_if(old(self).counts(), j as int));
                assert(self.values() =~= remove_if(old(self).values(), j as int));
            }
            None
        }
    }

    /// Removes every entry.
    pub fn clear(&mut self)
        ensures
            final(self).wf(),
            final(self).keys().len() == 0,
            final(self).spec_capacity() == old(self).spec_capacity(),
            final(self).spec_ttl_secs() == old(self).spec_ttl_secs(),
            final(self).spec_hits() == old(self).spec_hits(),
            final(self).spec_misses() == old(self).spec_misses(),
    {
        self.data.clear();
    }

    /// The number of entries.
    pub fn len(&self) -> (r: usize)
        ensures
            r == self.keys().len(),
    {
        self.data.len()
    }

    /// Whether there are no entries.
    pub fn is_empty(&self) -> (r: bool)
        ensures
            r == (self.keys().len() == 0),
    {
        self.data.len() == 0
    }

    /// The number of hits so far.
    pub fn hits(&self) -> (r: u64)
        ensures
            r == self.spec_hits(),
    {
        self.hits
    }

    /// The number of misses so far.
    pub fn misses(&self) -> (r: u64)
        ensures
            r == self.spec_misses(),
    {
        self.misses
    }

    /// The capacity.
    pub fn capacity(&self) -> (r: usize)
        ensures
            r == self.spec_capacity(),
    {
        self.capacity
    }
}

/// A cache of precomputed values by name.
#[derive(Debug)]
pub struct PrecomputeCache<V> {
    cache: StrMap<V>,
}

impl<V> View for PrecomputeCache<V> {
    type V = Map<Seq<char>, V>;

    closed spec fn view(&self) -> Map<Seq<char>, V> {
        self.cache@
    }
}

impl<V> PrecomputeCache<V> {
    pub closed spec fn wf(&self) -> bool {
        self.cache.wf()
    }

    /// An empty cache.
    pub fn new() -> (r: Self)
        ensures
            r.wf(),
            r@ == Map::<Seq<char>, V>::empty(),
    {
        PrecomputeCache { cache: StrMap::new() }
    }

    /// A copy of the value under `key`, if any.
    pub fn get(&self, key: &str) -> (r: Option<V>)
        where
            V: Clone,
        requires
            self.wf(),
        ensures
            match r {
                Some(v) => self@.contains_key(key@) && cloned(self@[key@], v),
                None => !self@.contains_key(key@),
            },
    {
        match self.cache.get(key) {
            Some(v) => Some(v.clone()),
            None => None,
        }
    }

    /// Stores `value` under `key`.
    pub fn insert(&mut self, key: String, value: V)
        requires
            old(self).wf(),
        ensures
            final(self).wf(),
            final(self)@ == old(self)@.insert(key@, value),
    {
        self.cache.insert(key, value);
    }

    /// Whether `key` has a value.
    pub fn contains(&self, key: &str) -> (r: bool)
        requires
            self.wf(),
        ensures
            r == self@.contains_key(key@),
    {
        self.cache.contains_key(key)
    }

    /// Removes every value.
    pub fn clear(&mut self)
        ensures
            final(self).wf(),
            final(self)@ == Map::<Seq<char>, V>::empty(),
    {
        self.cache = StrMap::new();
    }

    /// The number of values.
    pub fn len(&self) -> (r: usize)
        requires
            self.wf(),
        ensures
            r == self@.dom().len(),
    {
        self.cache.len()
    }

    /// Whether there are no values.
    pub fn is_empty(&self) -> (r: bool)
        requires
            self.wf(),
        ensures
            r == (self@.dom().len() == 0),
    {
        self.cache.len() == 0
    }

    /// The value under `key`: the cached one when there is one, else the
    /// result of `f`, which is then cached as well.
    pub fn get_or_insert_with<F>(&mut self, key: &str, f: F) -> (r: V)
        where
            V: Clone,
            F: FnOnce() -> V,
        requires
            old(self).wf(),
            !old(self)@.contains_key(key@) ==> f.requires(()),
        ensures
            final(self).wf(),
            old(self)@.contains_key(key@) ==> final(self)@ == old(self)@ && cloned(old(self)@[key@], r),
            !old(self)@.contains_key(key@) ==> f.ensures((), r) && final(self)@.contains_key(key@) && cloned(
                r,
                final(self)@[key@],
            ) && final(self)@ == old(self)@.insert(key@, final(self)@[key@]),
    {
        match self.get(key) {
            Some(v) => v,
            None => {
                let v = f();
                self.insert(to_owned_string(key), v.clone());
                v
            },
        }
    }
}

impl<V> Default for PrecomputeCache<V> {
    /// An empty cache.
    fn default() -> (r: Self)
        ensures
            r.wf(),
            r@ == Map::<Seq<char>, V>::empty(),
    {
        PrecomputeCache::new()
    }
}

/// A cache whose generation counter advances (wrapping) with every change,
/// so that readers can tell that what they saw is outdated.
#[derive(Debug)]
pub struct AtomicCache<V> {
    data: StrMap<V>,
    generation: u64,
}

impl<V> View for AtomicCache<V> {
    type V = Map<Seq<char>, V>;

    closed spec fn view(&self) -> Map<Seq<char>, V> {
        self.data@
    }
}

impl<V> AtomicCache<V> {
    pub closed spec fn wf(&self) -> bool {
        self.data.wf()
    }

    pub closed spec fn spec_generation(&self) -> u64 {
        self.generation
    }

    /// An empty cache at generation 0.
    pub fn new() -> (r: Self)
        ensures
            r.wf(),
            r@ == Map::<Seq<char>, V>::empty(),
            r.spec_generation() == 0,
    {
        AtomicCache { data: StrMap::new(), generation: 0 }
    }

    /// A copy of the value under `key`, if any.
    pub fn get(&self, key: &str) -> (r: Option<V>)
        where
            V: Clone,
        requires
            self.wf(),
        ensures
            match r {
                Some(v) => self@.contains_key(key@) && cloned(self@[key@], v),
                None => !self@.contains_key(key@),
            },
    {
        match self.data.get(key) {
            Some(v) => Some(v.clone()),
            None => None,
        }
    }

    /// Stores `value` under `key` and starts a new generation.
    pub fn insert(&mut self, key: String, value: V)
        requires
            old(self).wf(),
        ensures
            final(self).wf(),
            final(self)@ == old(self)@.insert(key@, value),
            final(self).spec_generation() == old(self).spec_generation().wrapping_add(1),
    {
        self.data.insert(key, value);
        self.generation = self.generation.wrapping_add(1);
    }

    /// Starts a new generation without changing the values.
    pub fn invalidate(&mut self)
        ensures
            final(self).wf() == old(self).wf(),
            final(self)@ == old(self)@,
            final(self).spec_generation() == old(self).spec_generation().wrapping_add(1),
    {
        self.generation = self.generation.wrapping_add(1);
    }

    /// The current generation.
    pub fn generation(&self) -> (r: u64)
        ensures
            r == self.spec_generation(),
    {
        self.generation
    }

    /// Removes every value and starts a new generation.
    pub fn clear(&mut self)
        ensures
            final(self).wf(),
            final(self)@ == Map::<Seq<char>, V>::empty(),
            final(self).spec_generation() == old(self).spec_generation().wrapping_add(1),
    {
        self.data = StrMap::new();
        self.generation = self.generation.wrapping_add(1);
    }
}

impl<V> Default for AtomicCache<V> {
    /// An empty cache at generation 0.
    fn default() -> (r: Self)
        ensures
            r.wf(),
            r@ == Map::<Seq<char>, V>::empty(),
            r.spec_generation() == 0,
    {
        AtomicCache::new()
    }
}

/// The result of expanding an expression.
#[derive(Debug, Clone)]
pub struct ExpansionResult {
    pub expanded: String,
    pub terms: usize,
    pub operations: usize,
}

/// The cache key of an expression: `expand:` followed by the expression.
pub open spec fn expansion_key(expr: Seq<char>) -> Seq<char> {
    "expand:"@ + expr
}

/// The cache of expression expansions.
#[derive(Debug)]
pub struct ExpansionCache {
    cache: PrecomputeCache<ExpansionResult>,
}

impl View for ExpansionCache {
    type V = Map<Seq<char>, ExpansionResult>;

    closed spec fn view(&self) -> Map<Seq<char>, ExpansionResult> {
        self.cache@
    }
}

impl ExpansionCache {
    pub closed spec fn wf(&self) -> bool {
        self.cache.wf()
    }

    /// An empty cache.
    pub fn new() -> (r: Self)
        ensures
            r.wf(),
            r@ == Map::<Seq<char>, ExpansionResult>::empty(),
    {
        ExpansionCache { cache: PrecomputeCache::new() }
    }

    fn key(expr: &str) -> (r: String)
        ensures
            r@ == expansion_key(expr@),
    {
        let mut k = to_owned_string("expand:");
        crate::text::string_push_str(&mut k, expr);
        k
    }

    /// The cached expansion of `expr`, if any.
    pub fn get(&self, expr: &str) -> (r: Option<ExpansionResult>)
        requires
            self.wf(),
        ensures
            match r {
                Some(v) => self@.contains_key(expansion_key(expr@)) && cloned(self@[expansion_key(expr@)], v),
                None => !self@.contains_key(expansion_key(expr@)),
            },
    {
        let k = ExpansionCache::key(expr);
        self.cache.get(k.as_str())
    }

    /// Caches the expansion of `expr`.
    pub fn insert(&mut self, expr: &str, result: ExpansionResult)
        requires
            old(self).wf(),
        ensures
            final(self).wf(),
            final(self)@ == old(self)@.insert(expansion_key(expr@), result),
    {
        let k = ExpansionCache::key(expr);
        self.cache.insert(k, result);
    }

    /// Removes every cached expansion.
    pub fn clear(&mut self)
        ensures
            final(self).wf(),
            final(self)@ == Map::<Seq<char>, ExpansionResult>::empty(),
    {
        self.cache.clear();
    }
}

impl Default for ExpansionCache {
    /// An empty cache.
    fn default() -> (r: Self)
        ensures
            r.wf(),
            r@ == Map::<Seq<char>, ExpansionResult>::empty(),
    {
        ExpansionCache::new()
    }
}

/// The cache key of an (expression, variable) pair: the expression's length
/// in decimal, `:`, the expression, then the variable.
pub open spec fn pair_key(expr: Seq<char>, var: Seq<char>) -> Seq<char> {
    decimal(expr.len()) + seq![':'] + expr + var
}

/// Different (expression, variable) pairs have different cache keys.
pub proof fn lemma_pair_key_injective(e1: Seq<char>, v1: Seq<char>, e2: Seq<char>, v2: Seq<char>)
    requires
        pair_key(e1, v1) == pair_key(e2, v2),
    ensures
        e1 == e2,
        v1 == v2,
{
    let k = pair_key(e1, v1);
    let d1 = decimal(e1.len());
    let d2 = decimal(e2.len());
    lemma_decimal_digits(e1.len());
    lemma_decimal_digits(e2.len());
    assert(k[d1.len() as int] == ':');
    assert(k[d2.len() as int] == ':');
    if d1.len() < d2.len() {
        assert(k[d1.len() as int] == d2[d1.len() as int]);
    } else if d2.len() < d1.len() {
        assert(k[d2.len() as int] == d1[d2.len() as int]);
    }
    assert(d1 =~= k.take(d1.len() as int));
    assert(d2 =~= k.take(d2.len() as int));
    lemma_decimal_injective(e1.len(), e2.len());
    let s: int = d1.len() as int + 1;
    assert(e1 =~= k.subrange(s, s + e1.len() as int));
    assert(e2 =~= k.subrange(s, s + e2.len() as int));
    assert(v1 =~= k.skip(s + e1.len() as int));
    assert(v2 =~= k.skip(s + e2.len() as int));
}

/// The key of an (expression, variable) pair.
fn pair_key_of(expr: &str, var: &str) -> (r: String)
    ensures
        r@ == pair_key(expr@, var@),
{
    let n = chars_of(expr).len();
    let mut r = String::new();
    push_decimal(&mut r, n as u64);
    string_push(&mut r, ':');
    string_push_str(&mut r, expr);
    string_push_str(&mut r, var);
    assert(r@ =~= pair_key(expr@, var@));
    r
}

/// The caches of the symbolic engine: parsed trees and simplified texts by
/// expression, derivatives and integrals by (expression, variable). The
/// tree type `E` is the engine's.
pub struct ExpressionCache<E> {
    parsed: L1Cache<String, E>,
    simplified: L1Cache<String, String>,
    derivatives: L1Cache<String, E>,
    integrals: L1Cache<String, E>,
}

impl<E> ExpressionCache<E> {
    pub closed spec fn parsed_cache(&self) -> L1Cache<String, E> {
        self.parsed
    }

    pub closed spec fn simplified_cache(&self) -> L1Cache<String, String> {
        self.simplified
    }

    pub closed spec fn derivative_cache(&self) -> L1Cache<String, E> {
        self.derivatives
    }

    pub closed spec fn integral_cache(&self) -> L1Cache<String, E> {
        self.integrals
    }

    pub closed spec fn wf(&self) -> bool {
        &&& self.parsed.wf()
        &&& self.simplified.wf()
        &&& self.derivatives.wf()
        &&& self.integrals.wf()
    }

    /// Empty caches: parsed trees up to `parsed_capacity`, simplified texts up
    /// to `simplified_capacity`, derivatives and integrals up to twice that;
    /// all expire after `ttl_secs` seconds.
    pub fn new(parsed_capacity: usize, simplified_capacity: usize, ttl_secs: u64) -> (r: Self)
        requires
            simplified_capacity <= usize::MAX / 2,
        ensures
            r.wf(),
            r.parsed_cache().keys().len() == 0,
            r.simplified_cache().keys().len() == 0,
            r.derivative_cache().keys().len() == 0,
            r.integral_cache().keys().len() == 0,
            r.parsed_cache().spec_capacity() == parsed_capacity,
            r.simplified_cache().spec_capacity() == simplified_capacity,
            r.derivative_cache().spec_capacity() == simplified_capacity * 2,
            r.integral_cache().spec_capacity() == simplified_capacity * 2,
            r.parsed_cache().spec_ttl_secs() == ttl_secs,
            r.simplified_cache().spec_ttl_secs() == ttl_secs,
            r.derivative_cache().spec_ttl_secs() == ttl_secs,
            r.integral_cache().spec_ttl_secs() == ttl_secs,
    {
        ExpressionCache {
            parsed: L1Cache::new(parsed_capacity, ttl_secs),
            simplified: L1Cache::new(simplified_capacity, ttl_secs),
            derivatives: L1Cache::new(simplified_capacity * 2, ttl_secs),
            integrals: L1Cache::new(simplified_capacity * 2, ttl_secs),
        }
    }

    /// The cached tree of `expr`, read as from its cache.
    pub fn get_parsed(&mut self, expr: &str) -> (r: Option<E>)
        where
            E: Clone,
        requires
            old(self).wf(),
        ensures
            final(self).wf(),
            read_effect(old(self).parsed_cache(), final(self).parsed_cache(), expr@, r),
            final(self).simplified_cache() == old(self).simplified_cache(),
            final(self).derivative_cache() == old(self).derivative_cache(),
            final(self).integral_cache() == old(self).integral_cache(),
    {
        self.parsed.get(expr)
    }

    /// Caches the tree of `expr`.
    pub fn cache_parsed(&mut self, expr: &str, ast: E)
        requires
            old(self).wf(),
        ensures
            final(self).wf(),
            insert_effect(old(self).parsed_cache(), final(self).parsed_cache(), expr@, ast),
            final(self).simplified_cache() == old(self).simplified_cache(),
            final(self).derivative_cache() == old(self).derivative_cache(),
            final(self).integral_cache() == old(self).integral_cache(),
    {
        self.parsed.insert(to_owned_string(expr), ast);
    }

    /// The cached simplified text of `expr`, read as from its cache.
    pub fn get_simplified(&mut self, expr: &str) -> (r: Option<String>)
        requires
            old(self).wf(),
        ensures
            final(self).wf(),
            read_effect(old(self).simplified_cache(), final(self).simplified_cache(), expr@, r),
            final(self).parsed_cache() == old(self).parsed_cache(),
            final(self).derivative_cache() == old(self).derivative_cache(),
            final(self).integral_cache() == old(self).integral_cache(),
    {
        self.simplified.get(expr)
    }

    /// Caches the simplified text of `expr`.
    pub fn cache_simplified(&mut self, expr: &str, simplified: String)
        requires
            old(self).wf(),
        ensures
            final(self).wf(),
            insert_effect(old(self).simplified_cache(), final(self).simplified_cache(), expr@, simplified),
            final(self).parsed_cache() == old(self).parsed_cache(),
            final(self).derivative_cache() == old(self).derivative_cache(),
            final(self).integral_cache() == old(self).integral_cache(),
    {
        self.simplified.insert(to_owned_string(expr), simplified);
    }

    /// The cached derivative of `expr` by `var`, read as from its cache.
    pub fn get_derivative(&mut self, expr: &str, var: &str) -> (r: Option<E>)
        where
            E: Clone,
        requires
            old(self).wf(),
        ensures
            final(self).wf(),
            read_effect(old(self).derivative_cache(), final(self).derivative_cache(), pair_key(expr@, var@), r),
            final(self).parsed_cache() == old(self).parsed_cache(),
            final(self).simplified_cache() == old(self).simplified_cache(),
            final(self).integral_cache() == old(self).integral_cache(),
    {
        let key = pair_key_of(expr, var);
        self.derivatives.get(key.as_str())
    }

    /// Caches the derivative of `expr` by `var`.
    pub fn cache_derivative(&mut self, expr: &str, var: &str, deriv: E)
        requires
            old(self).wf(),
        ensures
            final(self).wf(),
            insert_effect(old(self).derivative_cache(), final(self).derivative_cache(), pair_key(expr@, var@), deriv),
            final(self).parsed_cache() == old(self).parsed_cache(),
            final(self).simplified_cache() == old(self).simplified_cache(),
            final(self).integral_cache() == old(self).integral_cache(),
    {
        self.derivatives.insert(pair_key_of(expr, var), deriv);
    }

    /// The cached integral of `expr` by `var`, read as from its cache.
    pub fn get_integral(&mut self, expr: &str, var: &str) -> (r: Option<E>)
        where
            E: Clone,
        requires
            old(self).wf(),
        ensures
            final(self).wf(),
            read_effect(old(self).integral_cache(), final(self).integral_cache(), pair_key(expr@, var@), r),
            final(self).parsed_cache() == old(self).parsed_cache(),
            final(self).simplified_cache() == old(self).simplified_cache(),
            final(self).derivative_cache() == old(self).derivative_cache(),
    {
        let key = pair_key_of(expr, var);
        self.integrals.get(key.as_str())
    }

    /// Caches the integral of `expr` by `var`.
    pub fn cache_integral(&mut self, expr: &str, var: &str, integral: E)
        requires
            old(self).wf(),
        ensures
            final(self).wf(),
            insert_effect(old(self).integral_cache(), final(self).integral_cache(), pair_key(expr@, var@), integral),
            final(self).parsed_cache() == old(self).parsed_cache(),
            final(self).simplified_cache() == old(self).simplified_cache(),
            final(self).derivative_cache() == old(self).derivative_cache(),
    {
        self.integrals.insert(pair_key_of(expr, var), integral);
    }

    /// Empties the four caches; their counters, capacities and times to live stay.
    pub fn clear(&mut self)
        ensures
            final(self).wf(),
            final(self).parsed_cache().keys().len() == 0,
            final(self).simplified_cache().keys().len() == 0,
            final(self).derivative_cache().keys().len() == 0,
            final(self).integral_cache().keys().len() == 0,
            final(self).parsed_cache().spec_capacity() == old(self).parsed_cache().spec_capacity(),
            final(self).simplified_cache().spec_capacity() == old(self).simplified_cache().spec_capacity(),
            final(self).derivative_cache().spec_capacity() == old(self).derivative_cache().spec_capacity(),
            final(self).integral_cache().spec_capacity() == old(self).integral_cache().spec_capacity(),
            final(self).parsed_cache().spec_hits() == old(self).parsed_cache().spec_hits(),
            final(self).parsed_cache().spec_misses() == old(self).parsed_cache().spec_misses(),
    {
        self.parsed.clear();
        self.simplified.clear();
        self.derivatives.clear();
        self.integrals.clear();
    }

    /// The cache of parsed trees.
    pub fn parsed(&self) -> (r: &L1Cache<String, E>)
        ensures
            *r == self.parsed_cache(),
    {
        &self.parsed
    }

    /// The cache of simplified texts.
    pub fn simplified(&self) -> (r: &L1Cache<String, String>)
        ensures
            *r == self.simplified_cache(),
    {
        &self.simplified
    }

    /// The cache of derivatives.
    pub fn derivatives(&self) -> (r: &L1Cache<String, E>)
        ensures
            *r == self.derivative_cache(),
    {
        &self.derivatives
    }

    /// The cache of integrals.
    pub fn integrals(&self) -> (r: &L1Cache<String, E>)
        ensures
            *r == self.integral_cache(),
    {
        &self.integrals
    }
}

} // verus!
