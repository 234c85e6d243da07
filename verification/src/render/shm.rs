//! A byte ring buffer for streaming data between producer and consumer.

use vstd::prelude::*;
use vstd::arithmetic::div_mod::{
    lemma_add_mod_noop, lemma_fundamental_div_mod_converse, lemma_mod_bound, lemma_sub_mod_noop,
};

verus! {

/// `x % c` for `x` within one period of `[0, c)`.
proof fn lemma_mod_near(x: int, c: int)
    requires
        c > 0,
        -c <= x < 2 * c,
    ensures
        x % c == (if x < 0 {
            x + c
        } else if x < c {
            x
        } else {
            x - c
        }),
{
    if x < 0 {
        lemma_fundamental_div_mod_converse(x, c, -1, x + c);
    } else if x < c {
        lemma_fundamental_div_mod_converse(x, c, 0, x);
    } else {
        lemma_fundamental_div_mod_converse(x, c, 1, x - c);
    }
}

/// Two numbers less than `c` apart, but not equal, have different remainders.
proof fn lemma_mod_distinct(a: int, b: int, c: int)
    requires
        c > 0,
        a < b < a + c,
    ensures
        a % c != b % c,
{
    vstd::arithmetic::div_mod::lemma_fundamental_div_mod(b, c);
    vstd::arithmetic::div_mod::lemma_fundamental_div_mod(a, c);
    lemma_mod_bound(a, c);
    lemma_mod_bound(b, c);
    if a % c == b % c {
        let qa = a / c;
        let qb = b / c;
        assert(false) by (nonlinear_arith)
            requires
                a == c * qa + (a % c),
                b == c * qb + (b % c),
                a % c == b % c,
                a < b < a + c,
                c > 0,
        ;
    }
}

/// A fixed-capacity byte ring: writes go in at the write position and reads
/// come out at the read position, both wrapping around the capacity.
/// Writing more than the free space overwrites the oldest cells.
pub struct RingBuffer {
    data: Vec<u8>,
    write_pos: usize,
    read_pos: usize,
    capacity: usize,
}

impl RingBuffer {
    /// The number of cells.
    pub closed spec fn cap(&self) -> nat {
        self.capacity as nat
    }

    /// The cells, indexed by position.
    pub closed spec fn cells(&self) -> Seq<u8> {
        self.data@
    }

    /// Where the next byte is written.
    pub closed spec fn write_index(&self) -> int {
        self.write_pos as int
    }

    /// Where the next byte is read.
    pub closed spec fn read_index(&self) -> int {
        self.read_pos as int
    }

    /// The cells match the capacity and both positions lie inside it.
    pub closed spec fn wf(&self) -> bool {
        &&& self.data@.len() == self.capacity
        &&& (self.capacity == 0 ==> self.write_pos == 0 && self.read_pos == 0)
        &&& (self.capacity > 0 ==> self.write_pos < self.capacity && self.read_pos < self.capacity)
    }

    /// The number of unread bytes: the distance from the read position
    /// forward to the write position.
    pub open spec fn unread_len(&self) -> nat {
        if self.cap() == 0 {
            0
        } else {
            ((self.write_index() - self.read_index()) % (self.cap() as int)) as nat
        }
    }

    /// The unread bytes, oldest first.
    pub open spec fn contents(&self) -> Seq<u8> {
        Seq::new(
            self.unread_len(),
            |i: int| self.cells()[(self.read_index() + i) % (self.cap() as int)],
        )
    }

    /// An empty ring of `capacity` zeroed cells.
    pub fn new(capacity: usize) -> (r: Self)
        ensures
            r.wf(),
            r.cap() == capacity,
            r.cells() == Seq::new(capacity as nat, |i: int| 0u8),
            r.write_index() == 0,
            r.read_index() == 0,
            r.contents().len() == 0,
    {
        let r = RingBuffer { data: vec![0u8; capacity], write_pos: 0, read_pos: 0, capacity };
        proof {
            if capacity > 0 {
                lemma_mod_near(0, capacity as int);
            }
        }
        r
    }

    /// Writes every byte of `data` at the write position, advancing it around
    /// the ring, and returns how many were written (all of them). Byte `k` lands
    /// in cell `(w + k) mod capacity`, so only the last `capacity` bytes remain
    /// when more are written; cells that no byte reached keep their contents.
    /// When the bytes fit in the free space they are appended to the unread ones.
    pub fn write(&mut self, data: &[u8]) -> (written: usize)
        requires
            old(self).wf(),
            old(self).cap() > 0 || data@.len() == 0,
        ensures
            final(self).wf(),
            written == data@.len(),
            final(self).cap() == old(self).cap(),
            final(self).read_index() == old(self).read_index(),
            old(self).cap() > 0 ==> final(self).write_index() == (old(self).write_index()
                + data@.len()) % (old(self).cap() as int),
            old(self).cap() > 0 ==> forall|k: int|
                #![trigger data@[k]]
                data@.len() - old(self).cap() <= k < data@.len() && 0 <= k
                    ==> final(self).cells()[(old(self).write_index() + k) % (old(self).cap() as int)]
                    == data@[k],
            forall|j: int|
                0 <= j < old(self).cap() && (j - old(self).write_index()) % (old(self).cap() as int)
                    >= data@.len() ==> #[trigger] final(self).cells()[j] == old(self).cells()[j],
            old(self).contents().len() + data@.len() < old(self).cap() ==> final(self).contents()
                == old(self).contents() + data@,
    {
        let ghost w0 = self.write_pos as int;
        let ghost c0 = self.data@;
        let ghost cap = self.capacity as int;
        let mut written: usize = 0;
        let n = data.len();
        if self.capacity > 0 {
            proof {
                lemma_mod_near(w0, cap);
            }
        }
        while written < n
            invariant
                self.wf(),
                n == data@.len(),
                written <= n,
                cap == self.capacity,
                self.read_pos == old(self).read_pos,
                c0 == old(self).data@,
                w0 == old(self).write_pos,
                cap > 0 ==> w0 < cap,
                cap > 0 || n == 0,
                cap > 0 ==> self.write_pos == (w0 + written) % cap,
                forall|k: int|
                    #![trigger data@[k]]
                    written - cap <= k < written && 0 <= k ==> self.data@[(w0 + k) % cap]
                        == data@[k],
                forall|j: int|
                    0 <= j < cap && (j - w0) % cap >= written ==> #[trigger] self.data@[j]
                        == c0[j],
            decreases n - written,
        {
            let p = self.write_pos;
            let ghost i = written as int;
            let ghost before = self.data@;
            self.data[p] = data[written];
            proof {
                assert forall|k: int|
                    #![trigger data@[k]]
                    i + 1 - cap <= k < i + 1 && 0 <= k implies self.data@[(w0 + k) % cap]
                    == data@[k] by {
                    if k < i {
                        lemma_mod_distinct(w0 + k, w0 + i, cap);
                        assert(before[(w0 + k) % cap] == data@[k]);
                    }
                }
                assert forall|j: int| 0 <= j < cap && (j - w0) % cap >= i + 1 implies #[trigger] self.data@[j]
                    == c0[j] by {
                    lemma_mod_bound(w0 + i, cap);
                    lemma_sub_mod_noop(w0 + i, w0, cap);
                    lemma_mod_near(w0, cap);
                    lemma_mod_bound(j - w0, cap);
                    if i < cap {
                        lemma_mod_near(i, cap);
                    }
                    assert(j != p);
                    assert(before[j] == c0[j]);
                }
                lemma_add_mod_noop(w0 + i, 1, cap);
                lemma_mod_bound(w0 + i, cap);
                if cap > 1 {
                    lemma_mod_near(1, cap);
                }
                lemma_mod_near((w0 + i) % cap + 1, cap);
            }
            self.write_pos = (self.write_pos + 1) % self.capacity;
            written = written + 1;
        }
        proof {
            if old(self).contents().len() + n < cap {
                self.lemma_appended(old(self), data@);
            }
        }
        written
    }

    /// After a write of bytes that fit in the free space, the unread bytes are
    /// the old ones followed by the written ones.
    proof fn lemma_appended(&self, before: &RingBuffer, data: Seq<u8>)
        requires
            before.wf(),
            self.wf(),
            before.contents().len() + data.len() < before.cap(),
            self.cap() == before.cap(),
            self.read_index() == before.read_index(),
            self.write_index() == (before.write_index() + data.len()) % (before.cap() as int),
            forall|k: int|
                #![trigger data[k]]
                data.len() - before.cap() <= k < data.len() && 0 <= k ==> self.cells()[(
                before.write_index() + k) % (before.cap() as int)] == data[k],
            forall|j: int|
                0 <= j < before.cap() && (j - before.write_index()) % (before.cap() as int)
                    >= data.len() ==> #[trigger] self.cells()[j] == before.cells()[j],
        ensures
            self.contents() == before.contents() + data,
    {
        let c = before.cap() as int;
        let w = before.write_index();
        let r = before.read_index();
        let a = before.unread_len() as int;
        let len = data.len() as int;
        lemma_mod_near(w - r, c);
        lemma_mod_near(w + len, c);
        lemma_mod_near((w + len) % c - r, c);
        assert(self.unread_len() == a + len);
        assert forall|i: int| 0 <= i < a + len implies #[trigger] self.contents()[i] == (
        before.contents() + data)[i] by {
            lemma_mod_near(r + i, c);
            let pos = (r + i) % c;
            if i < a {
                lemma_mod_near(pos - w, c);
                assert((pos - w) % c >= len);
            } else {
                let k = i - a;
                lemma_mod_near(w + k, c);
                assert(data[k] == self.cells()[(w + k) % c]);
            }
        }
        assert(self.contents() =~= before.contents() + data);
    }

    /// Reads up to `len` bytes, stopping early when nothing is left unread.
    /// The bytes come out oldest first and are removed from the unread ones.
    pub fn read(&mut self, len: usize) -> (r: Vec<u8>)
        requires
            old(self).wf(),
        ensures
            final(self).wf(),
            final(self).cap() == old(self).cap(),
            final(self).cells() == old(self).cells(),
            final(self).write_index() == old(self).write_index(),
            r@ == old(self).contents().take(
                if len <= old(self).unread_len() { len as int } else { old(self).unread_len() as int },
            ),
            final(self).contents() == old(self).contents().skip(r@.len() as int),
    {
        let ghost before = *self;
        let ghost cap = self.capacity as int;
        let ghost r0 = self.read_pos as int;
        let ghost avail = old(self).unread_len() as int;
        let mut result: Vec<u8> = Vec::with_capacity(len);
        let mut n: usize = 0;
        proof {
            if cap > 0 {
                lemma_mod_near(r0, cap);
                lemma_mod_near(before.write_index() - r0, cap);
            }
        }
        while n < len && self.read_pos != self.write_pos
            invariant
                self.wf(),
                before.wf(),
                cap == self.capacity,
                self.data@ == before.data@,
                self.write_pos == before.write_pos,
                r0 == before.read_pos,
                avail == before.unread_len(),
                n <= avail,
                n <= len,
                cap > 0 ==> self.read_pos == (r0 + n) % cap,
                cap == 0 ==> self.read_pos == 0,
                self.read_pos == self.write_pos <==> n == avail,
                result@ == before.contents().take(n as int),
            decreases len - n,
        {
            let p = self.read_pos;
            result.push(self.data[p]);
            proof {
                assert(result@ =~= before.contents().take(n + 1));
                lemma_add_mod_noop(r0 + n, 1, cap);
                lemma_mod_bound(r0 + n, cap);
                if cap > 1 {
                    lemma_mod_near(1, cap);
                }
                lemma_mod_near((r0 + n) % cap + 1, cap);
                lemma_mod_near(r0 + n + 1, cap);
                lemma_mod_near(before.write_index() - r0, cap);
                lemma_mod_near(r0 + avail, cap);
            }
            self.read_pos = (self.read_pos + 1) % self.capacity;
            n = n + 1;
        }
        proof {
            if cap > 0 {
                lemma_mod_near(r0 + n, cap);
                lemma_mod_near(before.write_index() - self.read_pos, cap);
                assert(self.unread_len() == avail - n);
                assert forall|i: int| 0 <= i < avail - n implies #[trigger] self.contents()[i]
                    == before.contents().skip(n as int)[i] by {
                    lemma_mod_near(self.read_pos + i, cap);
                    lemma_mod_near(r0 + n + i, cap);
                }
            }
            assert(self.contents() =~= before.contents().skip(n as int));
        }
        result
    }

    /// The number of unread bytes.
    pub fn available(&self) -> (r: usize)
        requires
            self.wf(),
        ensures
            r == self.unread_len(),
            r == self.contents().len(),
    {
        proof {
            if self.capacity > 0 {
                lemma_mod_near(self.write_pos - self.read_pos, self.capacity as int);
            }
        }
        if self.write_pos >= self.read_pos {
            self.write_pos - self.read_pos
        } else {
            self.capacity - self.read_pos + self.write_pos
        }
    }

    /// Whether nothing is left unread.
    pub fn is_empty(&self) -> (r: bool)
        requires
            self.wf(),
        ensures
            r == (self.contents().len() == 0),
    {
        proof {
            if self.capacity > 0 {
                lemma_mod_near(self.write_pos - self.read_pos, self.capacity as int);
            }
        }
        self.read_pos == self.write_pos
    }
}

} // verus!
