//! Little-endian fixed-width integer fields, as the binary frame codecs write them.

use vstd::prelude::*;
use vstd::arithmetic::div_mod::{lemma_div_denominator, lemma_fundamental_div_mod};

verus! {

/// 256 to the power `n`.
pub open spec fn pow256(n: nat) -> nat
    decreases n,
{
    if n == 0 {
        1
    } else {
        256 * pow256((n - 1) as nat)
    }
}

/// The `n` low bytes of `v`, least significant first (`to_le_bytes`).
pub open spec fn le_bytes(v: nat, n: nat) -> Seq<u8> {
    Seq::new(n, |i: int| ((v / pow256(i as nat)) % 256) as u8)
}

/// The number that a little-endian byte string denotes (`from_le_bytes`).
pub open spec fn le_value(s: Seq<u8>) -> nat
    decreases s.len(),
{
    if s.len() == 0 {
        0
    } else {
        s[0] as nat + 256 * le_value(s.drop_first())
    }
}

pub proof fn lemma_pow256_pos(n: nat)
    ensures
        pow256(n) > 0,
    decreases n,
{
    if n > 0 {
        lemma_pow256_pos((n - 1) as nat);
    }
}

pub proof fn lemma_pow256_mono(a: nat, b: nat)
    requires
        a <= b,
    ensures
        pow256(a) <= pow256(b),
    decreases b - a,
{
    if a < b {
        lemma_pow256_mono(a, (b - 1) as nat);
        lemma_pow256_pos((b - 1) as nat);
    }
}

pub proof fn lemma_pow256_values()
    ensures
        pow256(2) == 0x1_0000,
        pow256(4) == 0x1_0000_0000,
        pow256(7) == 0x100_0000_0000_0000,
        pow256(8) == 0x1_0000_0000_0000_0000,
{
    reveal_with_fuel(pow256, 9);
}

pub proof fn lemma_le_value_bound(s: Seq<u8>)
    ensures
        le_value(s) < pow256(s.len()),
    decreases s.len(),
{
    if s.len() > 0 {
        let t = s.drop_first();
        lemma_le_value_bound(t);
        let a = s[0] as int;
        let b = le_value(t) as int;
        let p = pow256(t.len()) as int;
        assert(a + 256 * b < 256 * p) by (nonlinear_arith)
            requires
                0 <= a < 256,
                0 <= b < p,
        ;
    }
}

/// Reading back the bytes of a value that fits in them gives the value.
pub proof fn lemma_le_roundtrip(v: nat, n: nat)
    requires
        v < pow256(n),
    ensures
        le_value(le_bytes(v, n)) == v,
        le_bytes(v, n).len() == n,
    decreases n,
{
    let s = le_bytes(v, n);
    if n == 0 {
        assert(v == 0);
    } else {
        let m = (n - 1) as nat;
        let q = v / 256;
        lemma_pow256_pos(m);
        assert(q < pow256(m)) by {
            lemma_fundamental_div_mod(v as int, 256);
            let p = pow256(m) as int;
            let qq = q as int;
            let r = (v % 256) as int;
            assert(qq < p) by (nonlinear_arith)
                requires
                    (v as int) == 256 * qq + r,
                    0 <= r,
                    (v as int) < 256 * p,
            ;
        }
        lemma_le_roundtrip(q, m);
        assert forall|i: int| 0 <= i < m implies #[trigger] s.drop_first()[i] == le_bytes(q, m)[i] by {
            lemma_pow256_pos(i as nat);
            lemma_div_denominator(v as int, 256, pow256(i as nat) as int);
            assert(pow256((i + 1) as nat) == 256 * pow256(i as nat));
        }
        assert(s.drop_first() =~= le_bytes(q, m));
        assert(pow256(0) == 1);
        assert(v / 1 == v) by (nonlinear_arith);
        assert(s[0] == (v % 256) as u8);
        lemma_fundamental_div_mod(v as int, 256);
    }
}

/// Appends the `n` low bytes of `v`, least significant first.
pub fn push_le(out: &mut Vec<u8>, v: u64, n: usize)
    requires
        n <= 8,
    ensures
        final(out)@ == old(out)@ + le_bytes(v as nat, n as nat),
{
    let mut x: u64 = v;
    let mut i: usize = 0;
    assert(old(out)@ + le_bytes(v as nat, 0) =~= old(out)@);
    assert(pow256(0) == 1);
    assert(v as nat / 1 == v as nat) by (nonlinear_arith);
    while i < n
        invariant
            i <= n,
            n <= 8,
            x as nat == v as nat / pow256(i as nat),
            out@ == old(out)@ + le_bytes(v as nat, i as nat),
        decreases n - i,
    {
        let b = (x % 256) as u8;
        out.push(b);
        proof {
            lemma_pow256_pos(i as nat);
            lemma_div_denominator(v as int, pow256(i as nat) as int, 256);
            assert(pow256((i + 1) as nat) == 256 * pow256(i as nat));
            assert(old(out)@ + le_bytes(v as nat, (i + 1) as nat) =~= (old(out)@ + le_bytes(
                v as nat,
                i as nat,
            )).push(b));
        }
        x = x / 256;
        i = i + 1;
    }
}

/// The value of the `n` bytes at `off`, read least significant first.
pub fn read_le(data: &[u8], off: usize, n: usize) -> (r: u64)
    requires
        n <= 8,
        off + n <= data@.len(),
    ensures
        r as nat == le_value(data@.subrange(off as int, off + n)),
{
    let len = data.len();
    let mut acc: u64 = 0;
    let mut i: usize = n;
    proof {
        lemma_pow256_values();
    }
    while i > 0
        invariant
            i <= n,
            n <= 8,
            off + n <= data@.len(),
            len == data@.len(),
            pow256(7) == 0x100_0000_0000_0000,
            acc as nat == le_value(data@.subrange(off + i, off + n)),
        decreases i,
    {
        i = i - 1;
        let ghost rest = data@.subrange(off + i + 1, off + n);
        let ghost whole = data@.subrange(off + i, off + n);
        proof {
            assert(whole.drop_first() =~= rest);
            lemma_le_value_bound(rest);
            lemma_pow256_mono(rest.len(), 7);
            assert(acc < 0x100_0000_0000_0000);
            assert(acc * 256 + 255 < 0x1_0000_0000_0000_0000);
        }
        let byte: u8 = data[off + i];
        acc = acc * 256 + byte as u64;
    }
    assert(data@.subrange(off as int, off + n) =~= data@.subrange(off + 0, off + n));
    acc
}

} // verus!

verus! {

/// Appends the bytes of a slice.
pub fn push_bytes(out: &mut Vec<u8>, bytes: &[u8])
    ensures
        final(out)@ == old(out)@ + bytes@,
{
    out.extend_from_slice(bytes);
    assert(out@ =~= old(out)@ + bytes@);
}

} // verus!
