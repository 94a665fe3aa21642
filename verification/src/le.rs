//! Little-endian integer fields of the wire format.

use vstd::prelude::*;

verus! {

/// `256` raised to `n`: one more than the largest value `n` bytes hold.
pub open spec fn pow256(n: nat) -> nat
    decreases n,
{
    if n == 0 {
        1
    } else {
        256 * pow256((n - 1) as nat)
    }
}

/// The number that the little-endian bytes `s` denote.
pub open spec fn le_value(s: Seq<u8>) -> nat
    decreases s.len(),
{
    if s.len() == 0 {
        0
    } else {
        s[0] as nat + 256 * le_value(s.drop_first())
    }
}

/// The `n` little-endian bytes of `v` (the low `n` bytes when `v` is larger).
pub open spec fn le_bytes(v: nat, n: nat) -> Seq<u8>
    decreases n,
{
    if n == 0 {
        Seq::empty()
    } else {
        seq![(v % 256) as u8] + le_bytes(v / 256, (n - 1) as nat)
    }
}

pub proof fn lemma_pow256_positive(n: nat)
    ensures
        pow256(n) >= 1,
    decreases n,
{
    if n > 0 {
        lemma_pow256_positive((n - 1) as nat);
    }
}

pub proof fn lemma_pow256_values()
    ensures
        pow256(2) == 0x1_0000,
        pow256(4) == 0x1_0000_0000,
        pow256(8) == 0x1_0000_0000_0000_0000,
{
    reveal_with_fuel(pow256, 9);
}

pub proof fn lemma_pow256_monotonic(a: nat, b: nat)
    requires
        a <= b,
    ensures
        pow256(a) <= pow256(b),
    decreases b,
{
    if a < b {
        lemma_pow256_monotonic(a, (b - 1) as nat);
        lemma_pow256_positive((b - 1) as nat);
    }
}

pub proof fn lemma_le_bytes_len(v: nat, n: nat)
    ensures
        le_bytes(v, n).len() == n,
    decreases n,
{
    if n > 0 {
        lemma_le_bytes_len(v / 256, (n - 1) as nat);
    }
}

pub proof fn lemma_le_value_bound(s: Seq<u8>)
    ensures
        le_value(s) < pow256(s.len()),
    decreases s.len(),
{
    if s.len() > 0 {
        lemma_le_value_bound(s.drop_first());
    }
}

/// Decoding the encoding of a value that fits gives the value back.
pub proof fn lemma_le_round_trip(v: nat, n: nat)
    requires
        v < pow256(n),
    ensures
        le_value(le_bytes(v, n)) == v,
        le_bytes(v, n).len() == n,
    decreases n,
{
    lemma_le_bytes_len(v, n);
    if n > 0 {
        let rest = le_bytes(v / 256, (n - 1) as nat);
        assert(le_bytes(v, n).drop_first() =~= rest);
        assert(v / 256 < pow256((n - 1) as nat));
        lemma_le_round_trip(v / 256, (n - 1) as nat);
    }
}

/// Encoding the value of some bytes gives the same bytes back.
pub proof fn lemma_le_bytes_of_value(s: Seq<u8>)
    ensures
        le_bytes(le_value(s), s.len()) == s,
    decreases s.len(),
{
    if s.len() > 0 {
        let v = le_value(s);
        let rest = s.drop_first();
        lemma_le_bytes_of_value(rest);
        assert(v % 256 == s[0] as nat);
        assert(v / 256 == le_value(rest));
        assert(le_bytes(v, s.len()) =~= s);
    }
}

pub proof fn lemma_le_value_step(s: Seq<u8>, k: int, e: int)
    requires
        0 <= k < e <= s.len(),
    ensures
        le_value(s.subrange(k, e)) == s[k] as nat + 256 * le_value(s.subrange(k + 1, e)),
{
    assert(s.subrange(k, e).drop_first() =~= s.subrange(k + 1, e));
}

/// Reads the little-endian value of `bytes[start..start + len]`.
pub fn read_le(bytes: &[u8], start: usize, len: usize) -> (v: u64)
    requires
        start + len <= bytes@.len(),
        len <= 8,
    ensures
        v as nat == le_value(bytes@.subrange(start as int, start + len)),
{
    let total = bytes.len();
    let mut v: u64 = 0;
    let mut i: usize = len;
    proof {
        lemma_pow256_values();
        lemma_pow256_monotonic(len as nat, 8);
        assert(bytes@.subrange(start + len, start + len) =~= Seq::<u8>::empty());
    }
    while i > 0
        invariant
            i <= len <= 8,
            start + len <= bytes@.len(),
            total == bytes@.len(),
            pow256(len as nat) <= 0x1_0000_0000_0000_0000,
            v as nat == le_value(bytes@.subrange(start + i, start + len)),
        decreases i,
    {
        proof {
            lemma_le_value_bound(bytes@.subrange(start + i - 1, start + len));
            lemma_le_value_step(bytes@, start + i - 1, start + len);
            lemma_pow256_monotonic((len - i + 1) as nat, len as nat);
            assert(bytes@.subrange(start + i - 1, start + len).len() == len - i + 1);
            assert((v as nat) * 256 + (bytes@[start + i - 1] as nat) < 0x1_0000_0000_0000_0000);
        }
        i = i - 1;
        v = v * 256 + bytes[start + i] as u64;
    }
    v
}

/// Appends the `len` little-endian bytes of `v`.
pub fn push_le(out: &mut Vec<u8>, v: u64, len: usize)
    requires
        len <= 8,
    ensures
        final(out)@ == old(out)@ + le_bytes(v as nat, len as nat),
{
    let mut x: u64 = v;
    let mut i: usize = 0;
    proof {
        assert(old(out)@ + le_bytes(v as nat, len as nat) =~= out@ + le_bytes(x as nat, (len - i) as nat));
    }
    while i < len
        invariant
            i <= len,
            old(out)@ + le_bytes(v as nat, len as nat) == out@ + le_bytes(x as nat, (len - i) as nat),
        decreases len - i,
    {
        let ghost before = out@;
        out.push((x % 256) as u8);
        proof {
            let k = (len - i) as nat;
            assert(le_bytes(x as nat, k) == seq![((x as nat) % 256) as u8] + le_bytes(x as nat / 256, (k - 1) as nat));
            assert(before + le_bytes(x as nat, k) =~= out@ + le_bytes(x as nat / 256, (k - 1) as nat));
        }
        x = x / 256;
        i = i + 1;
    }
    proof {
        assert(le_bytes(x as nat, 0) =~= Seq::<u8>::empty());
        assert(out@ + le_bytes(x as nat, 0) =~= out@);
    }
}

} // verus!
