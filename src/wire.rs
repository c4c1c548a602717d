//! Big- and little-endian 16-bit fields, byte copying and the Internet
//! checksum (RFC 1071) over byte sequences.

use vstd::prelude::*;

verus! {

/// The bytes of an optional buffer.
pub open spec fn opt_seq(v: Option<Vec<u8>>) -> Option<Seq<u8>> {
    match v {
        Some(b) => Some(b@),
        None => None,
    }
}

/// The two bytes of `v` in network (big-endian) order.
pub open spec fn be16(v: u16) -> Seq<u8> {
    seq![(v / 256) as u8, (v % 256) as u8]
}

/// The two bytes of `v` in little-endian order.
pub open spec fn le16(v: u16) -> Seq<u8> {
    seq![(v % 256) as u8, (v / 256) as u8]
}

/// The big-endian 16-bit value stored at `i` and `i + 1`.
pub open spec fn u16_at(s: Seq<u8>, i: int) -> int {
    s[i] as int * 256 + s[i + 1] as int
}

/// The little-endian 16-bit value stored at `i` and `i + 1`.
pub open spec fn le16_at(s: Seq<u8>, i: int) -> int {
    s[i] as int + s[i + 1] as int * 256
}

/// `s` with the big-endian 16-bit value `v` written at `i`.
pub open spec fn with_u16_at(s: Seq<u8>, i: int, v: u16) -> Seq<u8> {
    s.update(i, (v / 256) as u8).update(i + 1, (v % 256) as u8)
}

/// The `k`-th 16-bit word of `s`, an odd final byte padded with zero.
pub open spec fn word(s: Seq<u8>, k: int) -> int {
    s[2 * k] as int * 256 + if 2 * k + 1 < s.len() {
        s[2 * k + 1] as int
    } else {
        0
    }
}

/// Number of 16-bit words that cover `s`.
pub open spec fn word_count(s: Seq<u8>) -> nat {
    ((s.len() + 1) / 2) as nat
}

/// One's-complement addition of two 16-bit values (end-around carry).
pub open spec fn add_carry(a: int, b: int) -> int {
    if a + b > 0xffff {
        a + b - 0xffff
    } else {
        a + b
    }
}

/// One's-complement sum of the first `n` words of `s`.
pub open spec fn ones_sum(s: Seq<u8>, n: nat) -> int
    decreases n,
{
    if n == 0 {
        0
    } else {
        add_carry(ones_sum(s, (n - 1) as nat), word(s, n - 1))
    }
}

/// The Internet checksum of `s`: the complement of its one's-complement sum.
pub open spec fn checksum_of(s: Seq<u8>) -> int {
    0xffff - ones_sum(s, word_count(s))
}

pub proof fn lemma_ones_sum_range(s: Seq<u8>, n: nat)
    requires
        n <= word_count(s),
    ensures
        0 <= ones_sum(s, n) <= 0xffff,
    decreases n,
{
    if n > 0 {
        lemma_ones_sum_range(s, (n - 1) as nat);
    }
}

/// Computes the Internet checksum of `s`.
pub fn internet_checksum(s: &[u8]) -> (r: u16)
    ensures
        r == checksum_of(s@),
{
    let n: usize = s.len();
    let mut acc: u32 = 0;
    let mut i: usize = 0;
    while i + 1 < n
        invariant
            n == s@.len(),
            i % 2 == 0,
            i <= n,
            acc == ones_sum(s@, (i / 2) as nat),
            0 <= acc <= 0xffff,
        decreases n - i,
    {
        let w: u32 = s[i] as u32 * 256 + s[i + 1] as u32;
        assert(w == word(s@, (i / 2) as int));
        acc = acc + w;
        if acc > 0xffff {
            acc = acc - 0xffff;
        }
        i = i + 2;
        assert(((i / 2) - 1) as nat == ((i - 2) / 2) as nat);
    }
    if i < n {
        let w: u32 = s[i] as u32 * 256;
        assert(w == word(s@, (i / 2) as int));
        acc = acc + w;
        if acc > 0xffff {
            acc = acc - 0xffff;
        }
        assert(i / 2 + 1 == word_count(s@));
    } else {
        assert(i / 2 == word_count(s@));
    }
    (0xffff - acc) as u16
}

/// Reads the big-endian 16-bit value at `i`.
pub fn read_u16_be(s: &[u8], i: usize) -> (r: u16)
    requires
        i + 1 < s@.len(),
    ensures
        r == u16_at(s@, i as int),
{
    s[i] as u16 * 256 + s[i + 1] as u16
}

/// Reads the little-endian 16-bit value at `i`.
pub fn read_u16_le(s: &[u8], i: usize) -> (r: u16)
    requires
        i + 1 < s@.len(),
    ensures
        r == le16_at(s@, i as int),
{
    s[i] as u16 + s[i + 1] as u16 * 256
}

/// Appends the big-endian bytes of `v`.
pub fn push_u16_be(out: &mut Vec<u8>, v: u16)
    ensures
        final(out)@ == old(out)@ + be16(v),
{
    out.push((v / 256) as u8);
    out.push((v % 256) as u8);
    assert(final(out)@ =~= old(out)@ + be16(v));
}

/// Appends the little-endian bytes of `v`.
pub fn push_u16_le(out: &mut Vec<u8>, v: u16)
    ensures
        final(out)@ == old(out)@ + le16(v),
{
    out.push((v % 256) as u8);
    out.push((v / 256) as u8);
    assert(final(out)@ =~= old(out)@ + le16(v));
}

/// Appends `src[start..end]`.
pub fn append_range(out: &mut Vec<u8>, src: &[u8], start: usize, end: usize)
    requires
        start <= end <= src@.len(),
    ensures
        final(out)@ == old(out)@ + src@.subrange(start as int, end as int),
{
    let ghost base = out@;
    let mut i: usize = start;
    while i < end
        invariant
            start <= i <= end,
            end <= src@.len(),
            out@ == base + src@.subrange(start as int, i as int),
        decreases end - i,
    {
        out.push(src[i]);
        i = i + 1;
        assert(out@ =~= base + src@.subrange(start as int, i as int));
    }
}

} // verus!
