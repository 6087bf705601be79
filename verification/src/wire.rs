//! Big-endian scalar primitives.
//!
//! All multi-byte integers of the RFB protocol are big-endian on the wire.
//! The spec functions here are the single definition of that byte order;
//! every codec of the crate states its contract through them.

use vstd::prelude::*;

verus! {

/// The high byte of a 16-bit big-endian value.
pub open spec fn u16_hi(x: u16) -> u8 {
    (x >> 8) as u8
}

/// The low byte of a 16-bit big-endian value.
pub open spec fn u16_lo(x: u16) -> u8 {
    x as u8
}

/// The two wire bytes of a 16-bit value, most significant first.
pub open spec fn u16_be_bytes(x: u16) -> Seq<u8> {
    seq![u16_hi(x), u16_lo(x)]
}

/// The four wire bytes of a 32-bit value, most significant first.
pub open spec fn u32_be_bytes(x: u32) -> Seq<u8> {
    seq![(x >> 24) as u8, (x >> 16) as u8, (x >> 8) as u8, x as u8]
}

/// The 16-bit value read from two big-endian bytes.
pub open spec fn be16(hi: u8, lo: u8) -> u16 {
    ((hi as u16) << 8) | (lo as u16)
}

/// The 32-bit value read from four big-endian bytes.
pub open spec fn be32(b0: u8, b1: u8, b2: u8, b3: u8) -> u32 {
    ((b0 as u32) << 24) | ((b1 as u32) << 16) | ((b2 as u32) << 8) | (b3 as u32)
}

/// The 16-bit value at offset `i` of a byte sequence.
pub open spec fn be16_at(b: Seq<u8>, i: int) -> u16 {
    be16(b[i], b[i + 1])
}

/// The 32-bit value at offset `i` of a byte sequence.
pub open spec fn be32_at(b: Seq<u8>, i: int) -> u32 {
    be32(b[i], b[i + 1], b[i + 2], b[i + 3])
}

/// Decomposing a 16-bit value into its wire bytes and reading them back
/// yields the value again, and the bytes of a read value are the bytes read.
pub proof fn lemma_be16_round_trip(x: u16, hi: u8, lo: u8)
    ensures
        be16(u16_hi(x), u16_lo(x)) == x,
        u16_hi(be16(hi, lo)) == hi,
        u16_lo(be16(hi, lo)) == lo,
{
    assert((((x >> 8) as u8 as u16) << 8) | (x as u8 as u16) == x) by (bit_vector);
    assert(((((hi as u16) << 8) | (lo as u16)) >> 8) as u8 == hi) by (bit_vector);
    assert((((hi as u16) << 8) | (lo as u16)) as u8 == lo) by (bit_vector);
}

/// Reads the 16-bit big-endian value at offset `i`.
pub fn read_u16_be(b: &Vec<u8>, i: usize) -> (r: u16)
    requires
        i + 1 < b@.len(),
    ensures
        r == be16_at(b@, i as int),
{
    let n: usize = b.len();
    ((b[i] as u16) << 8) | (b[i + 1] as u16)
}

/// Reads the 32-bit big-endian value at offset `i`.
pub fn read_u32_be(b: &Vec<u8>, i: usize) -> (r: u32)
    requires
        i + 3 < b@.len(),
    ensures
        r == be32_at(b@, i as int),
{
    let n: usize = b.len();
    ((b[i] as u32) << 24) | ((b[i + 1] as u32) << 16) | ((b[i + 2] as u32) << 8) | (b[i + 3]
        as u32)
}

/// Copies the bytes at offsets `start..end` into a fresh vector.
pub fn sub_bytes(b: &Vec<u8>, start: usize, end: usize) -> (r: Vec<u8>)
    requires
        start <= end <= b@.len(),
    ensures
        r@ == b@.subrange(start as int, end as int),
{
    let mut r: Vec<u8> = Vec::new();
    for i in start..end
        invariant
            start <= i <= end <= b@.len(),
            r@ == b@.subrange(start as int, i as int),
    {
        r.push(b[i]);
        assert(r@ =~= b@.subrange(start as int, i + 1));
    }
    r
}

/// Appends the two big-endian bytes of a 16-bit value.
pub fn push_u16_be(v: &mut Vec<u8>, x: u16)
    ensures
        final(v)@ == old(v)@ + u16_be_bytes(x),
{
    v.push((x >> 8) as u8);
    v.push(x as u8);
    assert(v@ =~= old(v)@ + u16_be_bytes(x));
}

/// Appends the four big-endian bytes of a 32-bit value.
pub fn push_u32_be(v: &mut Vec<u8>, x: u32)
    ensures
        final(v)@ == old(v)@ + u32_be_bytes(x),
{
    v.push((x >> 24) as u8);
    v.push((x >> 16) as u8);
    v.push((x >> 8) as u8);
    v.push(x as u8);
    assert(v@ =~= old(v)@ + u32_be_bytes(x));
}

} // verus!
