//! Little-endian byte encodings of integers.
use vstd::prelude::*;

verus! {

/// The two little-endian bytes of a `u16`.
pub open spec fn le16(v: u16) -> Seq<u8> {
    seq![(v % 256) as u8, (v / 256) as u8]
}

/// The low three little-endian bytes of a `u32` (an information object address).
pub open spec fn le24(v: u32) -> Seq<u8> {
    seq![(v % 256) as u8, ((v / 256) % 256) as u8, ((v / 65536) % 256) as u8]
}

/// The four little-endian bytes of a `u32`.
pub open spec fn le32(v: u32) -> Seq<u8> {
    seq![(v % 256) as u8, ((v / 256) % 256) as u8, ((v / 65536) % 256) as u8, (v / 16777216) as u8]
}

/// The two's-complement bit pattern of an `i16`.
pub open spec fn i16_bits(v: i16) -> u16 {
    (if v < 0 {
        v + 65536
    } else {
        v as int
    }) as u16
}

/// The two's-complement bit pattern of an `i32`.
pub open spec fn i32_bits(v: i32) -> u32 {
    (if v < 0 {
        v + 0x1_0000_0000
    } else {
        v as int
    }) as u32
}

/// The `i16` whose bit pattern is `lo + 256 * hi`.
pub open spec fn i16_of(lo: u8, hi: u8) -> i16 {
    let u = lo + 256 * hi;
    (if u < 32768 {
        u
    } else {
        u - 65536
    }) as i16
}

/// The `u32` with little-endian bytes `b0..b3`.
pub open spec fn u32_of(b0: u8, b1: u8, b2: u8, b3: u8) -> u32 {
    (b0 + 256 * b1 + 65536 * b2 + 16777216 * b3) as u32
}

/// The `i32` with little-endian bytes `b0..b3`.
pub open spec fn i32_of(b0: u8, b1: u8, b2: u8, b3: u8) -> i32 {
    let u = b0 + 256 * b1 + 65536 * b2 + 16777216 * b3;
    (if u < 0x8000_0000 {
        u
    } else {
        u - 0x1_0000_0000
    }) as i32
}

/// The little-endian bytes of a `u16`.
pub fn u16_le(v: u16) -> (r: [u8; 2])
    ensures
        r@ == le16(v),
{
    let r = [(v % 256) as u8, (v / 256) as u8];
    assert(r@ =~= le16(v));
    r
}

/// The little-endian bytes of a `u32`.
pub fn u32_le(v: u32) -> (r: [u8; 4])
    ensures
        r@ == le32(v),
{
    let r = [(v % 256) as u8, ((v / 256) % 256) as u8, ((v / 65536) % 256) as u8, (v / 16777216) as u8];
    assert(r@ =~= le32(v));
    r
}

/// The two's-complement bit pattern of an `i16`.
pub fn i16_to_bits(v: i16) -> (r: u16)
    ensures
        r == i16_bits(v),
{
    if v < 0 {
        (v as i32 + 65536) as u16
    } else {
        v as u16
    }
}

/// The two's-complement bit pattern of an `i32`.
pub fn i32_to_bits(v: i32) -> (r: u32)
    ensures
        r == i32_bits(v),
{
    if v < 0 {
        (v as i64 + 0x1_0000_0000) as u32
    } else {
        v as u32
    }
}

/// The `u16` with little-endian bytes `lo`, `hi`.
pub fn u16_from(lo: u8, hi: u8) -> (r: u16)
    ensures
        r == lo + 256 * hi,
{
    lo as u16 + (hi as u16) * 256
}

/// The `i16` with little-endian bytes `lo`, `hi`.
pub fn i16_from(lo: u8, hi: u8) -> (r: i16)
    ensures
        r == i16_of(lo, hi),
{
    let u: u16 = lo as u16 + (hi as u16) * 256;
    if u < 32768 {
        u as i16
    } else {
        (u as i32 - 65536) as i16
    }
}

/// The `u32` with little-endian bytes `b0..b3`.
pub fn u32_from(b0: u8, b1: u8, b2: u8, b3: u8) -> (r: u32)
    ensures
        r == u32_of(b0, b1, b2, b3),
{
    b0 as u32 + (b1 as u32) * 256 + (b2 as u32) * 65536 + (b3 as u32) * 16777216
}

/// The `i32` with little-endian bytes `b0..b3`.
pub fn i32_from(b0: u8, b1: u8, b2: u8, b3: u8) -> (r: i32)
    ensures
        r == i32_of(b0, b1, b2, b3),
{
    let u = u32_from(b0, b1, b2, b3);
    if u < 0x8000_0000 {
        u as i32
    } else {
        (u as i64 - 0x1_0000_0000) as i32
    }
}

/// Appends the bytes of `s`.
pub fn push_all(v: &mut Vec<u8>, s: &[u8])
    ensures
        final(v)@ == old(v)@ + s@,
{
    let mut i: usize = 0;
    while i < s.len()
        invariant
            i <= s.len(),
            v@ == old(v)@ + s@.subrange(0, i as int),
        decreases s.len() - i,
    {
        v.push(s[i]);
        i = i + 1;
        assert(v@ =~= old(v)@ + s@.subrange(0, i as int));
    }
    assert(s@.subrange(0, s.len() as int) =~= s@);
}

} // verus!
