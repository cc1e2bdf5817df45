//! Little-endian integers in byte sequences, as the companion protocol lays
//! them out.

use vstd::prelude::*;

verus! {

/// The unsigned 32-bit number at `p[i..i + 4]`, little-endian.
pub open spec fn u32_le_at(p: Seq<u8>, i: int) -> int {
    p[i] as int + 256 * (p[i + 1] as int) + 65536 * (p[i + 2] as int) + 16777216 * (
    p[i + 3] as int)
}

/// The signed (two's complement) 32-bit number at `p[i..i + 4]`.
pub open spec fn i32_le_at(p: Seq<u8>, i: int) -> int {
    let u = u32_le_at(p, i);
    if u >= 0x8000_0000 {
        u - 0x1_0000_0000
    } else {
        u
    }
}

/// The unsigned 16-bit number at `p[i..i + 2]`, little-endian.
pub open spec fn u16_le_at(p: Seq<u8>, i: int) -> int {
    p[i] as int + 256 * (p[i + 1] as int)
}

/// The four little-endian bytes of `v`.
pub open spec fn u32_le_bytes(v: int) -> Seq<u8> {
    seq![(v % 256) as u8, ((v / 256) % 256) as u8, ((v / 65536) % 256) as u8, ((v / 16777216) % 256) as u8]
}

/// Reads the unsigned 32-bit number at `p[i..i + 4]`.
pub fn read_u32_le(p: &[u8], i: usize) -> (v: u32)
    requires
        i + 4 <= p@.len(),
    ensures
        v as int == u32_le_at(p@, i as int),
{
    p[i] as u32 + 256 * (p[i + 1] as u32) + 65536 * (p[i + 2] as u32) + 16777216 * (
    p[i + 3] as u32)
}

/// Reads the signed 32-bit number at `p[i..i + 4]`.
pub fn read_i32_le(p: &[u8], i: usize) -> (v: i32)
    requires
        i + 4 <= p@.len(),
    ensures
        v as int == i32_le_at(p@, i as int),
{
    let u = read_u32_le(p, i);
    if u >= 0x8000_0000 {
        (u as i64 - 0x1_0000_0000i64) as i32
    } else {
        u as i32
    }
}

/// Reads the unsigned 16-bit number at `p[i..i + 2]`.
pub fn read_u16_le(p: &[u8], i: usize) -> (v: u16)
    requires
        i + 2 <= p@.len(),
    ensures
        v as int == u16_le_at(p@, i as int),
{
    p[i] as u16 + 256 * (p[i + 1] as u16)
}

/// Appends the four little-endian bytes of `v` to `buf`.
pub fn push_u32_le(buf: &mut Vec<u8>, v: u32)
    ensures
        final(buf)@ == old(buf)@ + u32_le_bytes(v as int),
{
    buf.push((v % 256) as u8);
    buf.push(((v / 256) % 256) as u8);
    buf.push(((v / 65536) % 256) as u8);
    buf.push(((v / 16777216) % 256) as u8);
    assert(final(buf)@ =~= old(buf)@ + u32_le_bytes(v as int));
}

/// Reading back the bytes of a 32-bit number gives the number.
pub proof fn lemma_u32_le_roundtrip(v: u32)
    ensures
        u32_le_at(u32_le_bytes(v as int), 0) == v,
{
}

/// Writing out the number read at `p[i..i + 4]` gives back those four
/// bytes.
pub proof fn lemma_u32_le_bytes_at(p: Seq<u8>, i: int)
    requires
        0 <= i,
        i + 4 <= p.len(),
    ensures
        u32_le_bytes(u32_le_at(p, i)) == p.subrange(i, i + 4),
{
    let (a, b, c, d) = (p[i], p[i + 1], p[i + 2], p[i + 3]);
    assert({
        let v = a as int + 256 * (b as int) + 65536 * (c as int) + 16777216 * (d as int);
        &&& v % 256 == a
        &&& (v / 256) % 256 == b
        &&& (v / 65536) % 256 == c
        &&& (v / 16777216) % 256 == d
    }) by (bit_vector);
    assert(u32_le_bytes(u32_le_at(p, i)) =~= p.subrange(i, i + 4));
}

} // verus!
