//! Little-endian integer layout shared by the binary state and cache formats.

use vstd::prelude::*;

verus! {

/// Byte `j` (0 = least significant) of the little-endian layout of `v`.
pub open spec fn le_u32_byte(v: u32, j: int) -> u8 {
    if j == 0 {
        (v & 0xff) as u8
    } else if j == 1 {
        ((v >> 8u32) & 0xff) as u8
    } else if j == 2 {
        ((v >> 16u32) & 0xff) as u8
    } else {
        ((v >> 24u32) & 0xff) as u8
    }
}

/// The four little-endian bytes of `v`.
pub open spec fn le_u32_bytes(v: u32) -> Seq<u8> {
    seq![le_u32_byte(v, 0), le_u32_byte(v, 1), le_u32_byte(v, 2), le_u32_byte(v, 3)]
}

/// The `u32` whose little-endian bytes are `b0 b1 b2 b3`.
pub open spec fn u32_from_le(b0: u8, b1: u8, b2: u8, b3: u8) -> u32 {
    (b0 as u32) | ((b1 as u32) << 8u32) | ((b2 as u32) << 16u32) | ((b3 as u32) << 24u32)
}

/// The `u32` stored little-endian at `bytes[offset..offset + 4]`.
pub open spec fn u32_at(bytes: Seq<u8>, offset: int) -> u32 {
    u32_from_le(bytes[offset], bytes[offset + 1], bytes[offset + 2], bytes[offset + 3])
}

/// The eight little-endian bytes of `v`.
pub open spec fn le_u64_bytes(v: u64) -> Seq<u8> {
    le_u32_bytes((v & 0xffff_ffff) as u32) + le_u32_bytes((v >> 32u64) as u32)
}

/// The `u64` stored little-endian at `bytes[offset..offset + 8]`.
pub open spec fn u64_at(bytes: Seq<u8>, offset: int) -> u64 {
    (u32_at(bytes, offset) as u64) | ((u32_at(bytes, offset + 4) as u64) << 32u64)
}

pub proof fn lemma_u32_le_round_trip(v: u32)
    ensures
        u32_from_le(le_u32_byte(v, 0), le_u32_byte(v, 1), le_u32_byte(v, 2), le_u32_byte(v, 3))
            == v,
{
    assert(((v & 0xff) as u8 as u32) | ((((v >> 8u32) & 0xff) as u8 as u32) << 8u32) | ((((v
        >> 16u32) & 0xff) as u8 as u32) << 16u32) | ((((v >> 24u32) & 0xff) as u8 as u32)
        << 24u32) == v) by (bit_vector);
}

pub proof fn lemma_u32_at_le_bytes(bytes: Seq<u8>, offset: int, v: u32)
    requires
        0 <= offset,
        offset + 4 <= bytes.len(),
        bytes.subrange(offset, offset + 4) == le_u32_bytes(v),
    ensures
        u32_at(bytes, offset) == v,
{
    assert(bytes[offset] == bytes.subrange(offset, offset + 4)[0]);
    assert(bytes[offset + 1] == bytes.subrange(offset, offset + 4)[1]);
    assert(bytes[offset + 2] == bytes.subrange(offset, offset + 4)[2]);
    assert(bytes[offset + 3] == bytes.subrange(offset, offset + 4)[3]);
    lemma_u32_le_round_trip(v);
}

pub proof fn lemma_u64_at_le_bytes(bytes: Seq<u8>, offset: int, v: u64)
    requires
        0 <= offset,
        offset + 8 <= bytes.len(),
        bytes.subrange(offset, offset + 8) == le_u64_bytes(v),
    ensures
        u64_at(bytes, offset) == v,
{
    let lo = (v & 0xffff_ffff) as u32;
    let hi = (v >> 32u64) as u32;
    assert(bytes.subrange(offset, offset + 4) =~= bytes.subrange(offset, offset + 8).subrange(
        0,
        4,
    ));
    assert(bytes.subrange(offset + 4, offset + 8) =~= bytes.subrange(offset, offset + 8).subrange(
        4,
        8,
    ));
    assert(le_u64_bytes(v).subrange(0, 4) =~= le_u32_bytes(lo));
    assert(le_u64_bytes(v).subrange(4, 8) =~= le_u32_bytes(hi));
    lemma_u32_at_le_bytes(bytes, offset, lo);
    lemma_u32_at_le_bytes(bytes, offset + 4, hi);
    assert(((lo as u64) | ((hi as u64) << 32u64)) == v) by (bit_vector)
        requires
            lo == (v & 0xffff_ffff) as u32,
            hi == (v >> 32u64) as u32,
    ;
}

/// Appends the four little-endian bytes of `v`.
pub fn push_le_u32(out: &mut Vec<u8>, v: u32)
    ensures
        final(out)@ == old(out)@ + le_u32_bytes(v),
{
    out.push((v & 0xff) as u8);
    out.push(((v >> 8u32) & 0xff) as u8);
    out.push(((v >> 16u32) & 0xff) as u8);
    out.push(((v >> 24u32) & 0xff) as u8);
    assert(out@ =~= old(out)@ + le_u32_bytes(v));
}

/// Appends the eight little-endian bytes of `v`.
pub fn push_le_u64(out: &mut Vec<u8>, v: u64)
    ensures
        final(out)@ == old(out)@ + le_u64_bytes(v),
{
    push_le_u32(out, (v & 0xffff_ffff) as u32);
    push_le_u32(out, (v >> 32u64) as u32);
    assert(out@ =~= old(out)@ + le_u64_bytes(v));
}

/// The `u32` stored little-endian at `bytes[offset..offset + 4]`.
pub fn le_u32_at(bytes: &[u8], offset: usize) -> (r: u32)
    requires
        offset + 4 <= bytes@.len(),
    ensures
        r == u32_at(bytes@, offset as int),
{
    (bytes[offset] as u32) | ((bytes[offset + 1] as u32) << 8u32) | ((bytes[offset + 2] as u32)
        << 16u32) | ((bytes[offset + 3] as u32) << 24u32)
}

/// The `u64` stored little-endian at `bytes[offset..offset + 8]`.
pub fn le_u64_at(bytes: &[u8], offset: usize) -> (r: u64)
    requires
        offset + 8 <= bytes.len(),
    ensures
        r == u64_at(bytes@, offset as int),
{
    let lo = le_u32_at(bytes, offset);
    let hi = le_u32_at(bytes, offset + 4);
    (lo as u64) | ((hi as u64) << 32u64)
}

} // verus!
