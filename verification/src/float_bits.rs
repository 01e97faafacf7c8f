//! Predicates on the IEEE-754 bit patterns that stand for `f32` values in the
//! library's data.

use vstd::prelude::*;

verus! {

/// The `f32` with bit pattern `bits` is finite: its exponent field is not all ones.
pub open spec fn f32_bits_finite(bits: u32) -> bool {
    (bits & 0x7f80_0000u32) != 0x7f80_0000u32
}

/// The `f32` with bit pattern `bits` is finite and lies in `[0, 1]`: the
/// patterns of `+0.0` through `1.0`, and `-0.0`.
pub open spec fn f32_bits_in_unit_interval(bits: u32) -> bool {
    bits <= 0x3f80_0000u32 || bits == 0x8000_0000u32
}

/// The `f32` with bit pattern `bits` compares greater than `0.0`: the
/// patterns of the positive subnormals, normals and `+inf` (NaN compares
/// false).
pub open spec fn f32_bits_positive(bits: u32) -> bool {
    0 < bits <= 0x7f80_0000u32
}

/// The `f32` with bit pattern `bits` compares less than `0.0`: the patterns
/// of the negative subnormals, normals and `-inf` (`-0.0` and NaN compare
/// false).
pub open spec fn f32_bits_negative(bits: u32) -> bool {
    0x8000_0000u32 < bits <= 0xff80_0000u32
}

/// The `f32` with bit pattern `bits` compares less than or equal to `0.0`.
pub open spec fn f32_bits_nonpositive(bits: u32) -> bool {
    bits == 0 || (0x8000_0000u32 <= bits <= 0xff80_0000u32)
}

/// The `f32` with bit pattern `bits` compares greater than `1.0`.
pub open spec fn f32_bits_above_one(bits: u32) -> bool {
    0x3f80_0000u32 < bits <= 0x7f80_0000u32
}

/// The `f32` with bit pattern `bits` compares equal to `0.0`: `+0.0` or `-0.0`.
pub open spec fn f32_bits_zero(bits: u32) -> bool {
    bits == 0 || bits == 0x8000_0000u32
}

/// Whether the `f32` with bit pattern `bits` compares equal to `0.0`.
pub fn is_zero_bits(bits: u32) -> (r: bool)
    ensures
        r == f32_bits_zero(bits),
{
    bits == 0 || bits == 0x8000_0000u32
}

/// Whether the `f32` with bit pattern `bits` compares less than `0.0`.
pub fn is_negative_bits(bits: u32) -> (r: bool)
    ensures
        r == f32_bits_negative(bits),
{
    0x8000_0000u32 < bits && bits <= 0xff80_0000u32
}

/// Whether the `f32` with bit pattern `bits` compares less than or equal to `0.0`.
pub fn is_nonpositive_bits(bits: u32) -> (r: bool)
    ensures
        r == f32_bits_nonpositive(bits),
{
    bits == 0 || (0x8000_0000u32 <= bits && bits <= 0xff80_0000u32)
}

/// Whether the `f32` with bit pattern `bits` compares greater than `1.0`.
pub fn is_above_one_bits(bits: u32) -> (r: bool)
    ensures
        r == f32_bits_above_one(bits),
{
    0x3f80_0000u32 < bits && bits <= 0x7f80_0000u32
}

/// Whether the `f32` with bit pattern `bits` compares greater than `0.0`.
pub fn is_positive_bits(bits: u32) -> (r: bool)
    ensures
        r == f32_bits_positive(bits),
{
    0 < bits && bits <= 0x7f80_0000u32
}

/// Whether the `f32` with bit pattern `bits` is finite.
pub fn is_finite_bits(bits: u32) -> (r: bool)
    ensures
        r == f32_bits_finite(bits),
{
    (bits & 0x7f80_0000u32) != 0x7f80_0000u32
}

/// Whether the `f32` with bit pattern `bits` is finite and lies in `[0, 1]`.
pub fn is_unit_interval_bits(bits: u32) -> (r: bool)
    ensures
        r == f32_bits_in_unit_interval(bits),
{
    bits <= 0x3f80_0000u32 || bits == 0x8000_0000u32
}

/// Every value in `values` is finite.
pub fn all_finite_bits(values: &[u32]) -> (r: bool)
    ensures
        r == (forall|k: int| 0 <= k < values@.len() ==> f32_bits_finite(#[trigger] values@[k])),
{
    let mut i: usize = 0;
    while i < values.len()
        invariant
            i <= values@.len(),
            forall|k: int| 0 <= k < i ==> f32_bits_finite(#[trigger] values@[k]),
        decreases values.len() - i,
    {
        if !is_finite_bits(values[i]) {
            return false;
        }
        i = i + 1;
    }
    true
}

} // verus!
