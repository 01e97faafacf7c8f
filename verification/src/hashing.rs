//! Deterministic integer hashes that seed every procedural render.
//!
//! The renders turn these integers into unit-interval floats by a single
//! division; the integer that is divided is computed here.

use vstd::prelude::*;

verus! {

/// The increment of the splitmix64 generator (the 64-bit golden ratio).
pub const SPLITMIX_INCREMENT: u64 = 0x9e37_79b9_7f4a_7c15;

/// The splitmix64 output mix applied to an already-incremented state `z`.
pub open spec fn mix64_spec(z: u64) -> u64 {
    let b = (z ^ (z >> 30u64)).wrapping_mul(0xbf58_476d_1ce4_e5b9);
    let c = (b ^ (b >> 27u64)).wrapping_mul(0x94d0_49bb_1331_11eb);
    c ^ (c >> 31u64)
}

/// The splitmix64 finalizer applied to `x`: increment, then mix.
pub open spec fn splitmix_spec(x: u64) -> u64 {
    mix64_spec(x.wrapping_add(SPLITMIX_INCREMENT))
}

/// The splitmix64 output mix of `z`.
pub fn mix64(z: u64) -> (r: u64)
    ensures
        r == mix64_spec(z),
{
    let b = (z ^ (z >> 30u64)).wrapping_mul(0xbf58_476d_1ce4_e5b9);
    let c = (b ^ (b >> 27u64)).wrapping_mul(0x94d0_49bb_1331_11eb);
    c ^ (c >> 31u64)
}

/// splitmix64 finalizer: a deterministic, well-distributed integer hash.
pub fn splitmix(x: u64) -> (r: u64)
    ensures
        r == splitmix_spec(x),
{
    mix64(x.wrapping_add(SPLITMIX_INCREMENT))
}

/// One step of the splitmix64 generator: the state advances by the increment
/// and the output is the mix of the new state.
pub fn splitmix64(state: &mut u64) -> (r: u64)
    ensures
        *final(state) == (*old(state)).wrapping_add(SPLITMIX_INCREMENT),
        r == mix64_spec(*final(state)),
        r == splitmix_spec(*old(state)),
{
    *state = state.wrapping_add(SPLITMIX_INCREMENT);
    mix64(*state)
}

/// The top 24 bits of a 64-bit hash: the numerator of a value in `[0, 1)`
/// over the denominator `2^24`.
pub open spec fn top24(h: u64) -> u32 {
    (h >> 40u64) as u32
}

fn top24_of(h: u64) -> (r: u32)
    ensures
        r == top24(h),
        r < 0x100_0000,
{
    assert((h >> 40u64) < 0x100_0000u64) by (bit_vector);
    (h >> 40u64) as u32
}

/// The key that the `(seed, a, b)` hashes of the ownership, dispersion and
/// mosaic fields mix.
pub open spec fn pair_key(seed: u64, a: u64, b: u64) -> u64 {
    seed ^ a.wrapping_mul(0x100_0000_01b3) ^ b.wrapping_mul(0xd6e8_feb8_6659_fd93)
}

/// The hash of `(seed, a, b)` as a 24-bit numerator: the unit value it stands
/// for is `r / 2^24`, in `[0, 1)`.
pub fn hash01_numerator(seed: u64, a: u64, b: u64) -> (r: u32)
    ensures
        r == top24(splitmix_spec(pair_key(seed, a, b))),
        r < 0x100_0000,
{
    let key = seed ^ a.wrapping_mul(0x100_0000_01b3) ^ b.wrapping_mul(0xd6e8_feb8_6659_fd93);
    top24_of(splitmix(key))
}

/// The 24-bit noise numerator drawn from a generator `state`: one splitmix64
/// step, top 24 bits (the unit value is `r / 2^24`).
pub fn unit_noise_numerator(state: u64) -> (r: u32)
    ensures
        r == top24(splitmix_spec(state)),
        r < 0x100_0000,
{
    let mut s = state;
    let value = splitmix64(&mut s);
    top24_of(value)
}

/// The generator state of the scanline noise for `(seed, frame_index, band)`.
pub open spec fn band_noise_state(seed: u64, frame_index: u32, band: u32) -> u64 {
    seed ^ ((frame_index as u64) << 32u64) ^ (band as u64).wrapping_mul(0x632b_e59b_d9b4_e019)
}

/// The generator state of the scanline noise for `(seed, frame_index, band)`.
pub fn band_noise_seed(seed: u64, frame_index: u32, band: u32) -> (r: u64)
    ensures
        r == band_noise_state(seed, frame_index, band),
{
    seed ^ ((frame_index as u64) << 32u64) ^ (band as u64).wrapping_mul(0x632b_e59b_d9b4_e019)
}

/// The low 16 bits of the hash of a 1-D lattice coordinate: the unit value
/// it stands for is `r / 65535`, in `[0, 1]`.
pub fn lattice_hash1(seed: u64, i: i64) -> (r: u16)
    ensures
        r == (splitmix_spec(seed ^ (i as u64).wrapping_mul(0x9e37_79b1)) & 0xffff) as u16,
{
    let h = splitmix(seed ^ (i as u64).wrapping_mul(0x9e37_79b1));
    (h & 0xffff) as u16
}

/// The low 16 bits of the hash of a 2-D lattice coordinate: the unit value
/// it stands for is `r / 65535`, in `[0, 1]`.
pub fn lattice_hash2(seed: u64, ix: i64, iy: i64) -> (r: u16)
    ensures
        r == (splitmix_spec(
            seed ^ (ix as u64).wrapping_mul(0x9e37_79b1) ^ (iy as u64).wrapping_mul(0x85eb_ca6b),
        ) & 0xffff) as u16,
{
    let h = splitmix(
        seed ^ (ix as u64).wrapping_mul(0x9e37_79b1) ^ (iy as u64).wrapping_mul(0x85eb_ca6b),
    );
    (h & 0xffff) as u16
}

/// The chained hash of a 3-D lattice corner.
pub open spec fn corner_hash_spec(seed: u64, ix: i64, iy: i64, iz: i64) -> u64 {
    let h0 = seed.wrapping_add(0xdead_beef_cafe_1234u64);
    let h1 = splitmix_spec(h0.wrapping_add(ix as u64));
    let h2 = splitmix_spec(h1.wrapping_add((iy as u64) ^ 0x8675_309b_eefc_afe5u64));
    splitmix_spec(h2.wrapping_add((iz as u64) ^ 0x1234_5678_9abc_def0u64))
}

/// The high 32 bits of the hash of a 3-D lattice corner: the unit value it
/// stands for is `r / (2^32 - 1)`, in `[0, 1]`.
pub fn lattice_corner_hash(seed: u64, ix: i64, iy: i64, iz: i64) -> (r: u32)
    ensures
        r == (corner_hash_spec(seed, ix, iy, iz) >> 32u64) as u32,
{
    let mut h = seed.wrapping_add(0xdead_beef_cafe_1234u64);
    h = splitmix(h.wrapping_add(ix as u64));
    h = splitmix(h.wrapping_add((iy as u64) ^ 0x8675_309b_eefc_afe5u64));
    h = splitmix(h.wrapping_add((iz as u64) ^ 0x1234_5678_9abc_def0u64));
    assert((h >> 32u64) <= 0xffff_ffffu64) by (bit_vector);
    (h >> 32u64) as u32
}

} // verus!
