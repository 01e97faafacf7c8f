use morphogen_render::cascade::tile_hash as trail_tile_hash;
use morphogen_render::granular::tile_hash as grain_tile_hash;
use morphogen_render::hashing::{
    band_noise_seed, hash01_numerator, lattice_corner_hash, lattice_hash1, lattice_hash2, mix64,
    splitmix, splitmix64, unit_noise_numerator, SPLITMIX_INCREMENT,
};

/// The reference splitmix64 finalizer, written out once more for comparison.
fn reference(x: u64) -> u64 {
    let mut z = x.wrapping_add(0x9e37_79b9_7f4a_7c15);
    z = (z ^ (z >> 30)).wrapping_mul(0xbf58_476d_1ce4_e5b9);
    z = (z ^ (z >> 27)).wrapping_mul(0x94d0_49bb_1331_11eb);
    z ^ (z >> 31)
}

#[test]
fn splitmix_matches_the_published_sequence() {
    // The first outputs of splitmix64 seeded with zero.
    let mut state = 0u64;
    assert_eq!(splitmix64(&mut state), 0xe220_a839_7b1d_cdaf);
    assert_eq!(state, SPLITMIX_INCREMENT);
    assert_eq!(splitmix64(&mut state), 0x6e78_9e6a_a1b9_65f4);
    assert_eq!(splitmix(0), 0xe220_a839_7b1d_cdaf);
    for x in [1u64, 42, u64::MAX, 0x1234_5678_9abc_def0] {
        assert_eq!(splitmix(x), reference(x));
        assert_eq!(mix64(x.wrapping_add(SPLITMIX_INCREMENT)), splitmix(x));
    }
}

#[test]
fn hash01_numerator_is_the_top_24_bits() {
    for (seed, a, b) in [(0u64, 0u64, 0u64), (7, 3, 9), (u64::MAX, 1, u64::MAX)] {
        let key = seed ^ a.wrapping_mul(0x100_0000_01b3) ^ b.wrapping_mul(0xd6e8_feb8_6659_fd93);
        let n = hash01_numerator(seed, a, b);
        assert_eq!(n as u64, reference(key) >> 40);
        let unit = n as f32 / (1u64 << 24) as f32;
        assert!((0.0..1.0).contains(&unit));
    }
}

#[test]
fn unit_noise_numerator_is_one_generator_step() {
    for state in [0u64, 5, u64::MAX] {
        assert_eq!(unit_noise_numerator(state) as u64, reference(state) >> 40);
    }
    assert_eq!(
        band_noise_seed(1, 2, 3),
        1 ^ (2u64 << 32) ^ 3u64.wrapping_mul(0x632b_e59b_d9b4_e019)
    );
}

#[test]
fn lattice_hashes_take_the_documented_bits() {
    let seed = 99u64;
    assert_eq!(lattice_hash1(seed, -3) as u64, reference(seed ^ ((-3i64) as u64).wrapping_mul(0x9e37_79b1)) & 0xffff);
    assert_eq!(
        lattice_hash2(seed, 4, -5) as u64,
        reference(seed ^ 4u64.wrapping_mul(0x9e37_79b1) ^ ((-5i64) as u64).wrapping_mul(0x85eb_ca6b)) & 0xffff
    );
    let mut h = seed.wrapping_add(0xdead_beef_cafe_1234);
    h = reference(h.wrapping_add(1));
    h = reference(h.wrapping_add(2u64 ^ 0x8675_309b_eefc_afe5));
    h = reference(h.wrapping_add(3u64 ^ 0x1234_5678_9abc_def0));
    assert_eq!(lattice_corner_hash(seed, 1, 2, 3), (h >> 32) as u32);
}

#[test]
fn tile_hashes_differ_by_family() {
    let trail = trail_tile_hash(5, 60, 120);
    assert_eq!(
        trail,
        reference(5 ^ (60u64.wrapping_mul(0x9e37_79b9_7f4a_7c15) ^ 120u64.wrapping_mul(0x6c62_272e_07bb_0142)))
    );
    // The grain-tile hash mixes without the generator increment.
    let key = 5u64 ^ 60u64.wrapping_mul(0x9e37_79b9_7f4a_7c15) ^ 120u64.wrapping_mul(0xbf58_476d_1ce4_e5b9);
    assert_eq!(grain_tile_hash(5, 60, 120), mix64(key));
    assert_eq!(grain_tile_hash(5, 60, 120), reference(key.wrapping_sub(0x9e37_79b9_7f4a_7c15)));
}
