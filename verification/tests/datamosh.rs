use morphogen_render::datamosh::{
    datamosh_algorithm, expand_block_vectors, is_datamosh_keyframe, magnitude_order,
    permute_block_vectors, remix_order, shuffle_order, validate_codec_engrave_settings,
    validate_scanline_smear_settings, CodecEngraveSettings, ScanlineSmearSettings,
    VectorRemixMode, DATAMOSH_BLOCK_ALGORITHM, DATAMOSH_BLOCK_REFRESH_ALGORITHM,
    DATAMOSH_BLOCK_RESIDUAL_ALGORITHM, DATAMOSH_BLOOM_ALGORITHM,
    DATAMOSH_VECTOR_REMIX_ALGORITHM,
};
use morphogen_render::error::RenderError;

fn b(v: f32) -> u32 {
    v.to_bits()
}

fn mv(x: f32) -> [u32; 2] {
    [x.to_bits(), 0.0f32.to_bits()]
}

/// The magnitude key of a block mean: the bits of its squared length, which
/// order like the (non-negative) squares themselves.
fn magnitude_key(v: [f32; 2]) -> u64 {
    let m = (v[0] as f64) * (v[0] as f64) + (v[1] as f64) * (v[1] as f64);
    m.to_bits()
}

#[test]
fn keyframe_predicate_matches_policy() {
    // interval 1: every frame keeps (passthrough).
    assert!(is_datamosh_keyframe(0, 1));
    assert!(is_datamosh_keyframe(3, 1));
    // interval 0: only frame zero keeps (full melt thereafter).
    assert!(is_datamosh_keyframe(0, 0));
    assert!(!is_datamosh_keyframe(1, 0));
    assert!(!is_datamosh_keyframe(7, 0));
    // interval 3: keep at 0, 3, 6; advect between.
    assert!(is_datamosh_keyframe(0, 3));
    assert!(!is_datamosh_keyframe(1, 3));
    assert!(!is_datamosh_keyframe(2, 3));
    assert!(is_datamosh_keyframe(3, 3));
    assert!(is_datamosh_keyframe(6, 3));
}

#[test]
fn algorithm_id_selects_block_only_for_coarse_blocks() {
    let none = VectorRemixMode::NoRemix;
    assert_eq!(datamosh_algorithm(0, b(0.0), b(0.0), none), DATAMOSH_BLOOM_ALGORITHM);
    assert_eq!(datamosh_algorithm(1, b(0.0), b(0.0), none), DATAMOSH_BLOOM_ALGORITHM);
    assert_eq!(datamosh_algorithm(2, b(0.0), b(0.0), none), DATAMOSH_BLOCK_ALGORITHM);
    assert_eq!(datamosh_algorithm(16, b(0.0), b(0.0), none), DATAMOSH_BLOCK_ALGORITHM);
}

#[test]
fn algorithm_id_selects_residual_only_when_active() {
    let none = VectorRemixMode::NoRemix;
    assert_eq!(datamosh_algorithm(16, b(0.5), b(0.0), none), DATAMOSH_BLOCK_RESIDUAL_ALGORITHM);
    assert_eq!(datamosh_algorithm(16, b(0.0), b(0.0), none), DATAMOSH_BLOCK_ALGORITHM);
    assert_eq!(datamosh_algorithm(1, b(0.5), b(0.0), none), DATAMOSH_BLOOM_ALGORITHM);
    assert_eq!(datamosh_algorithm(0, b(0.9), b(0.0), none), DATAMOSH_BLOOM_ALGORITHM);
}

#[test]
fn algorithm_id_selects_refresh_when_active() {
    let none = VectorRemixMode::NoRemix;
    assert_eq!(datamosh_algorithm(16, b(0.0), b(0.5), none), DATAMOSH_BLOCK_REFRESH_ALGORITHM);
    assert_eq!(datamosh_algorithm(16, b(0.5), b(0.5), none), DATAMOSH_BLOCK_REFRESH_ALGORITHM);
    assert_eq!(datamosh_algorithm(16, b(0.5), b(0.0), none), DATAMOSH_BLOCK_RESIDUAL_ALGORITHM);
    assert_eq!(datamosh_algorithm(16, b(0.0), b(0.0), none), DATAMOSH_BLOCK_ALGORITHM);
    assert_eq!(datamosh_algorithm(1, b(0.0), b(0.5), none), DATAMOSH_BLOOM_ALGORITHM);
}

#[test]
fn algorithm_id_selects_vector_remix_when_active() {
    assert_eq!(
        datamosh_algorithm(16, b(0.0), b(0.0), VectorRemixMode::Sort),
        DATAMOSH_VECTOR_REMIX_ALGORITHM
    );
    assert_eq!(
        datamosh_algorithm(16, b(0.5), b(0.5), VectorRemixMode::Shuffle),
        DATAMOSH_VECTOR_REMIX_ALGORITHM
    );
    assert_eq!(
        datamosh_algorithm(16, b(0.0), b(0.0), VectorRemixMode::NoRemix),
        DATAMOSH_BLOCK_ALGORITHM
    );
    assert_eq!(
        datamosh_algorithm(1, b(0.0), b(0.0), VectorRemixMode::Sort),
        DATAMOSH_BLOOM_ALGORITHM
    );
}

#[test]
fn algorithm_id_treats_negative_zero_and_nan_knobs_as_inactive() {
    let none = VectorRemixMode::NoRemix;
    assert_eq!(datamosh_algorithm(16, b(-0.0), b(-0.5), none), DATAMOSH_BLOCK_ALGORITHM);
    assert_eq!(datamosh_algorithm(16, b(f32::NAN), b(f32::NAN), none), DATAMOSH_BLOCK_ALGORITHM);
    assert_eq!(
        datamosh_algorithm(16, b(f32::INFINITY), b(0.0), none),
        DATAMOSH_BLOCK_RESIDUAL_ALGORITHM
    );
    assert_eq!(
        datamosh_algorithm(16, b(0.0), b(f32::MIN_POSITIVE / 2.0), none),
        DATAMOSH_BLOCK_REFRESH_ALGORITHM
    );
}

#[test]
fn remix_sort_pools_strongest_motion_into_the_first_block() {
    // A 4x1 flow x = 0,1,2,3 in blocks of 2: block means 0.5 and 2.5.
    let means = vec![mv(0.5), mv(2.5)];
    let keys = vec![magnitude_key([0.5, 0.0]), magnitude_key([2.5, 0.0])];
    let order = magnitude_order(&keys);
    assert_eq!(order, vec![1, 0]);
    let remixed = permute_block_vectors(&means, &order);
    let sorted = expand_block_vectors(4, 1, 2, &remixed);
    assert_eq!(sorted.vector(0, 0).unwrap(), mv(2.5));
    assert_eq!(sorted.vector(1, 0).unwrap(), mv(2.5));
    assert_eq!(sorted.vector(2, 0).unwrap(), mv(0.5));
    assert_eq!(sorted.vector(3, 0).unwrap(), mv(0.5));
}

#[test]
fn remix_shuffle_is_a_deterministic_permutation_of_block_mvs() {
    // An 8x1 flow in blocks of 2: means 0.5, 2.5, 4.5, 6.5.
    let means = vec![mv(0.5), mv(2.5), mv(4.5), mv(6.5)];
    let expand = |seed: u64| {
        let order = shuffle_order(means.len(), seed);
        expand_block_vectors(8, 1, 2, &permute_block_vectors(&means, &order))
    };
    let a = expand(42);
    let b2 = expand(42);
    assert_eq!(a, b2);
    let mut got: Vec<f32> =
        (0..4).map(|blk| f32::from_bits(a.vector(blk * 2, 0).unwrap()[0])).collect();
    got.sort_by(|x, y| x.total_cmp(y));
    assert_eq!(got, vec![0.5, 2.5, 4.5, 6.5]);
    let c = expand(7);
    assert_ne!(a, c);
}

#[test]
fn magnitude_order_breaks_ties_in_raster_order() {
    let keys = vec![5u64, 9, 5, 9, 1];
    assert_eq!(magnitude_order(&keys), vec![1, 3, 0, 2, 4]);
    assert_eq!(magnitude_order(&Vec::new()), Vec::<usize>::new());
}

#[test]
fn shuffle_order_is_an_arrangement_for_many_sizes_and_seeds() {
    for n in 0..40usize {
        for seed in [0u64, 1, 42, u64::MAX] {
            let order = shuffle_order(n, seed);
            let mut seen = vec![false; n];
            assert_eq!(order.len(), n);
            for &k in &order {
                assert!(k < n && !seen[k]);
                seen[k] = true;
            }
        }
    }
    assert_eq!(shuffle_order(1, 9), vec![0]);
}

#[test]
fn shuffle_order_pins_the_first_swap() {
    // n = 2: one swap at i = 1 with j = splitmix(seed) % 2.
    let seed = 3u64;
    let mut z = seed.wrapping_add(0x9e37_79b9_7f4a_7c15);
    z = (z ^ (z >> 30)).wrapping_mul(0xbf58_476d_1ce4_e5b9);
    z = (z ^ (z >> 27)).wrapping_mul(0x94d0_49bb_1331_11eb);
    let draw = z ^ (z >> 31);
    let expected = if draw % 2 == 0 { vec![1, 0] } else { vec![0, 1] };
    assert_eq!(shuffle_order(2, seed), expected);
}

#[test]
fn expand_block_vectors_covers_edge_blocks() {
    // 3x3 field in blocks of 2: a 2x2 grid of blocks, the edge ones partial.
    let grid = vec![mv(1.0), mv(2.0), mv(3.0), mv(4.0)];
    let f = expand_block_vectors(3, 3, 2, &grid);
    assert_eq!(f.vector(0, 0).unwrap(), mv(1.0));
    assert_eq!(f.vector(2, 0).unwrap(), mv(2.0));
    assert_eq!(f.vector(1, 2).unwrap(), mv(3.0));
    assert_eq!(f.vector(2, 2).unwrap(), mv(4.0));
    assert_eq!(f.vectors.len(), 9);
}

fn smear() -> ScanlineSmearSettings {
    ScanlineSmearSettings {
        line_height: 2,
        max_shift: b(96.0),
        motion_gain: b(18.0),
        wave_amplitude: b(10.0),
        wave_frequency: b(0.37),
        smear_mix: b(0.92),
        structure_protect: b(0.72),
        chroma_burst_rate: b(0.018),
        chroma_burst_size: 18,
        seed: 0,
    }
}

fn engrave() -> CodecEngraveSettings {
    CodecEngraveSettings {
        block_size: 4,
        edge_gain: b(10.0),
        hatch_strength: b(0.86),
        hatch_frequency: b(1.06),
        chroma_offset: b(2.8),
        block_step: b(0.3),
        foreground_boost: b(0.12),
        micro_contrast: b(1.1),
        seed: 0,
    }
}

#[test]
fn scanline_smear_settings_validation() {
    assert!(validate_scanline_smear_settings(smear()).is_ok());
    let e = validate_scanline_smear_settings(ScanlineSmearSettings { line_height: 0, ..smear() });
    assert!(matches!(e, Err(RenderError::InvalidDatamoshSettings(_))));
    assert!(validate_scanline_smear_settings(ScanlineSmearSettings {
        chroma_burst_size: 0,
        ..smear()
    })
    .is_err());
    assert!(validate_scanline_smear_settings(ScanlineSmearSettings {
        max_shift: b(-1.0),
        ..smear()
    })
    .is_err());
    assert!(validate_scanline_smear_settings(ScanlineSmearSettings {
        wave_frequency: b(f32::NAN),
        ..smear()
    })
    .is_err());
    assert!(validate_scanline_smear_settings(ScanlineSmearSettings {
        smear_mix: b(1.0001),
        ..smear()
    })
    .is_err());
    assert!(validate_scanline_smear_settings(ScanlineSmearSettings {
        smear_mix: b(1.0),
        structure_protect: b(-0.0),
        ..smear()
    })
    .is_ok());
    assert!(validate_scanline_smear_settings(ScanlineSmearSettings {
        chroma_burst_rate: b(2.0),
        ..smear()
    })
    .is_err());
}

#[test]
fn codec_engrave_settings_validation() {
    assert!(validate_codec_engrave_settings(engrave()).is_ok());
    assert!(validate_codec_engrave_settings(CodecEngraveSettings { block_size: 0, ..engrave() })
        .is_err());
    assert!(validate_codec_engrave_settings(CodecEngraveSettings {
        hatch_strength: b(1.5),
        ..engrave()
    })
    .is_err());
    assert!(validate_codec_engrave_settings(CodecEngraveSettings {
        micro_contrast: b(f32::INFINITY),
        ..engrave()
    })
    .is_err());
    assert!(validate_codec_engrave_settings(CodecEngraveSettings {
        block_step: b(1.0),
        ..engrave()
    })
    .is_ok());
}

#[test]
fn remix_mode_defaults_to_no_remix() {
    assert_eq!(VectorRemixMode::default(), VectorRemixMode::NoRemix);
}

#[test]
fn remix_order_follows_the_mode() {
    let keys = vec![5u64, 9, 5, 1];
    assert_eq!(remix_order(VectorRemixMode::NoRemix, &keys, 3), vec![0, 1, 2, 3]);
    assert_eq!(remix_order(VectorRemixMode::Sort, &keys, 3), vec![1, 0, 2, 3]);
    assert_eq!(remix_order(VectorRemixMode::Shuffle, &keys, 3), shuffle_order(4, 3));
    assert!(remix_order(VectorRemixMode::Sort, &Vec::new(), 0).is_empty());
}
