use morphogen_render::grain_cache::{
    grain_color_descriptor_cache, grain_count, grain_descriptor_cache, grain_pool_descriptor_cache,
    grain_selection_cache, validate_color_descriptor_cache, validate_descriptor_cache,
    validate_pool_descriptor_cache, validate_selection_cache, GranularMosaicColorDescriptorCache,
    GranularMosaicPoolDescriptorCache, GranularMosaicSelectionCache,
};
use morphogen_render::granular::{
    GrainColorDescriptor, GrainDescriptor, GrainPool, GrainSelection, PooledGrainDescriptor,
    GRANULAR_MOSAIC_ALGORITHM, MULTIMODAL_GRAIN_ALGORITHM, POOLED_GRAIN_ALGORITHM,
};

fn b(v: f32) -> u32 {
    v.to_bits()
}

fn color(c: [f32; 3]) -> [u32; 3] {
    [b(c[0]), b(c[1]), b(c[2])]
}

#[test]
fn caches_round_trip_valid_descriptors_and_selection() {
    let descriptors = vec![
        GrainDescriptor { index: 0, origin_x: 0, origin_y: 0, mean_luminance: b(0.2) },
        GrainDescriptor { index: 1, origin_x: 2, origin_y: 0, mean_luminance: b(0.8) },
    ];
    let selection = GrainSelection { columns: 2, rows: 1, indices: vec![1, 0] };
    let descriptors_written =
        grain_descriptor_cache(4, 2, 2, "fnv1a64:carrier".to_string(), &descriptors)
            .expect("write descriptors");
    let selection_written = grain_selection_cache(
        GRANULAR_MOSAIC_ALGORITHM,
        "fnv1a64:modulator".to_string(),
        "fnv1a64:carrier".to_string(),
        4,
        2,
        2,
        b(0.25),
        7,
        &selection,
    )
    .expect("write selection");
    assert!(validate_descriptor_cache(&descriptors_written).is_ok());
    assert!(validate_selection_cache(&selection_written).is_ok());
    assert_eq!(descriptors_written.descriptors, descriptors);
    assert_eq!(selection_written.selection, selection);
    assert_eq!(selection_written.seed, 7);
}

#[test]
fn color_descriptor_cache_round_trips_and_tags_the_multimodal_algorithm() {
    let descriptors = vec![
        GrainColorDescriptor { index: 0, origin_x: 0, origin_y: 0, mean_color: color([0.2, 0.4, 0.6]) },
        GrainColorDescriptor { index: 1, origin_x: 2, origin_y: 0, mean_color: color([0.7, 0.1, 0.3]) },
    ];
    let written = grain_color_descriptor_cache(4, 2, 2, "fnv1a64:carrier".to_string(), &descriptors)
        .expect("write color descriptors");
    assert_eq!(written.algorithm, MULTIMODAL_GRAIN_ALGORITHM);
    assert!(validate_color_descriptor_cache(&written).is_ok());
    assert_eq!(written.descriptors, descriptors);
}

#[test]
fn color_descriptor_cache_rejects_a_luma_algorithm_tag() {
    let cache = GranularMosaicColorDescriptorCache {
        version: 1,
        kind: "granular_mosaic_color_descriptors".to_string(),
        algorithm: GRANULAR_MOSAIC_ALGORITHM.to_string(),
        carrier_width: 2,
        carrier_height: 1,
        grain_size: 1,
        carrier_fingerprint: "fnv1a64:carrier".to_string(),
        descriptors: vec![
            GrainColorDescriptor { index: 0, origin_x: 0, origin_y: 0, mean_color: color([0.1, 0.2, 0.3]) },
            GrainColorDescriptor { index: 1, origin_x: 1, origin_y: 0, mean_color: color([0.4, 0.5, 0.6]) },
        ],
    };
    assert!(validate_color_descriptor_cache(&cache).is_err());
    let retagged = GranularMosaicColorDescriptorCache {
        algorithm: MULTIMODAL_GRAIN_ALGORITHM.to_string(),
        ..cache
    };
    assert!(validate_color_descriptor_cache(&retagged).is_ok());
}

fn grain(global: u32, frame: u32, x: u32, c: [f32; 3], audio: f32) -> PooledGrainDescriptor {
    PooledGrainDescriptor {
        global_index: global,
        frame_index: frame,
        origin_x: x,
        origin_y: 0,
        mean_color: color(c),
        texture: [b(0.0), b(0.0)],
        audio: vec![b(audio)],
    }
}

/// The pool of two 2x1 frames with one grain per pixel and one audio value per frame.
fn two_frame_pool() -> GrainPool {
    GrainPool {
        columns: 2,
        rows: 1,
        grain_size: 1,
        frame_width: 2,
        frame_height: 1,
        audio_dims: 1,
        grains: vec![
            grain(0, 0, 0, [0.1, 0.2, 0.3], 0.25),
            grain(1, 0, 1, [0.4, 0.5, 0.6], 0.25),
            grain(2, 1, 0, [0.7, 0.8, 0.9], 0.75),
            grain(3, 1, 1, [0.0, 0.1, 0.2], 0.75),
        ],
    }
}

#[test]
fn pool_descriptor_cache_round_trips_and_tags_the_pooled_algorithm() {
    let pool = two_frame_pool();
    let written = grain_pool_descriptor_cache(2, "fnv1a64:carrier-set".to_string(), &pool)
        .expect("write pool cache");
    assert_eq!(written.algorithm, POOLED_GRAIN_ALGORITHM);
    assert_eq!(written.audio_dims, 1);
    assert_eq!(written.frame_count, 2);
    assert_eq!(written.pool, pool);
    assert!(validate_pool_descriptor_cache(&written).is_ok());
}

#[test]
fn pool_descriptor_cache_rejects_a_mismatched_grain_count() {
    // The header says 2 frames over a 2x1 grid (4 grains) but only 2 grains exist.
    let mut pool = two_frame_pool();
    pool.grains.truncate(2);
    let cache = GranularMosaicPoolDescriptorCache {
        version: 1,
        kind: "granular_mosaic_pool_descriptors".to_string(),
        algorithm: POOLED_GRAIN_ALGORITHM.to_string(),
        grain_size: 1,
        frame_width: 2,
        frame_height: 1,
        frame_count: 2,
        audio_dims: 1,
        carrier_set_fingerprint: "fnv1a64:carrier-set".to_string(),
        pool,
    };
    assert!(validate_pool_descriptor_cache(&cache).is_err());
}

#[test]
fn selection_cache_rejects_invalid_referenced_grain() {
    let cache = GranularMosaicSelectionCache {
        version: 1,
        kind: "granular_mosaic_selection".to_string(),
        algorithm: GRANULAR_MOSAIC_ALGORITHM.to_string(),
        modulator_fingerprint: "fnv1a64:modulator".to_string(),
        carrier_fingerprint: "fnv1a64:carrier".to_string(),
        carrier_width: 2,
        carrier_height: 1,
        grain_size: 1,
        variation: b(0.0),
        seed: 0,
        selection: GrainSelection { columns: 2, rows: 1, indices: vec![0, 2] },
    };
    assert!(validate_selection_cache(&cache).is_err());
    let fixed = GranularMosaicSelectionCache {
        selection: GrainSelection { columns: 2, rows: 1, indices: vec![0, 1] },
        ..cache
    };
    assert!(validate_selection_cache(&fixed).is_ok());
}

#[test]
fn grain_count_covers_partial_edge_tiles() {
    assert_eq!(grain_count(5, 3, 2).unwrap(), 6);
    assert_eq!(grain_count(4, 2, 2).unwrap(), 2);
}

#[test]
fn caches_refuse_empty_fingerprints_and_variation_outside_the_unit_interval() {
    let descriptors = vec![GrainDescriptor { index: 0, origin_x: 0, origin_y: 0, mean_luminance: b(0.5) }];
    assert!(grain_descriptor_cache(1, 1, 1, String::new(), &descriptors).is_err());
    let selection = GrainSelection { columns: 1, rows: 1, indices: vec![0] };
    for variation in [b(1.5), b(-0.5), b(f32::NAN)] {
        assert!(grain_selection_cache(
            GRANULAR_MOSAIC_ALGORITHM,
            "m".to_string(),
            "c".to_string(),
            1,
            1,
            1,
            variation,
            0,
            &selection
        )
        .is_err());
    }
}
