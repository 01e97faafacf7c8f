use morphogen_render::error::RenderError;
use morphogen_render::granular::{
    assemble_grain_pool, check_pool_inputs, pick_pool_grain, check_pool_query, div_ceil, eligible_grain_range, nearest_id, previous_pick, seeded_alternate,
    tile_hash, validate_color_descriptors, validate_descriptors, validate_pool, validate_selection,
    wide_mul, GrainColorDescriptor, GrainDescriptor, GrainPool, GrainSelection,
    GranularMosaicSettings, PoolSelectionWindow, PooledGrainDescriptor,
};

fn b(v: f32) -> u32 {
    v.to_bits()
}

fn luma_grid(width: u32, height: u32, grain: u32) -> Vec<GrainDescriptor> {
    let cols = div_ceil(width, grain);
    let rows = div_ceil(height, grain);
    (0..cols * rows)
        .map(|i| GrainDescriptor {
            index: i,
            origin_x: (i % cols) * grain,
            origin_y: (i / cols) * grain,
            mean_luminance: b(0.5),
        })
        .collect()
}

/// A pool of `frames` frames of a `w` x `h` frame cut in 1-pixel grains, one audio value.
fn pool(w: u32, h: u32, frames: u32) -> GrainPool {
    let mut grains = Vec::new();
    for f in 0..frames {
        for y in 0..h {
            for x in 0..w {
                grains.push(PooledGrainDescriptor {
                    global_index: grains.len() as u32,
                    frame_index: f,
                    origin_x: x,
                    origin_y: y,
                    mean_color: [b(0.1), b(0.2), b(0.3)],
                    texture: [b(0.0), b(0.0)],
                    audio: vec![b(f as f32)],
                });
            }
        }
    }
    GrainPool { columns: w, rows: h, grain_size: 1, frame_width: w, frame_height: h, audio_dims: 1, grains }
}

fn settings() -> GranularMosaicSettings {
    GranularMosaicSettings { grain_size: 1, rearrangement: b(1.0), variation: b(0.0), seed: 0 }
}

#[test]
fn descriptors_must_match_the_grain_grid() {
    let d = luma_grid(5, 3, 2);
    assert_eq!(d.len(), 6);
    assert!(validate_descriptors(&d, 5, 3, 2).is_ok());
    assert!(validate_descriptors(&d[..5], 5, 3, 2).is_err());
    let mut moved = d.clone();
    moved[1].origin_x = 3;
    assert!(validate_descriptors(&moved, 5, 3, 2).is_err());
    let mut nan = d.clone();
    nan[0].mean_luminance = b(f32::NAN);
    assert!(matches!(validate_descriptors(&nan, 5, 3, 2), Err(RenderError::InvalidGranularMosaicSettings(_))));
    let colors: Vec<GrainColorDescriptor> = d
        .iter()
        .map(|g| GrainColorDescriptor { index: g.index, origin_x: g.origin_x, origin_y: g.origin_y, mean_color: [b(0.1); 3] })
        .collect();
    assert!(validate_color_descriptors(&colors, 5, 3, 2).is_ok());
    assert!(validate_color_descriptors(&colors, 6, 3, 2).is_ok());
    assert!(validate_color_descriptors(&colors, 7, 3, 2).is_err());
}

#[test]
fn selection_must_reference_existing_grains() {
    let sel = GrainSelection { columns: 2, rows: 1, indices: vec![0, 5] };
    assert!(validate_selection(&sel, 6, 2, 1, 1).is_ok());
    assert!(validate_selection(&sel, 5, 2, 1, 1).is_err());
    assert!(validate_selection(&sel, 6, 3, 1, 1).is_err());
}

#[test]
fn pool_grid_and_trailing_window() {
    let p = pool(2, 1, 3);
    assert!(validate_pool(&p, 1).is_ok());
    assert!(validate_pool(&p, 2).is_err());
    assert_eq!(eligible_grain_range(&p, PoolSelectionWindow::WholeClip), (0, 6));
    let w = |current_frame, frames| PoolSelectionWindow::Trailing { current_frame, frames };
    assert_eq!(eligible_grain_range(&p, w(2, 1)), (4, 6));
    assert_eq!(eligible_grain_range(&p, w(2, 2)), (2, 6));
    assert_eq!(eligible_grain_range(&p, w(0, 2)), (0, 2));
    assert_eq!(eligible_grain_range(&p, w(9, 2)), (2, 6));
    assert_eq!(eligible_grain_range(&p, w(1, 0)), (0, 6));
}

#[test]
fn pool_query_checks_every_input() {
    let p = pool(2, 1, 2);
    let ok = check_pool_query(&settings(), &p, &[b(0.5)], b(1.0), b(0.0));
    assert!(ok.is_ok());
    assert!(check_pool_query(&settings(), &p, &[b(0.5), b(0.5)], b(1.0), b(0.0)).is_err());
    assert!(check_pool_query(&settings(), &p, &[b(0.5)], b(-1.0), b(0.0)).is_err());
    assert!(check_pool_query(&settings(), &p, &[b(0.5)], b(1.0), b(f32::NAN)).is_err());
    assert!(check_pool_query(&settings(), &p, &[b(f32::INFINITY)], b(1.0), b(0.0)).is_err());
    let bad = GranularMosaicSettings { grain_size: 2, ..settings() };
    assert!(check_pool_query(&bad, &p, &[b(0.5)], b(1.0), b(0.0)).is_err());
    match check_pool_query(&settings(), &p, &[], b(1.0), b(0.0)) {
        Err(e) => assert_eq!(
            e.to_string(),
            "invalid granular mosaic settings: query audio length 0 does not match pool audio dims 1"
        ),
        Ok(()) => panic!("expected an audio length error"),
    }
}

#[test]
fn nearest_id_breaks_ties_by_the_smaller_id() {
    assert_eq!(nearest_id(&[], &[]), 0);
    assert_eq!(nearest_id(&[5, 3, 3, 9], &[0, 7, 2, 1]), 2);
    assert_eq!(nearest_id(&[1], &[42]), 42);
    // Keys of f32 distances: for non-negative distances the bit patterns order like the values.
    let d = [0.75f32, 0.25, 0.5];
    let keys: Vec<u32> = d.iter().map(|v| v.to_bits()).collect();
    assert_eq!(nearest_id(&keys, &[10, 11, 12]), 11);
}

#[test]
fn seeded_alternate_stays_in_the_window() {
    for seed in [0u64, 1, 99] {
        for (tx, ty) in [(0u32, 0u32), (3, 7)] {
            let r = seeded_alternate(seed, tx, ty, 10, 4);
            assert!((10..14).contains(&r));
            assert_eq!(r, 10 + tile_hash(seed, tx, ty) % 4);
        }
    }
    assert_eq!(wide_mul(u32::MAX, u32::MAX), (u32::MAX as u64) * (u32::MAX as u64));
}

#[test]
fn previous_pick_resolves_the_grain() {
    let p = pool(2, 1, 2);
    let prev = [Some(3u32), None, Some(99)];
    assert_eq!(previous_pick(&prev, 0, &p), Some((1, 1, 0)));
    assert_eq!(previous_pick(&prev, 1, &p), None);
    assert_eq!(previous_pick(&prev, 2, &p), None);
    assert_eq!(previous_pick(&prev, 3, &p), None);
}

#[test]
fn pool_rejects_mismatched_audio_lengths() {
    let sizes = [(1u32, 1u32), (1, 1)];
    let audio = vec![vec![b(0.1)], vec![b(0.2), b(0.3)]];
    assert!(check_pool_inputs(1, &sizes, &audio).is_err());
}

#[test]
fn pool_inputs_are_checked_in_order() {
    let one = vec![vec![b(0.5)], vec![b(0.25)]];
    assert!(check_pool_inputs(1, &[(2, 1), (2, 1)], &one).is_ok());
    assert!(check_pool_inputs(0, &[(2, 1), (2, 1)], &one).is_err());
    assert!(check_pool_inputs(1, &[], &[]).is_err());
    assert!(check_pool_inputs(1, &[(2, 1)], &one).is_err());
    assert!(check_pool_inputs(1, &[(2, 1), (1, 2)], &one).is_err());
    let nan = vec![vec![b(0.5)], vec![b(f32::NAN)]];
    match check_pool_inputs(1, &[(2, 1), (2, 1)], &nan) {
        Err(e) => assert_eq!(
            e.to_string(),
            "invalid granular mosaic settings: grain-pool audio descriptors must be finite"
        ),
        Ok(()) => panic!("expected a finiteness error"),
    }
}

/// The library's part of a pool selection for one tile: the eligible window
/// and the nearest grain in it by squared colour distance.
fn pick(pool: &GrainPool, window: PoolSelectionWindow, target: [f32; 3]) -> u32 {
    let (start, end) = eligible_grain_range(pool, window);
    let eligible = &pool.grains[start..end];
    let keys: Vec<u32> = eligible
        .iter()
        .map(|g| {
            let d: f32 = (0..3)
                .map(|c| {
                    let delta = f32::from_bits(g.mean_color[c]) - target[c];
                    delta * delta
                })
                .sum();
            d.to_bits()
        })
        .collect();
    let ids: Vec<u32> = eligible.iter().map(|g| g.global_index).collect();
    nearest_id(&keys, &ids)
}

#[test]
fn pool_trailing_window_restricts_eligible_frames() {
    // Four single-grain frames with distinct colours.
    let colors = [[1.0f32, 0.0, 0.0], [0.0, 1.0, 0.0], [0.0, 0.0, 1.0], [1.0, 1.0, 1.0]];
    let pool = GrainPool {
        columns: 1,
        rows: 1,
        grain_size: 1,
        frame_width: 1,
        frame_height: 1,
        audio_dims: 0,
        grains: colors
            .iter()
            .enumerate()
            .map(|(f, c)| PooledGrainDescriptor {
                global_index: f as u32,
                frame_index: f as u32,
                origin_x: 0,
                origin_y: 0,
                mean_color: [b(c[0]), b(c[1]), b(c[2])],
                texture: [b(0.0), b(0.0)],
                audio: vec![],
            })
            .collect(),
    };
    assert!(validate_pool(&pool, 1).is_ok());
    let red = [1.0, 0.0, 0.0];
    for current in 0..4u32 {
        let window = PoolSelectionWindow::Trailing { current_frame: current, frames: 1 };
        assert_eq!(pick(&pool, window, red), current);
    }
    assert_eq!(pick(&pool, PoolSelectionWindow::WholeClip, red), 0);
}

#[test]
fn multimodal_ties_break_by_ascending_index() {
    // Two carrier grains at squared colour distance 0.25 from the query: the
    // smaller index wins.
    let colors = [[0.0f32, 0.0, 0.0], [1.0, 0.0, 0.0]];
    let target = [0.5f32, 0.0, 0.0];
    let keys: Vec<u32> = colors
        .iter()
        .map(|c| {
            let d: f32 = (0..3).map(|k| (c[k] - target[k]) * (c[k] - target[k])).sum();
            d.to_bits()
        })
        .collect();
    assert_eq!(keys[0], keys[1]);
    assert_eq!(nearest_id(&keys, &[0, 1]), 0);
    assert_eq!(nearest_id(&keys, &[1, 0]), 0);
}


#[test]
fn assembled_pool_is_frame_major_numbered_and_accepted() {
    // Two 3x2 frames cut into 2-pixel grains: 2 columns, 1 row per frame.
    let sizes = [(3u32, 2u32), (3, 2)];
    let audio = vec![vec![b(0.5), b(1.0)], vec![b(-0.25), b(2.0)]];
    let colors: Vec<[u32; 3]> = (0..4).map(|k| [b(k as f32), b(0.1), b(0.2)]).collect();
    let textures: Vec<[u32; 2]> = (0..4).map(|k| [b(0.5 * k as f32), b(0.3)]).collect();
    let pool = assemble_grain_pool(2, &sizes, &audio, &colors, &textures).unwrap();
    assert_eq!((pool.columns, pool.rows, pool.grain_size), (2, 1, 2));
    assert_eq!((pool.frame_width, pool.frame_height, pool.audio_dims), (3, 2, 2));
    assert_eq!(pool.grains.len(), 4);
    for (i, g) in pool.grains.iter().enumerate() {
        assert_eq!(g.global_index, i as u32);
        assert_eq!(g.frame_index, i as u32 / 2);
        assert_eq!((g.origin_x, g.origin_y), ((i as u32 % 2) * 2, 0));
        assert_eq!(g.mean_color, colors[i]);
        assert_eq!(g.texture, textures[i]);
        assert_eq!(g.audio, audio[i / 2]);
    }
    assert!(validate_pool(&pool, 2).is_ok());

    // A tile descriptor that is not finite is kept, and the check refuses it.
    let mut bad = colors.clone();
    bad[3][1] = f32::NAN.to_bits();
    let pool = assemble_grain_pool(2, &sizes, &audio, &bad, &textures).unwrap();
    assert!(validate_pool(&pool, 2).is_err());

    // Frames without pixels give an empty pool, which the check refuses.
    let pool = assemble_grain_pool(2, &[(0, 0)], &[vec![]], &[], &[]).unwrap();
    assert!(pool.grains.is_empty());
    assert!(validate_pool(&pool, 2).is_err());

    // Inputs are checked first.
    assert!(matches!(
        assemble_grain_pool(0, &sizes, &audio, &colors, &textures),
        Err(RenderError::InvalidGranularMosaicSettings(_))
    ));
    assert!(assemble_grain_pool(2, &sizes, &audio[..1], &colors, &textures).is_err());
}

#[test]
fn pool_pick_is_the_nearest_window_grain_and_a_seeded_alternate() {
    // Three single-grain frames; the trailing window of two frames ending at
    // frame 2 holds grains 1 and 2.
    let pool = GrainPool {
        columns: 1,
        rows: 1,
        grain_size: 1,
        frame_width: 1,
        frame_height: 1,
        audio_dims: 0,
        grains: (0..3u32)
            .map(|f| PooledGrainDescriptor {
                global_index: f,
                frame_index: f,
                origin_x: 0,
                origin_y: 0,
                mean_color: [b(0.0); 3],
                texture: [b(0.0); 2],
                audio: vec![],
            })
            .collect(),
    };
    let window = PoolSelectionWindow::Trailing { current_frame: 2, frames: 2 };
    assert_eq!(eligible_grain_range(&pool, window), (1, 3));
    let (feature, alternate) = pick_pool_grain(&pool, window, &[b(0.5), b(0.25)], 7, 0, 0);
    assert_eq!(feature, 2);
    assert_eq!(alternate, seeded_alternate(7, 0, 0, 1, 2));
    assert!((1..3).contains(&alternate));
    // Equal keys: the smaller global index wins.
    let (feature, _) = pick_pool_grain(&pool, window, &[b(0.5), b(0.5)], 7, 0, 0);
    assert_eq!(feature, 1);
    let (feature, alternate) = pick_pool_grain(&pool, PoolSelectionWindow::WholeClip, &[b(3.0), b(1.0), b(2.0)], 9, 4, 5);
    assert_eq!(feature, 1);
    assert_eq!(alternate, seeded_alternate(9, 4, 5, 0, 3));
}
