use morphogen_render::cascade::{CascadeFieldType, CascadeTrailSettings};
use morphogen_render::error::RenderError;
use morphogen_render::image::ImageBufferBits;
use morphogen_render::trails::{
    advance_cascade_trails, assign_temporal_patches, cell_patch, initialize_cascade_trails, render_cascade_trails,
};
use morphogen_render::fluid_mosaic::TileOrigin;

const ONE: u32 = 0x3f80_0000;

fn gradient_source(width: u32, height: u32) -> ImageBufferBits {
    let mut pixels = Vec::new();
    for y in 0..height {
        for x in 0..width {
            pixels.push([
                (x as f32 / width as f32).to_bits(),
                (y as f32 / height as f32).to_bits(),
                0.5f32.to_bits(),
                1.0f32.to_bits(),
            ]);
        }
    }
    ImageBufferBits::new(width, height, pixels).unwrap()
}

fn solid(width: u32, height: u32, v: f32) -> ImageBufferBits {
    let b = v.to_bits();
    ImageBufferBits::new(width, height, vec![[b, b, b, ONE]; (width * height) as usize]).unwrap()
}

fn count_non_black(image: &ImageBufferBits) -> usize {
    image.pixels.iter().filter(|p| p[0] != 0 || p[1] != 0 || p[2] != 0).count()
}

#[test]
fn tile_count_matches_grid_spacing() {
    let source = gradient_source(64, 64);
    let settings = CascadeTrailSettings { tile_size: 8, grid_spacing: 16, ..CascadeTrailSettings::default() };
    let state = initialize_cascade_trails(&source, settings).unwrap();
    // 64 / 16 = 4 homes per axis.
    assert_eq!(state.tile_count(), 4 * 4);
}

#[test]
fn frame_zero_stamps_sparse_grid_on_black() {
    let source = gradient_source(64, 64);
    let settings = CascadeTrailSettings {
        tile_size: 8,
        grid_spacing: 32, // sparse: 8px tiles every 32px ⇒ gaps stay black
        advect: 1.0f32.to_bits(),
        ..CascadeTrailSettings::default()
    };
    let state = initialize_cascade_trails(&source, settings).unwrap();
    let frame0 = render_cascade_trails(&state);
    let non_black = count_non_black(&frame0);
    // 2x2 tiles of 8x8 = 256 painted pixels, far less than the 4096-pixel canvas.
    assert_eq!(non_black, 2 * 2 * 8 * 8);
    assert!(non_black < (64 * 64) as usize);
}

#[test]
fn frame_zero_shows_each_home_cell_in_place() {
    let source = gradient_source(12, 8);
    let settings = CascadeTrailSettings { tile_size: 4, grid_spacing: 6, ..CascadeTrailSettings::default() };
    let state = initialize_cascade_trails(&source, settings).unwrap();
    assert_eq!(state.dimensions(), (12, 8));
    let homes: Vec<[u32; 2]> = [[0.0f32, 0.0], [6.0, 0.0], [0.0, 6.0], [6.0, 6.0]]
        .iter()
        .map(|p| [p[0].to_bits(), p[1].to_bits()])
        .collect();
    assert_eq!(state.positions, homes);
    assert_eq!(state.origins[3], TileOrigin { source: 1, x0: 6, y0: 6, x1: 10, y1: 8 });
    assert_eq!((state.patches[3].width, state.patches[3].height), (4, 2));
    let frame = render_cascade_trails(&state);
    for y in 0..8u32 {
        for x in 0..12u32 {
            let i = (y * 12 + x) as usize;
            let in_tile = (x % 6) < 4 && (y % 6) < 4;
            if in_tile {
                // Edge cells are narrower than the tile and are stretched over it.
                let (hx, hy) = (x / 6 * 6, y / 6 * 6);
                let (pw, ph) = ((12 - hx).min(4), (8 - hy).min(4));
                let (sx, sy) = (hx + (x - hx) * pw / 4, hy + (y - hy) * ph / 4);
                let p = source.pixels[(sy * 12 + sx) as usize];
                assert_eq!(frame.pixels[i], [p[0], p[1], p[2], ONE], "pixel ({x}, {y})");
            } else {
                assert_eq!(frame.pixels[i], [0, 0, 0, ONE], "pixel ({x}, {y})");
            }
        }
    }
}

#[test]
fn invalid_trail_settings_are_refused() {
    let source = gradient_source(8, 8);
    let settings = CascadeTrailSettings { grid_spacing: 0, ..CascadeTrailSettings::default() };
    assert!(matches!(
        initialize_cascade_trails(&source, settings),
        Err(RenderError::InvalidCoagulationSettings(_))
    ));
}

#[test]
fn temporal_patches_spread_tiles_over_the_clip() {
    let source = solid(8, 8, 0.25);
    let settings = CascadeTrailSettings { tile_size: 4, grid_spacing: 4, ..CascadeTrailSettings::default() };
    let mut state = initialize_cascade_trails(&source, settings).unwrap();
    assert_eq!(state.tile_count(), 4);
    let frames = vec![solid(8, 8, 0.5), solid(8, 8, 0.75)];
    assign_temporal_patches(&mut state, &frames);
    // Tiles 0 and 1 take frame 0, tiles 2 and 3 frame 1.
    let half = 0.5f32.to_bits();
    let three_quarters = 0.75f32.to_bits();
    assert!(state.patches[0].pixels.iter().all(|t| *t == [half; 3]));
    assert!(state.patches[1].pixels.iter().all(|t| *t == [half; 3]));
    assert!(state.patches[2].pixels.iter().all(|t| *t == [three_quarters; 3]));
    assert!(state.patches[3].pixels.iter().all(|t| *t == [three_quarters; 3]));
    let frame = render_cascade_trails(&state);
    assert_eq!(frame.pixels[0], [half, half, half, ONE]);
    assert_eq!(frame.pixels[7 * 8 + 7], [three_quarters, three_quarters, three_quarters, ONE]);
}

#[test]
fn temporal_patches_without_frames_change_nothing() {
    let source = gradient_source(8, 8);
    let settings = CascadeTrailSettings { tile_size: 4, grid_spacing: 4, ..CascadeTrailSettings::default() };
    let mut state = initialize_cascade_trails(&source, settings).unwrap();
    let before = render_cascade_trails(&state);
    assign_temporal_patches(&mut state, &Vec::new());
    assert_eq!(render_cascade_trails(&state), before);
}

#[test]
fn cell_patches_outside_the_frame_are_black() {
    let source = gradient_source(4, 4);
    let patch = cell_patch(&source, TileOrigin { source: 0, x0: 3, y0: 3, x1: 5, y1: 4 });
    assert_eq!((patch.width, patch.height), (2, 1));
    let p = source.pixels[15];
    assert_eq!(patch.pixels, vec![[p[0], p[1], p[2]], [0, 0, 0]]);
}


#[test]
fn advect_zero_is_static_after_frame_zero() {
    let source = gradient_source(48, 48);
    let settings = CascadeTrailSettings {
        tile_size: 8,
        grid_spacing: 16,
        advect: 0.0f32.to_bits(),
        live_refresh: false,
        ..CascadeTrailSettings::default()
    };
    let mut state = initialize_cascade_trails(&source, settings).unwrap();
    let frame0 = render_cascade_trails(&state);
    let homes = state.positions.clone();
    // With `advect` zero the tiles stay put whatever positions are offered.
    let elsewhere: Vec<[u32; 2]> = homes.iter().map(|p| [(f(p[0]) + 5.0).to_bits(), f(p[1]).to_bits()]).collect();
    for _ in 0..5 {
        advance_cascade_trails(&mut state, &source, settings, &elsewhere, &Vec::new()).unwrap();
        let frame = render_cascade_trails(&state);
        assert_eq!(frame.pixels, frame0.pixels, "advect 0 must hold the frame");
        assert_eq!(state.positions, homes);
    }
}

fn f(bits: u32) -> f32 {
    f32::from_bits(bits)
}

/// A steady test drift: every tile moves by (1.3, 0.7) pixels per frame.
fn drifted(positions: &[[u32; 2]]) -> Vec<[u32; 2]> {
    positions.iter().map(|p| [(f(p[0]) + 1.3).to_bits(), (f(p[1]) + 0.7).to_bits()]).collect()
}

#[test]
fn advancing_keeps_sub_pixel_positions_and_stamps_them_rounded() {
    let source = gradient_source(16, 16);
    let settings = CascadeTrailSettings {
        tile_size: 4,
        grid_spacing: 8,
        live_refresh: false,
        ..CascadeTrailSettings::default()
    };
    let mut state = initialize_cascade_trails(&source, settings).unwrap();
    assert_eq!(state.positions[3], [8.0f32.to_bits(), 8.0f32.to_bits()]);
    let frame0 = render_cascade_trails(&state);
    // Two steps of (1.3, 0.7): positions (2.6, 1.4) from home, stamped at (+3, +1).
    let once = drifted(&state.positions);
    advance_cascade_trails(&mut state, &source, settings, &once, &Vec::new()).unwrap();
    let twice = drifted(&state.positions);
    advance_cascade_trails(&mut state, &source, settings, &twice, &Vec::new()).unwrap();
    assert_eq!(state.positions, twice);
    assert_eq!(f(state.positions[0][0]), 1.3f32 + 1.3f32);
    let frame2 = render_cascade_trails(&state);
    // Pixels no stamp ever covered keep frame zero's colour.
    assert_eq!(frame2.pixels[15 * 16 + 15], frame0.pixels[15 * 16 + 15]);
    // The tile at home (0, 0) now has its corner at (3, 1).
    assert_eq!(frame2.pixels[16 + 3], source.pixels[0]);
    // Pixel (2, 2) keeps what the first step stamped there.
    assert_eq!(frame2.pixels[2 * 16 + 2], source.pixels[16 + 1]);
}

#[test]
fn river_root_oscillation_moves_the_stamp_not_the_tile() {
    let source = gradient_source(16, 16);
    let settings = CascadeTrailSettings {
        tile_size: 4,
        grid_spacing: 8,
        live_refresh: false,
        field: CascadeFieldType::RiverRoot,
        ..CascadeTrailSettings::default()
    };
    let mut state = initialize_cascade_trails(&source, settings).unwrap();
    let homes = state.positions.clone();
    let stamped: Vec<[i64; 2]> = homes.iter().map(|p| [f(p[0]) as i64 + 1, f(p[1]) as i64 + 2]).collect();
    advance_cascade_trails(&mut state, &source, settings, &homes, &stamped).unwrap();
    assert_eq!(state.positions, homes);
    let frame = render_cascade_trails(&state);
    assert_eq!(frame.pixels[2 * 16 + 1], source.pixels[0]);
}

#[test]
fn painted_area_never_shrinks_as_tiles_drift() {
    let source = gradient_source(64, 64);
    let settings = CascadeTrailSettings { tile_size: 6, grid_spacing: 12, live_refresh: true, ..CascadeTrailSettings::default() };
    let run = || {
        let mut state = initialize_cascade_trails(&source, settings).unwrap();
        let mut frames = vec![render_cascade_trails(&state)];
        let mut prev = count_non_black(&frames[0]);
        let mut grew = false;
        for _ in 0..10 {
            let next = drifted(&state.positions);
            advance_cascade_trails(&mut state, &source, settings, &next, &Vec::new()).unwrap();
            let frame = render_cascade_trails(&state);
            let now = count_non_black(&frame);
            assert!(now >= prev, "accumulator must never lose painted pixels");
            grew |= now > prev;
            prev = now;
            frames.push(frame);
        }
        assert!(grew, "moving tiles should grow the painted area");
        frames
    };
    assert_eq!(run(), run());
}

#[test]
fn advancing_with_live_refresh_paints_the_current_frame() {
    let source = solid(8, 8, 0.25);
    let settings = CascadeTrailSettings { tile_size: 4, grid_spacing: 4, ..CascadeTrailSettings::default() };
    let mut state = initialize_cascade_trails(&source, settings).unwrap();
    let homes = state.positions.clone();
    let next = solid(8, 8, 0.75);
    advance_cascade_trails(&mut state, &next, settings, &homes, &Vec::new()).unwrap();
    assert!(render_cascade_trails(&state).pixels.iter().all(|p| p[0] == 0.75f32.to_bits()));

    // Temporal tiles keep their patches.
    let temporal = CascadeTrailSettings { temporal_tiles: true, ..settings };
    let mut state = initialize_cascade_trails(&source, temporal).unwrap();
    advance_cascade_trails(&mut state, &next, temporal, &homes, &Vec::new()).unwrap();
    assert!(render_cascade_trails(&state).pixels.iter().all(|p| p[0] == 0.25f32.to_bits()));

    // A refused setting changes nothing.
    let bad = CascadeTrailSettings { tile_size: 0, ..settings };
    let mut state = initialize_cascade_trails(&source, settings).unwrap();
    let before = render_cascade_trails(&state);
    assert!(matches!(
        advance_cascade_trails(&mut state, &next, bad, &homes, &Vec::new()),
        Err(RenderError::InvalidCoagulationSettings(_))
    ));
    assert_eq!(render_cascade_trails(&state).pixels, before.pixels);
}
