use morphogen_render::cascade::temporal_frame_index;
use morphogen_render::fluid_mosaic::{
    default_adaptive_tiles, default_carry_texture, default_cluster_blob, default_live_refresh,
    default_live_resort, default_min_tile_size, grid_tile_origins, TileOrigin,
};

#[test]
fn grid_origins_follow_the_spacing() {
    // A 64x64 frame with homes every 16 pixels: 4 homes per axis.
    let origins = grid_tile_origins(1, 64, 64, 8, 16);
    assert_eq!(origins.len(), 4 * 4);
    assert_eq!(origins[0], TileOrigin { source: 1, x0: 0, y0: 0, x1: 8, y1: 8 });
    assert_eq!(origins[5], TileOrigin { source: 1, x0: 16, y0: 16, x1: 24, y1: 24 });
}

#[test]
fn grid_cells_clip_at_the_canvas_edge() {
    // Uniform mosaic cells of 4 over a 10x5 frame: 3 columns, 2 rows.
    let origins = grid_tile_origins(0, 10, 5, 4, 4);
    assert_eq!(origins.len(), 6);
    assert_eq!(origins[2], TileOrigin { source: 0, x0: 8, y0: 0, x1: 10, y1: 4 });
    assert_eq!(origins[5], TileOrigin { source: 0, x0: 8, y0: 4, x1: 10, y1: 5 });
    for o in &origins {
        assert!(o.x0 < o.x1 && o.x1 <= 10 && o.y0 < o.y1 && o.y1 <= 5);
    }
    assert!(grid_tile_origins(0, 0, 5, 4, 4).is_empty());
}

#[test]
fn temporal_tiles_spread_over_the_clip() {
    // Tile 0 gets frame 0; with as many tiles as frames the last tile gets the last frame.
    let frames: Vec<usize> = (0..5).map(|i| temporal_frame_index(i, 5, 5)).collect();
    assert_eq!(frames, vec![0, 1, 2, 3, 4]);
    let frames: Vec<usize> = (0..6).map(|i| temporal_frame_index(i, 6, 3)).collect();
    assert_eq!(frames, vec![0, 0, 1, 1, 2, 2]);
    // With more frames than tiles the last tile stops short of the last frame.
    assert_eq!(temporal_frame_index(1, 2, 10), 5);
}

#[test]
fn mosaic_defaults() {
    assert!(default_carry_texture());
    assert!(!default_adaptive_tiles());
    assert_eq!(default_min_tile_size(), 4);
    assert!(!default_live_refresh());
    assert!(!default_live_resort());
    assert!(!default_cluster_blob());
}
