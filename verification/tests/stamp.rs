use morphogen_render::fluid_mosaic::{bucket_tiles, paint_fluid_mosaic};
use morphogen_render::stamp::{stamp_all, stamp_square, PatchBits, SquareStamp, StampFill};

const ONE: u32 = 0x3f80_0000;
const BLACK: [u32; 4] = [0, 0, 0, ONE];
const RED: [u32; 4] = [ONE, 0, 0, ONE];
const BLUE: [u32; 4] = [0, 0, ONE, ONE];

fn canvas(width: u32, height: u32) -> Vec<[u32; 4]> {
    vec![BLACK; (width * height) as usize]
}

#[test]
fn solid_stamp_is_clipped_to_the_canvas() {
    let mut c = canvas(4, 3);
    let s = SquareStamp { left: -1, top: 1, size: 2, fill: StampFill::Solid(RED) };
    stamp_square(&mut c, 4, 3, &s);
    for y in 0..3u32 {
        for x in 0..4u32 {
            let want = if x == 0 && y >= 1 { RED } else { BLACK };
            assert_eq!(c[(y * 4 + x) as usize], want, "pixel ({x}, {y})");
        }
    }
}

#[test]
fn patch_is_sampled_nearest_at_the_square_scale() {
    // A 2x2 patch stretched over a 4x4 square: each texel covers a 2x2 quadrant.
    let texel = |v: u32| [v, v, v];
    let patch = PatchBits { width: 2, height: 2, pixels: vec![texel(1), texel(2), texel(3), texel(4)] };
    let mut c = canvas(4, 4);
    stamp_square(&mut c, 4, 4, &SquareStamp { left: 0, top: 0, size: 4, fill: StampFill::Patch(patch) });
    let expect = |x: u32, y: u32| {
        let v = 1 + (x / 2) + 2 * (y / 2);
        [v, v, v, ONE]
    };
    for y in 0..4u32 {
        for x in 0..4u32 {
            assert_eq!(c[(y * 4 + x) as usize], expect(x, y));
        }
    }
}

#[test]
fn a_small_patch_in_a_larger_square_keeps_its_last_texel() {
    // A 3-wide patch in a 2-wide square: offsets 0 and 1 take texels 0 and 1.
    let patch = PatchBits { width: 3, height: 1, pixels: vec![[7, 7, 7], [8, 8, 8], [9, 9, 9]] };
    let mut c = canvas(2, 2);
    stamp_square(&mut c, 2, 2, &SquareStamp { left: 0, top: 0, size: 2, fill: StampFill::Patch(patch) });
    assert_eq!(c, vec![[7, 7, 7, ONE], [8, 8, 8, ONE], [7, 7, 7, ONE], [8, 8, 8, ONE]]);
}

#[test]
fn empty_patch_paints_nothing() {
    let mut c = canvas(3, 3);
    let patch = PatchBits { width: 0, height: 3, pixels: vec![] };
    stamp_square(&mut c, 3, 3, &SquareStamp { left: 0, top: 0, size: 3, fill: StampFill::Patch(patch) });
    assert_eq!(c, canvas(3, 3));
}

#[test]
fn later_stamps_paint_over_earlier_ones() {
    let mut c = canvas(3, 1);
    let stamps = vec![
        SquareStamp { left: 0, top: 0, size: 2, fill: StampFill::Solid(RED) },
        SquareStamp { left: 1, top: 0, size: 2, fill: StampFill::Solid(BLUE) },
    ];
    stamp_all(&mut c, 3, 1, &stamps);
    assert_eq!(c, vec![RED, BLUE, BLUE]);
}

#[test]
fn stamps_off_the_canvas_change_nothing() {
    let mut c = canvas(2, 2);
    let stamps = vec![
        SquareStamp { left: 2, top: 0, size: 5, fill: StampFill::Solid(RED) },
        SquareStamp { left: -5, top: -5, size: 5, fill: StampFill::Solid(BLUE) },
    ];
    stamp_all(&mut c, 2, 2, &stamps);
    assert_eq!(c, canvas(2, 2));
}

#[test]
fn mosaic_paints_finer_tiles_over_coarser_ones() {
    // A 1-pixel tile listed first and a 4-pixel tile listed after it: the
    // small tile still shows where they overlap.
    let centers = vec![[1i64, 1], [2, 2]];
    let sizes = vec![1u32, 4];
    let fills = vec![StampFill::Solid(RED), StampFill::Solid(BLUE)];
    let out = paint_fluid_mosaic(4, 4, &centers, &sizes, &fills);
    assert_eq!((out.width, out.height), (4, 4));
    for y in 0..4u32 {
        for x in 0..4u32 {
            let want = if (x, y) == (1, 1) { RED } else { BLUE };
            assert_eq!(out.pixels[(y * 4 + x) as usize], want, "pixel ({x}, {y})");
        }
    }
}

#[test]
fn mosaic_tiles_of_one_size_paint_in_tile_order() {
    let centers = vec![[1i64, 0], [2, 0]];
    let sizes = vec![2u32, 2];
    let fills = vec![StampFill::Solid(RED), StampFill::Solid(BLUE)];
    let out = paint_fluid_mosaic(4, 1, &centers, &sizes, &fills);
    // Tile 0 covers x 0..2, tile 1 covers x 1..3 and is painted later.
    assert_eq!(out.pixels, vec![RED, BLUE, BLUE, BLACK]);
}

#[test]
fn mosaic_patch_tiles_carry_their_texture() {
    let patch = PatchBits { width: 1, height: 2, pixels: vec![[5, 5, 5], [6, 6, 6]] };
    let out = paint_fluid_mosaic(2, 2, &vec![[1i64, 1]], &vec![2u32], &vec![StampFill::Patch(patch)]);
    assert_eq!(out.pixels, vec![[5, 5, 5, ONE], [5, 5, 5, ONE], [6, 6, 6, ONE], [6, 6, 6, ONE]]);
}

#[test]
fn buckets_list_each_cells_tiles_in_tile_order() {
    let cells = vec![2usize, 0, 2, 1, 0];
    let buckets = bucket_tiles(&cells, 4);
    assert_eq!(buckets, vec![vec![1u32, 4], vec![3], vec![0, 2], vec![]]);
}

#[test]
fn restamping_the_same_tiles_changes_nothing() {
    let patch = PatchBits { width: 2, height: 1, pixels: vec![[1, 1, 1], [2, 2, 2]] };
    let stamps = vec![
        SquareStamp { left: 0, top: 0, size: 2, fill: StampFill::Patch(patch) },
        SquareStamp { left: 1, top: 1, size: 2, fill: StampFill::Solid(RED) },
    ];
    let mut once = canvas(3, 3);
    stamp_all(&mut once, 3, 3, &stamps);
    let mut twice = once.clone();
    stamp_all(&mut twice, 3, 3, &stamps);
    assert_eq!(twice, once);
}
