use morphogen_render::block_collage::compose_block_collage;
use morphogen_render::image::ImageBufferBits;

fn solid(width: u32, height: u32, v: u32) -> ImageBufferBits {
    ImageBufferBits::new(width, height, vec![[v, v, v, v]; (width * height) as usize]).unwrap()
}

fn ramp(width: u32, height: u32) -> ImageBufferBits {
    let pixels = (0..width * height).map(|i| [i, i, i, 1]).collect();
    ImageBufferBits::new(width, height, pixels).unwrap()
}

#[test]
fn no_tile_showing_b_is_source_a() {
    let a = ramp(5, 3);
    let b = solid(5, 3, 99);
    // 2-pixel tiles: 3 columns, 2 rows.
    let out = compose_block_collage(&a, &b, 2, &vec![false; 6]);
    assert_eq!(out, a);
}

#[test]
fn every_tile_showing_b_is_source_b() {
    let a = ramp(5, 3);
    let b = solid(5, 3, 99);
    let out = compose_block_collage(&a, &b, 2, &vec![true; 6]);
    assert_eq!(out, b);
}

#[test]
fn ownership_is_per_tile_with_hard_cuts() {
    let a = solid(4, 4, 1);
    let b = solid(4, 4, 2);
    let out = compose_block_collage(&a, &b, 2, &vec![true, false, false, true]);
    let got: Vec<u32> = out.pixels.iter().map(|p| p[0]).collect();
    assert_eq!(got, vec![2, 2, 1, 1, 2, 2, 1, 1, 1, 1, 2, 2, 1, 1, 2, 2]);
}

#[test]
fn a_smaller_source_b_is_clamped_to_its_edges() {
    let a = solid(3, 2, 0);
    let b = ramp(2, 1);
    let out = compose_block_collage(&a, &b, 1, &vec![true; 6]);
    let got: Vec<u32> = out.pixels.iter().map(|p| p[0]).collect();
    assert_eq!(got, vec![0, 1, 1, 0, 1, 1]);
}

#[test]
fn zero_tile_size_uses_single_pixel_tiles() {
    let a = solid(2, 1, 1);
    let b = solid(2, 1, 2);
    let out = compose_block_collage(&a, &b, 0, &vec![false, true]);
    let got: Vec<u32> = out.pixels.iter().map(|p| p[0]).collect();
    assert_eq!(got, vec![1, 2]);
}
