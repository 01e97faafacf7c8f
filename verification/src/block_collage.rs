//! The block collage: its settings, and the hard-cut composite that shows in
//! every tile either Source A or Source B as the tile's ownership says.

use vstd::prelude::*;
use crate::error::RenderError;
use crate::field_particles::{grid_cells, lemma_grid_cells};
use crate::image::{ImageBufferBits, lemma_grid_index};
use crate::float_bits::{
    f32_bits_in_unit_interval, f32_bits_nonpositive, is_nonpositive_bits, is_unit_interval_bits,
};

verus! {

/// Algorithm identifier of the block collage.
pub const BLOCK_COLLAGE_ALGORITHM: &'static str = "block_collage_value_noise_v1";

/// Settings of the block collage; every `f32` knob is carried as its bit pattern.
#[derive(Debug, Clone, Copy, PartialEq, Eq)]
pub struct BlockCollageSettings {
    pub tile_size: u32,
    pub threshold: u32,
    pub cluster_scale: u32,
    pub evolution_speed: u32,
    pub seed: u64,
}

impl BlockCollageSettings {
    /// A positive tile size, a threshold in `[0, 1]`, and a cluster scale
    /// that does not compare at most zero (NaN passes, as it fails `<= 0`).
    pub open spec fn valid(&self) -> bool {
        &&& self.tile_size > 0
        &&& f32_bits_in_unit_interval(self.threshold)
        &&& !f32_bits_nonpositive(self.cluster_scale)
    }

    /// Refuses a zero tile size, a threshold outside `[0, 1]` and a cluster
    /// scale at most zero.
    pub fn validate(&self) -> (r: Result<(), RenderError>)
        ensures
            r is Ok <==> self.valid(),
            r matches Err(e) ==> e is InvalidBlockCollageSettings,
    {
        if self.tile_size == 0 {
            return Err(
                RenderError::InvalidBlockCollageSettings(String::from_str("tile_size must be >= 1")),
            );
        }
        if !is_unit_interval_bits(self.threshold) {
            return Err(
                RenderError::InvalidBlockCollageSettings(
                    String::from_str("threshold must be in [0, 1]"),
                ),
            );
        }
        if is_nonpositive_bits(self.cluster_scale) {
            return Err(
                RenderError::InvalidBlockCollageSettings(
                    String::from_str("cluster_scale must be > 0"),
                ),
            );
        }
        Ok(())
    }
}

impl Default for BlockCollageSettings {
    /// The documented defaults; the `f32` knobs are the bit patterns of
    /// `threshold` 0.5, `cluster_scale` 0.25, `evolution_speed` 0.0.
    fn default() -> (r: Self)
        ensures
            r == (BlockCollageSettings {
                tile_size: 96,
                threshold: 0x3f00_0000,
                cluster_scale: 0x3e80_0000,
                evolution_speed: 0x0000_0000,
                seed: 0,
            }),
    {
        BlockCollageSettings {
            tile_size: 96,
            threshold: 0x3f00_0000,
            cluster_scale: 0x3e80_0000,
            evolution_speed: 0x0000_0000,
            seed: 0,
        }
    }
}

/// The tile edge the composite uses: the tile size, at least 1.
pub open spec fn collage_tile(tile_size: u32) -> int {
    if tile_size > 0 { tile_size as int } else { 1 }
}

/// The index of the tile holding pixel (`x`, `y`) in the row-major tile
/// grid of a `width`-wide frame.
pub open spec fn collage_tile_index(width: int, tile: int, x: int, y: int) -> int {
    (y / tile) * grid_cells(width, tile) + x / tile
}

/// Pixel (`x`, `y`) of the composite: Source B, its coordinates clamped to
/// B's last row and column, where the pixel's tile shows B; Source A elsewhere.
pub open spec fn collage_pixel(a: ImageBufferBits, b: ImageBufferBits, tile: int, shows_b: Seq<bool>, x: int, y: int) -> [u32; 4] {
    if shows_b[collage_tile_index(a.width as int, tile, x, y)] {
        let bx = if x < b.width - 1 { x } else { b.width - 1 };
        let by = if y < b.height - 1 { y } else { b.height - 1 };
        b.pixels@[by * b.width + bx]
    } else {
        a.pixels@[y * a.width + x]
    }
}

/// The hard-cut composite over Source A's frame: `shows_b` holds, per tile of
/// the row-major tile grid, whether the tile shows Source B.
pub fn compose_block_collage(a: &ImageBufferBits, b: &ImageBufferBits, tile_size: u32, shows_b: &Vec<bool>) -> (r: ImageBufferBits)
    requires
        a.wf(),
        b.wf(),
        shows_b@.len() == grid_cells(a.width as int, collage_tile(tile_size)) * grid_cells(
            a.height as int,
            collage_tile(tile_size),
        ),
    ensures
        r.wf(),
        r.width == a.width,
        r.height == a.height,
        forall|x: int, y: int|
            0 <= x < a.width && 0 <= y < a.height ==> #[trigger] r.pixels@[y * a.width + x]
                == collage_pixel(*a, *b, collage_tile(tile_size), shows_b@, x, y),
{
    let tile: u32 = if tile_size > 0 { tile_size } else { 1 };
    let ghost t = tile as int;
    let width = a.width;
    let height = a.height;
    let columns_wide: u64 = (width as u64 + tile as u64 - 1) / tile as u64;
    let ghost rows = grid_cells(height as int, t);
    proof {
        lemma_grid_cells(0, t, width as int);
        lemma_grid_cells(0, t, height as int);
        let q = columns_wide as int;
        let n = width as int + t - 1;
        vstd::arithmetic::div_mod::lemma_fundamental_div_mod(n, t);
        assert(q <= width) by (nonlinear_arith)
            requires
                n == t * q + n % t,
                0 <= n % t,
                n == width + t - 1,
                width >= 1,
                t >= 1,
        ;
    }
    let columns = columns_wide as usize;
    let mut pixels: Vec<[u32; 4]> = Vec::new();
    let mut y: u32 = 0;
    while y < height
        invariant
            a.wf(),
            b.wf(),
            t == collage_tile(tile_size),
            t == tile,
            tile > 0,
            width == a.width,
            height == a.height,
            columns == grid_cells(width as int, t),
            rows == grid_cells(height as int, t),
            shows_b@.len() == columns * rows,
            y <= height,
            pixels@.len() == y * width,
            forall|px: int, py: int|
                0 <= px < width && 0 <= py < y ==> #[trigger] pixels@[py * width + px]
                    == collage_pixel(*a, *b, t, shows_b@, px, py),
        decreases height - y,
    {
        let mut x: u32 = 0;
        while x < width
            invariant
                a.wf(),
                b.wf(),
                t == collage_tile(tile_size),
                t == tile,
                tile > 0,
                width == a.width,
                height == a.height,
                columns == grid_cells(width as int, t),
                rows == grid_cells(height as int, t),
                shows_b@.len() == columns * rows,
                y < height,
                x <= width,
                pixels@.len() == y * width + x,
                forall|px: int, py: int|
                    0 <= px < width && 0 <= py < y + 1 && (py < y || px < x) ==> #[trigger] pixels@[py
                        * width + px] == collage_pixel(*a, *b, t, shows_b@, px, py),
            decreases width - x,
        {
            let col = (x / tile) as usize;
            let row = (y / tile) as usize;
            proof {
                let xi = x as int;
                let yi = y as int;
                let xs = xi / t;
                let ys = yi / t;
                vstd::arithmetic::div_mod::lemma_fundamental_div_mod(xi, t);
                vstd::arithmetic::div_mod::lemma_fundamental_div_mod(yi, t);
                assert(xs * t <= xi && ys * t <= yi && xs >= 0 && ys >= 0) by (nonlinear_arith)
                    requires
                        xi == t * xs + xi % t,
                        yi == t * ys + yi % t,
                        0 <= xi % t < t,
                        0 <= yi % t < t,
                        xi >= 0,
                        yi >= 0,
                ;
                lemma_grid_cells(xs, t, width as int);
                lemma_grid_cells(ys, t, height as int);
                assert(ys * columns + xs < columns * rows) by (nonlinear_arith)
                    requires
                        0 <= xs < columns,
                        0 <= ys < rows,
                ;
                assert(ys * columns <= ys * columns + xs);
                let ghost mask_len = shows_b.len();
                assert(mask_len == shows_b@.len());
                lemma_grid_index(x as int, y as int, width as int, height as int);
            }
            let p = if shows_b[row * columns + col] {
                let bx = if x < b.width - 1 { x } else { b.width - 1 };
                let by = if y < b.height - 1 { y } else { b.height - 1 };
                match b.pixel(bx, by) {
                    Some(v) => v,
                    None => [0, 0, 0, 0],
                }
            } else {
                match a.pixel(x, y) {
                    Some(v) => v,
                    None => [0, 0, 0, 0],
                }
            };
            let ghost before = pixels@;
            pixels.push(p);
            proof {
                assert forall|px: int, py: int|
                    0 <= px < width && 0 <= py < y + 1 && (py < y || px < x + 1) implies #[trigger] pixels@[py
                        * width + px] == collage_pixel(*a, *b, t, shows_b@, px, py) by {
                    lemma_grid_index(px, py, width as int, height as int);
                    if py < y || px < x {
                        if py < y {
                            assert(py * width + px < y * width) by (nonlinear_arith)
                                requires
                                    py < y,
                                    0 <= px < width,
                            ;
                        }
                        assert(pixels@[py * width + px] == before[py * width + px]);
                    } else {
                        assert(py * width + px == y * width + x);
                    }
                }
            }
            x = x + 1;
        }
        y = y + 1;
        proof {
            assert(pixels@.len() == y * width) by (nonlinear_arith)
                requires
                    pixels@.len() == (y - 1) * width + width,
            ;
        }
    }
    proof {
        assert(pixels@.len() == width * height) by (nonlinear_arith)
            requires
                pixels@.len() == y * width,
                y == height,
        ;
    }
    ImageBufferBits { width, height, pixels }
}

/// Every pixel of a frame lies in a tile of the tile grid.
pub proof fn lemma_collage_tile_in_grid(width: int, height: int, tile: int, x: int, y: int)
    requires
        tile > 0,
        0 <= x < width,
        0 <= y < height,
    ensures
        0 <= collage_tile_index(width, tile, x, y) < grid_cells(width, tile) * grid_cells(height, tile),
{
    let xs = x / tile;
    let ys = y / tile;
    vstd::arithmetic::div_mod::lemma_fundamental_div_mod(x, tile);
    vstd::arithmetic::div_mod::lemma_fundamental_div_mod(y, tile);
    assert(xs * tile <= x && ys * tile <= y && xs >= 0 && ys >= 0) by (nonlinear_arith)
        requires
            x == tile * xs + x % tile,
            y == tile * ys + y % tile,
            0 <= x % tile < tile,
            0 <= y % tile < tile,
            x >= 0,
            y >= 0,
    ;
    lemma_grid_cells(xs, tile, width);
    lemma_grid_cells(ys, tile, height);
    let columns = grid_cells(width, tile);
    let rows = grid_cells(height, tile);
    assert(0 <= ys * columns + xs < columns * rows) by (nonlinear_arith)
        requires
            0 <= xs < columns,
            0 <= ys < rows,
    ;
}

/// The continuity identities of the collage: when no tile shows Source B the
/// composite is Source A, and when every tile does (over frames of one size)
/// it is Source B.
pub proof fn law_block_collage_extremes(
    a: ImageBufferBits,
    b: ImageBufferBits,
    tile_size: u32,
    shows_b: Seq<bool>,
    x: int,
    y: int,
)
    requires
        a.wf(),
        b.wf(),
        shows_b.len() == grid_cells(a.width as int, collage_tile(tile_size)) * grid_cells(
            a.height as int,
            collage_tile(tile_size),
        ),
        0 <= x < a.width,
        0 <= y < a.height,
    ensures
        (forall|i: int| 0 <= i < shows_b.len() ==> !#[trigger] shows_b[i]) ==> collage_pixel(
            a,
            b,
            collage_tile(tile_size),
            shows_b,
            x,
            y,
        ) == a.pixels@[y * a.width + x],
        (forall|i: int| 0 <= i < shows_b.len() ==> #[trigger] shows_b[i]) && b.width == a.width
            && b.height == a.height ==> collage_pixel(a, b, collage_tile(tile_size), shows_b, x, y)
            == b.pixels@[y * b.width + x],
{
    lemma_collage_tile_in_grid(
        a.width as int,
        a.height as int,
        collage_tile(tile_size),
        x,
        y,
    );
}

} // verus!
