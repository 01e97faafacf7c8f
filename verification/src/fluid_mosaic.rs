//! Tile geometry of the fluid mosaic and the cascade grids: where each tile
//! was born, and the grids of cells that the renders carve a frame into.

use vstd::prelude::*;
use crate::granular::{div_ceil, div_ceil_spec};
use crate::error::RenderError;
use crate::coagulate::coagulation_error;
use crate::text::push_decimal;
use crate::float_bits::{f32_bits_finite, f32_bits_negative, is_finite_bits, is_negative_bits};
use crate::datamosh::{is_arrangement, lemma_arrangement_covers, magnitude_order, ranks_before};
use crate::image::{ImageBufferBits, lemma_grid_index};
use crate::stamp::{
    canvas_at, lemma_last_painter_exists, lemma_painted_by_last_painter, lemma_painted_untouched,
    opaque_black,
    opaque_black_canvas, painted, stamp_color, stamp_fill, stamp_paints, SquareStamp, StampFill,
};

verus! {

/// Algorithm identifier of the fluid colour-sort mosaic.
pub const FLUID_MOSAIC_ALGORITHM: &'static str = "fluid_mosaic_colour_sort_cpu_v6";

/// Where a tile was born: its source (`0` = A, `1` = B) and the source-pixel
/// cell rectangle `[x0,x1)×[y0,y1)` it averaged.
#[derive(Debug, Clone, Copy, PartialEq, Eq, Structural)]
pub struct TileOrigin {
    pub source: u8,
    pub x0: u32,
    pub y0: u32,
    pub x1: u32,
    pub y1: u32,
}

/// The default of `carry_texture`: tiles paint their footage patch.
pub fn default_carry_texture() -> (r: bool)
    ensures
        r,
{
    true
}

/// The default of `adaptive_tiles`: uniform cells, no quadtree split.
pub fn default_adaptive_tiles() -> (r: bool)
    ensures
        !r,
{
    false
}

/// The default of `min_tile_size`.
pub fn default_min_tile_size() -> (r: u32)
    ensures
        r == 4,
{
    4
}

/// The default of `live_refresh`: colours stay as sampled at frame zero.
pub fn default_live_refresh() -> (r: bool)
    ensures
        !r,
{
    false
}

/// The default of `live_resort`: bins stay as assigned at frame zero.
pub fn default_live_resort() -> (r: bool)
    ensures
        !r,
{
    false
}

/// The default of `cluster_blob`: cohesion pulls toward local neighbours.
pub fn default_cluster_blob() -> (r: bool)
    ensures
        !r,
{
    false
}

/// Settings of the fluid colour-sort mosaic; every `f32` knob is carried as
/// its bit pattern.
#[derive(Debug, Clone, Copy, PartialEq, Eq)]
pub struct FluidMosaicSettings {
    pub tile_size: u32,
    pub color_bins: u32,
    pub cohesion: u32,
    pub cohesion_radius: u32,
    pub repulsion: u32,
    pub repulsion_radius: u32,
    pub fluid_strength: u32,
    pub fluid_scale: u32,
    pub fluid_drift: u32,
    pub damping: u32,
    pub settle_iterations: u32,
    pub jitter: u32,
    pub carry_texture: bool,
    pub adaptive_tiles: bool,
    pub min_tile_size: u32,
    pub subdivide_threshold: u32,
    pub live_refresh: bool,
    pub live_resort: bool,
    pub cluster_blob: bool,
    pub seed: u64,
}

impl FluidMosaicSettings {
    /// A positive tile size, at least two colour bins, with adaptive tiles a
    /// minimum size in `1..=tile_size` and a finite non-negative subdivide
    /// threshold, and every motion knob finite.
    pub open spec fn valid(&self) -> bool {
        &&& self.tile_size > 0
        &&& self.color_bins >= 2
        &&& (self.adaptive_tiles ==> 1 <= self.min_tile_size <= self.tile_size)
        &&& (self.adaptive_tiles ==> f32_bits_finite(self.subdivide_threshold) && !f32_bits_negative(
            self.subdivide_threshold,
        ))
        &&& f32_bits_finite(self.cohesion)
        &&& f32_bits_finite(self.cohesion_radius)
        &&& f32_bits_finite(self.repulsion)
        &&& f32_bits_finite(self.repulsion_radius)
        &&& f32_bits_finite(self.fluid_strength)
        &&& f32_bits_finite(self.fluid_scale)
        &&& f32_bits_finite(self.fluid_drift)
        &&& f32_bits_finite(self.damping)
        &&& f32_bits_finite(self.jitter)
    }

    /// Refuses settings the mosaic cannot run.
    pub fn validate(&self) -> (r: Result<(), RenderError>)
        ensures
            r is Ok <==> self.valid(),
            r matches Err(e) ==> e is InvalidCoagulationSettings,
    {
        if self.tile_size == 0 {
            return Err(coagulation_error("tile_size must be greater than zero"));
        }
        if self.color_bins < 2 {
            return Err(coagulation_error("color_bins must be at least 2"));
        }
        if self.adaptive_tiles && (self.min_tile_size == 0 || self.min_tile_size > self.tile_size) {
            let mut d = String::from_str("min_tile_size (");
            push_decimal(&mut d, self.min_tile_size as u64);
            d.append(") must be in 1..=tile_size (");
            push_decimal(&mut d, self.tile_size as u64);
            d.append(")");
            return Err(RenderError::InvalidCoagulationSettings(d));
        }
        if self.adaptive_tiles && !(is_finite_bits(self.subdivide_threshold) && !is_negative_bits(
            self.subdivide_threshold,
        )) {
            return Err(coagulation_error("subdivide_threshold must be finite and non-negative"));
        }
        if !is_finite_bits(self.cohesion) {
            return Err(coagulation_error("cohesion must be finite"));
        }
        if !is_finite_bits(self.cohesion_radius) {
            return Err(coagulation_error("cohesion_radius must be finite"));
        }
        if !is_finite_bits(self.repulsion) {
            return Err(coagulation_error("repulsion must be finite"));
        }
        if !is_finite_bits(self.repulsion_radius) {
            return Err(coagulation_error("repulsion_radius must be finite"));
        }
        if !is_finite_bits(self.fluid_strength) {
            return Err(coagulation_error("fluid_strength must be finite"));
        }
        if !is_finite_bits(self.fluid_scale) {
            return Err(coagulation_error("fluid_scale must be finite"));
        }
        if !is_finite_bits(self.fluid_drift) {
            return Err(coagulation_error("fluid_drift must be finite"));
        }
        if !is_finite_bits(self.damping) {
            return Err(coagulation_error("damping must be finite"));
        }
        if !is_finite_bits(self.jitter) {
            return Err(coagulation_error("jitter must be finite"));
        }
        Ok(())
    }
}

/// The smaller of two integers.
pub open spec fn min_int(a: int, b: int) -> int {
    if a <= b {
        a
    } else {
        b
    }
}

/// Cell `k` of the row-major grid whose cells start every `spacing` pixels and
/// span `tile_size` pixels, clipped to the `width` × `height` canvas.
pub open spec fn grid_cell(
    source: u8,
    k: int,
    columns: int,
    width: int,
    height: int,
    tile_size: int,
    spacing: int,
) -> TileOrigin {
    let x0 = (k % columns) * spacing;
    let y0 = (k / columns) * spacing;
    TileOrigin {
        source,
        x0: x0 as u32,
        y0: y0 as u32,
        x1: min_int(x0 + tile_size, width) as u32,
        y1: min_int(y0 + tile_size, height) as u32,
    }
}

/// `r` is the whole grid of cells, row by row.
pub open spec fn is_cell_grid(
    r: Seq<TileOrigin>,
    source: u8,
    width: int,
    height: int,
    tile_size: int,
    spacing: int,
) -> bool {
    let columns = div_ceil_spec(width, spacing);
    let rows = div_ceil_spec(height, spacing);
    &&& r.len() == columns * rows
    &&& forall|k: int|
        0 <= k < r.len() ==> #[trigger] r[k] == grid_cell(
            source,
            k,
            columns,
            width,
            height,
            tile_size,
            spacing,
        )
}

proof fn lemma_cell_start_in_canvas(c: int, spacing: int, width: int)
    requires
        spacing > 0,
        width >= 0,
        0 <= c < div_ceil_spec(width, spacing),
    ensures
        0 <= c * spacing < width,
{
    assert(0 <= c * spacing) by (nonlinear_arith)
        requires
            0 <= c,
            spacing > 0,
    ;
    assert(width == spacing * (width / spacing) + width % spacing && 0 <= width % spacing < spacing)
        by (nonlinear_arith)
        requires
            spacing > 0,
    ;
    assert(c * spacing < width) by (nonlinear_arith)
        requires
            spacing > 0,
            width >= 0,
            0 <= c,
            c < width / spacing + if width % spacing != 0 {
                1int
            } else {
                0int
            },
            width == spacing * (width / spacing) + width % spacing,
            0 <= width % spacing < spacing,
    ;
}

proof fn lemma_row_major(k: int, columns: int, cy: int, cx: int)
    requires
        columns > 0,
        0 <= cx < columns,
        0 <= cy,
        k == cy * columns + cx,
    ensures
        k % columns == cx,
        k / columns == cy,
{
    assert(k % columns == cx && k / columns == cy) by (nonlinear_arith)
        requires
            columns > 0,
            0 <= cx < columns,
            0 <= cy,
            k == cy * columns + cx,
    ;
}

/// The grid of cells that starts every `spacing` pixels and spans
/// `tile_size` pixels, clipped to the canvas, row by row: the cascade grid
/// (spacing and tile size apart) and the uniform mosaic cells (equal).
pub fn grid_tile_origins(source: u8, width: u32, height: u32, tile_size: u32, spacing: u32) -> (r: Vec<TileOrigin>)
    requires
        spacing > 0,
        width + tile_size <= u32::MAX,
        height + tile_size <= u32::MAX,
    ensures
        is_cell_grid(r@, source, width as int, height as int, tile_size as int, spacing as int),
        forall|k: int|
            #![trigger r@[k]]
            0 <= k < r@.len() ==> r@[k].x0 <= r@[k].x1 <= width && r@[k].y0 <= r@[k].y1 <= height,
{
    let columns = div_ceil(width, spacing);
    let rows = div_ceil(height, spacing);
    let mut r: Vec<TileOrigin> = Vec::new();
    let mut cy: u32 = 0;
    while cy < rows
        invariant
            columns == div_ceil_spec(width as int, spacing as int),
            rows == div_ceil_spec(height as int, spacing as int),
            spacing > 0,
            width + tile_size <= u32::MAX,
            height + tile_size <= u32::MAX,
            cy <= rows,
            r@.len() == cy * columns,
            forall|k: int|
                0 <= k < r@.len() ==> #[trigger] r@[k].x0 <= r@[k].x1 <= width && r@[k].y0 <= r@[k].y1
                    <= height,
            forall|k: int|
                0 <= k < r@.len() ==> #[trigger] r@[k] == grid_cell(
                    source,
                    k,
                    columns as int,
                    width as int,
                    height as int,
                    tile_size as int,
                    spacing as int,
                ),
        decreases rows - cy,
    {
        proof {
            lemma_cell_start_in_canvas(cy as int, spacing as int, height as int);
        }
        let y0 = cy * spacing;
        let y1 = if y0 + tile_size < height {
            y0 + tile_size
        } else {
            height
        };
        let mut cx: u32 = 0;
        while cx < columns
            invariant
                columns == div_ceil_spec(width as int, spacing as int),
                rows == div_ceil_spec(height as int, spacing as int),
                spacing > 0,
                width + tile_size <= u32::MAX,
                cy < rows,
                cx <= columns,
                y0 == cy * spacing,
                y0 < height,
                y1 == min_int(y0 + tile_size, height as int),
                r@.len() == cy * columns + cx,
                forall|k: int|
                    0 <= k < r@.len() ==> #[trigger] r@[k].x0 <= r@[k].x1 <= width && r@[k].y0
                        <= r@[k].y1 <= height,
                forall|k: int|
                    0 <= k < r@.len() ==> #[trigger] r@[k] == grid_cell(
                        source,
                        k,
                        columns as int,
                        width as int,
                        height as int,
                        tile_size as int,
                        spacing as int,
                    ),
            decreases columns - cx,
        {
            proof {
                lemma_cell_start_in_canvas(cx as int, spacing as int, width as int);
                lemma_row_major(cy * columns + cx, columns as int, cy as int, cx as int);
            }
            let x0 = cx * spacing;
            let x1 = if x0 + tile_size < width {
                x0 + tile_size
            } else {
                width
            };
            r.push(TileOrigin { source, x0, y0, x1, y1 });
            cx = cx + 1;
        }
        proof {
            assert((cy + 1) * columns == cy * columns + columns) by (nonlinear_arith);
        }
        cy = cy + 1;
    }
    proof {
        assert(rows * columns == columns * rows) by (nonlinear_arith);
    }
    r
}

impl Default for FluidMosaicSettings {
    /// The documented defaults; the `f32` knobs are the bit patterns of
    /// `cohesion` 0.035, `cohesion_radius` 24.0, `repulsion` 1.4, `repulsion_radius` 10.0,
    /// `fluid_strength` 0.5, `fluid_scale` 0.01, `fluid_drift` 0.15, `damping` 0.88, `jitter`
    /// 0.03, `subdivide_threshold` 0.004.
    fn default() -> (r: Self)
        ensures
            r == (FluidMosaicSettings {
                tile_size: 8,
                color_bins: 5,
                cohesion: 0x3d0f_5c29,
                cohesion_radius: 0x41c0_0000,
                repulsion: 0x3fb3_3333,
                repulsion_radius: 0x4120_0000,
                fluid_strength: 0x3f00_0000,
                fluid_scale: 0x3c23_d70a,
                fluid_drift: 0x3e19_999a,
                damping: 0x3f61_47ae,
                settle_iterations: 60,
                jitter: 0x3cf5_c28f,
                carry_texture: true,
                adaptive_tiles: false,
                min_tile_size: 4,
                subdivide_threshold: 0x3b83_126f,
                live_refresh: false,
                live_resort: false,
                cluster_blob: false,
                seed: 0,
            }),
    {
        FluidMosaicSettings {
            tile_size: 8,
            color_bins: 5,
            cohesion: 0x3d0f_5c29,
            cohesion_radius: 0x41c0_0000,
            repulsion: 0x3fb3_3333,
            repulsion_radius: 0x4120_0000,
            fluid_strength: 0x3f00_0000,
            fluid_scale: 0x3c23_d70a,
            fluid_drift: 0x3e19_999a,
            damping: 0x3f61_47ae,
            settle_iterations: 60,
            jitter: 0x3cf5_c28f,
            carry_texture: true,
            adaptive_tiles: false,
            min_tile_size: 4,
            subdivide_threshold: 0x3b83_126f,
            live_refresh: false,
            live_resort: false,
            cluster_blob: false,
            seed: 0,
        }
    }
}

/// The square of mosaic tile `i`: `size` wide, centred on the tile's rounded
/// position (its corner `size / 2` up and left of it).
pub open spec fn mosaic_stamp(centers: Seq<[i64; 2]>, sizes: Seq<u32>, fills: Seq<StampFill>, i: int) -> SquareStamp {
    SquareStamp {
        left: (centers[i][0] - sizes[i] / 2) as i64,
        top: (centers[i][1] - sizes[i] / 2) as i64,
        size: sizes[i],
        fill: fills[i],
    }
}

/// The tiles line up (a centre, a size and a fill each), every square's
/// corners are representable, and every patch is a non-empty grid.
pub open spec fn mosaic_tiles_wf(centers: Seq<[i64; 2]>, sizes: Seq<u32>, fills: Seq<StampFill>) -> bool {
    &&& centers.len() == sizes.len()
    &&& fills.len() == sizes.len()
    &&& forall|i: int| 0 <= i < sizes.len() ==> {
        &&& i64::MIN <= #[trigger] centers[i][0] - sizes[i] / 2
        &&& centers[i][0] - sizes[i] / 2 + sizes[i] <= i64::MAX
        &&& i64::MIN <= centers[i][1] - sizes[i] / 2
        &&& centers[i][1] - sizes[i] / 2 + sizes[i] <= i64::MAX
        &&& (fills[i] matches StampFill::Patch(p) ==> p.wf() && p.width > 0 && p.height > 0)
    }
}

/// Tile `i` is the one pixel (`x`, `y`) shows: it paints there, and every
/// tile painting there is larger, or as large and earlier.
pub open spec fn mosaic_winner(centers: Seq<[i64; 2]>, sizes: Seq<u32>, fills: Seq<StampFill>, i: int, x: int, y: int) -> bool {
    &&& stamp_paints(mosaic_stamp(centers, sizes, fills, i), x, y)
    &&& forall|j: int|
        0 <= j < sizes.len() && stamp_paints(#[trigger] mosaic_stamp(centers, sizes, fills, j), x, y)
            ==> sizes[i] < sizes[j] || (sizes[i] == sizes[j] && j <= i)
}

/// Paints the mosaic onto opaque black: the largest tiles first, tiles of one
/// size in tile order, so finer tiles land on top of coarse ones. A pixel
/// shows the tile that wins it (the smallest painting it, the later of equal
/// sizes), and stays black where no tile paints.
pub fn paint_fluid_mosaic(
    width: u32,
    height: u32,
    centers: &Vec<[i64; 2]>,
    sizes: &Vec<u32>,
    fills: &Vec<StampFill>,
) -> (r: ImageBufferBits)
    requires
        width > 0,
        height > 0,
        width * height <= usize::MAX,
        mosaic_tiles_wf(centers@, sizes@, fills@),
    ensures
        r.wf(),
        r.width == width,
        r.height == height,
        forall|x: int, y: int|
            0 <= x < width && 0 <= y < height && (forall|i: int|
                0 <= i < sizes@.len() ==> !stamp_paints(
                    #[trigger] mosaic_stamp(centers@, sizes@, fills@, i),
                    x,
                    y,
                )) ==> #[trigger] canvas_at(r.pixels@, width as int, x, y) == opaque_black(),
        forall|x: int, y: int, i: int|
            0 <= x < width && 0 <= y < height && 0 <= i < sizes@.len() && #[trigger] mosaic_winner(
                centers@,
                sizes@,
                fills@,
                i,
                x,
                y,
            ) ==> canvas_at(r.pixels@, width as int, x, y) == stamp_color(
                mosaic_stamp(centers@, sizes@, fills@, i),
                x,
                y,
            ),
        forall|x: int, y: int, j: int|
            0 <= x < width && 0 <= y < height && 0 <= j < sizes@.len() && #[trigger] stamp_paints(
                mosaic_stamp(centers@, sizes@, fills@, j),
                x,
                y,
            ) ==> exists|i: int| 0 <= i < sizes@.len() && mosaic_winner(centers@, sizes@, fills@, i, x, y),
{
    let n = sizes.len();
    let mut keys: Vec<u64> = Vec::new();
    let mut i: usize = 0;
    while i < n
        invariant
            n == sizes@.len(),
            i <= n,
            keys@.len() == i,
            forall|k: int| 0 <= k < i ==> #[trigger] keys@[k] == sizes@[k] as u64,
        decreases n - i,
    {
        keys.push(sizes[i] as u64);
        i = i + 1;
    }
    let order = magnitude_order(&keys);
    let ghost stamps = Seq::new(n as nat, |k: int| mosaic_stamp(centers@, sizes@, fills@, order@[k] as int));
    let mut canvas = opaque_black_canvas(width as usize * height as usize);
    let ghost black = canvas@;
    assert forall|x: int, y: int|
        0 <= x < width && 0 <= y < height implies #[trigger] canvas_at(canvas@, width as int, x, y)
            == painted(stamps.take(0), opaque_black(), x, y) by {
        lemma_grid_index(x, y, width as int, height as int);
    }
    let mut k: usize = 0;
    while k < n
        invariant
            n == sizes@.len(),
            mosaic_tiles_wf(centers@, sizes@, fills@),
            is_arrangement(order@, n as nat),
            stamps == Seq::new(n as nat, |k: int| mosaic_stamp(centers@, sizes@, fills@, order@[k] as int)),
            k <= n,
            black.len() == width * height,
            canvas@.len() == width * height,
            forall|j: int| 0 <= j < black.len() ==> #[trigger] black[j] == opaque_black(),
            forall|x: int, y: int|
                0 <= x < width && 0 <= y < height ==> #[trigger] canvas_at(canvas@, width as int, x, y)
                    == painted(stamps.take(k as int), opaque_black(), x, y),
        decreases n - k,
    {
        let t = order[k];
        let size = sizes[t];
        let half = (size / 2) as i64;
        let center = centers[t];
        let left = center[0] - half;
        let top = center[1] - half;
        stamp_fill(&mut canvas, width, height, left, top, size, &fills[t]);
        proof {
            let done = stamps.take(k as int + 1);
            assert(done.drop_last() =~= stamps.take(k as int));
            assert(done.last() == stamps[k as int]);
            assert(stamps[k as int] == (SquareStamp {
                left,
                top,
                size,
                fill: fills@[t as int],
            }));
        }
        k = k + 1;
    }
    proof {
        assert(stamps.take(n as int) =~= stamps);
        assert forall|x: int, y: int|
            0 <= x < width && 0 <= y < height && (forall|i: int|
                0 <= i < sizes@.len() ==> !stamp_paints(
                    #[trigger] mosaic_stamp(centers@, sizes@, fills@, i),
                    x,
                    y,
                )) implies #[trigger] canvas_at(canvas@, width as int, x, y) == opaque_black() by {
            assert forall|j: int| 0 <= j < stamps.len() implies !stamp_paints(#[trigger] stamps[j], x, y) by {
                assert(order@[j] < n);
                assert(stamps[j] == mosaic_stamp(centers@, sizes@, fills@, order@[j] as int));
            }
            lemma_painted_untouched(stamps, opaque_black(), x, y);
        }
        assert forall|x: int, y: int, i: int|
            0 <= x < width && 0 <= y < height && 0 <= i < sizes@.len() && #[trigger] mosaic_winner(
                centers@,
                sizes@,
                fills@,
                i,
                x,
                y,
            ) implies canvas_at(canvas@, width as int, x, y) == stamp_color(
                mosaic_stamp(centers@, sizes@, fills@, i),
                x,
                y,
            ) by {
            lemma_arrangement_covers(order@, n as nat, i);
            let at = choose|at: int| 0 <= at < n && order@[at] == i;
            assert(stamps[at] == mosaic_stamp(centers@, sizes@, fills@, i));
            assert forall|later: int| at < later < stamps.len() implies !stamp_paints(#[trigger] stamps[later], x, y) by {
                let j = order@[later] as int;
                assert(stamps[later] == mosaic_stamp(centers@, sizes@, fills@, j));
                assert(ranks_before(keys@, order@[at] as int, order@[later] as int));
                assert(order@[at] != order@[later]);
                assert(keys@[i] == sizes@[i] as u64);
                assert(keys@[j] == sizes@[j] as u64);
                if stamp_paints(stamps[later], x, y) {
                    assert(sizes@[i] < sizes@[j] || (sizes@[i] == sizes@[j] && j <= i));
                }
            }
            lemma_painted_by_last_painter(stamps, opaque_black(), x, y, at);
        }
        assert forall|x: int, y: int, j: int|
            0 <= x < width && 0 <= y < height && 0 <= j < sizes@.len() && #[trigger] stamp_paints(
                mosaic_stamp(centers@, sizes@, fills@, j),
                x,
                y,
            ) implies exists|i: int| 0 <= i < sizes@.len() && mosaic_winner(centers@, sizes@, fills@, i, x, y) by {
            lemma_arrangement_covers(order@, n as nat, j);
            let at = choose|at: int| 0 <= at < n && order@[at] == j;
            assert(stamps[at] == mosaic_stamp(centers@, sizes@, fills@, j));
            let k = lemma_last_painter_exists(stamps, x, y, at);
            let w = order@[k] as int;
            assert(stamps[k] == mosaic_stamp(centers@, sizes@, fills@, w));
            assert forall|t: int|
                0 <= t < sizes@.len() && stamp_paints(#[trigger] mosaic_stamp(centers@, sizes@, fills@, t), x, y)
                    implies sizes@[w] < sizes@[t] || (sizes@[w] == sizes@[t] && t <= w) by {
                lemma_arrangement_covers(order@, n as nat, t);
                let p = choose|p: int| 0 <= p < n && order@[p] == t;
                assert(stamps[p] == mosaic_stamp(centers@, sizes@, fills@, t));
                assert(keys@[w] == sizes@[w] as u64);
                assert(keys@[t] == sizes@[t] as u64);
                if p < k {
                    assert(ranks_before(keys@, order@[p] as int, order@[k] as int));
                } else if p > k {
                    assert(!stamp_paints(stamps[p], x, y));
                }
            }
            assert(mosaic_winner(centers@, sizes@, fills@, w, x, y));
        }
    }
    ImageBufferBits { width, height, pixels: canvas }
}

} // verus!

verus! {

/// The tiles of `cells` that lie in cell `c`, in tile order.
pub open spec fn tiles_in_cell(cells: Seq<usize>, c: int) -> Seq<u32>
    decreases cells.len(),
{
    if cells.len() == 0 {
        Seq::empty()
    } else {
        let rest = tiles_in_cell(cells.drop_last(), c);
        if cells.last() == c {
            rest.push((cells.len() - 1) as u32)
        } else {
            rest
        }
    }
}

/// The spatial buckets of the neighbour search: bucket `c` lists, in tile
/// order, the tiles whose cell is `c`.
pub fn bucket_tiles(cells: &Vec<usize>, cell_count: usize) -> (r: Vec<Vec<u32>>)
    requires
        cells@.len() <= u32::MAX + 1,
        forall|i: int| 0 <= i < cells@.len() ==> #[trigger] cells@[i] < cell_count,
    ensures
        r@.len() == cell_count,
        forall|c: int| 0 <= c < cell_count ==> (#[trigger] r@[c])@ == tiles_in_cell(cells@, c),
{
    let mut buckets: Vec<Vec<u32>> = Vec::new();
    let mut c: usize = 0;
    while c < cell_count
        invariant
            c <= cell_count,
            buckets@.len() == c,
            forall|k: int| 0 <= k < c ==> (#[trigger] buckets@[k])@ == Seq::<u32>::empty(),
        decreases cell_count - c,
    {
        buckets.push(Vec::new());
        c = c + 1;
    }
    let mut i: usize = 0;
    while i < cells.len()
        invariant
            i <= cells@.len(),
            cells@.len() <= u32::MAX + 1,
            buckets@.len() == cell_count,
            forall|k: int| 0 <= k < cells@.len() ==> #[trigger] cells@[k] < cell_count,
            forall|k: int| 0 <= k < cell_count ==> (#[trigger] buckets@[k])@ == tiles_in_cell(cells@.take(i as int), k),
        decreases cells.len() - i,
    {
        let cell = cells[i];
        buckets[cell].push(i as u32);
        proof {
            let done = cells@.take(i as int + 1);
            assert(done.drop_last() =~= cells@.take(i as int));
        }
        i = i + 1;
    }
    assert(cells@.take(cells@.len() as int) =~= cells@);
    buckets
}

} // verus!
