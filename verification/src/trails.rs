//! The persistent-trail cascade: a sparse grid of tiles, each carrying the
//! footage patch of its origin cell, stamped at its home onto a black canvas
//! at frame zero; the spread of the tiles' patches over the frames of a clip;
//! and each later frame, which refreshes the patches and stamps the moved
//! tiles onto the canvas without ever clearing it.

use vstd::prelude::*;
use crate::cascade::{temporal_frame, temporal_frame_index, CascadeFieldType, CascadeTrailSettings};
use crate::error::RenderError;
use crate::float_bits::{f32_bits_zero, is_zero_bits};
use crate::float_round::{
    f32_bits_is_integer, f32_round_to_i64, lemma_integer_bits_round, round_f32_bits_to_i64,
    u32_nearest_f32, u32_to_f32_bits,
};
use crate::fluid_mosaic::{grid_tile_origins, is_cell_grid, TileOrigin};
use crate::granular::div_ceil_spec;
use crate::image::{ImageBufferBits, lemma_grid_index};
use crate::stamp::{
    canvas_at, lemma_painted_untouched, law_restamping_is_idempotent, opaque_black, patch_texel, opaque_black_canvas, painted, stamp_color, stamp_fill, stamp_paints,
    PatchBits, SquareStamp, StampFill,
};

verus! {

/// The RGB of a pixel.
pub open spec fn rgb(p: [u32; 4]) -> [u32; 3] {
    [p[0], p[1], p[2]]
}

/// The RGB of `source` at (`x`, `y`); black outside the frame.
pub open spec fn source_rgb(source: ImageBufferBits, x: int, y: int) -> [u32; 3] {
    if 0 <= x < source.width && 0 <= y < source.height {
        rgb(source.pixels@[y * source.width + x])
    } else {
        [0, 0, 0]
    }
}

/// `p` is the footage of `origin`'s cell in `source`: one texel per cell
/// pixel, row-major, black where the cell leaves the frame.
pub open spec fn is_cell_patch(p: PatchBits, source: ImageBufferBits, origin: TileOrigin) -> bool {
    &&& p.width == origin.x1 - origin.x0
    &&& p.height == origin.y1 - origin.y0
    &&& p.wf()
    &&& forall|i: int, j: int|
        0 <= i < p.width && 0 <= j < p.height ==> #[trigger] p.pixels@[j * p.width + i] == source_rgb(
            source,
            origin.x0 + i,
            origin.y0 + j,
        )
}

/// The footage patch of `origin`'s cell in `source`.
pub fn cell_patch(source: &ImageBufferBits, origin: TileOrigin) -> (r: PatchBits)
    requires
        source.wf(),
        origin.x0 <= origin.x1,
        origin.y0 <= origin.y1,
    ensures
        is_cell_patch(r, *source, origin),
{
    let pw = origin.x1 - origin.x0;
    let ph = origin.y1 - origin.y0;
    let mut pixels: Vec<[u32; 3]> = Vec::new();
    let mut j: u32 = 0;
    while j < ph
        invariant
            source.wf(),
            pw == origin.x1 - origin.x0,
            ph == origin.y1 - origin.y0,
            j <= ph,
            pixels@.len() == j * pw,
            forall|a: int, b: int|
                0 <= a < pw && 0 <= b < j ==> #[trigger] pixels@[b * pw + a] == source_rgb(
                    *source,
                    origin.x0 + a,
                    origin.y0 + b,
                ),
        decreases ph - j,
    {
        let mut i: u32 = 0;
        while i < pw
            invariant
                source.wf(),
                pw == origin.x1 - origin.x0,
                ph == origin.y1 - origin.y0,
                j < ph,
                i <= pw,
                pixels@.len() == j * pw + i,
                forall|a: int, b: int|
                    0 <= a < pw && 0 <= b <= j && (b < j || a < i) ==> #[trigger] pixels@[b * pw + a]
                        == source_rgb(*source, origin.x0 + a, origin.y0 + b),
            decreases pw - i,
        {
            let x = origin.x0 + i;
            let y = origin.y0 + j;
            let texel = match source.pixel(x, y) {
                Some(p) => [p[0], p[1], p[2]],
                None => [0, 0, 0],
            };
            let ghost before = pixels@;
            pixels.push(texel);
            proof {
                assert forall|a: int, b: int|
                    0 <= a < pw && 0 <= b <= j && (b < j || a < i + 1) implies #[trigger] pixels@[b
                        * pw + a] == source_rgb(*source, origin.x0 + a, origin.y0 + b) by {
                    if b < j {
                        assert(b * pw + a < j * pw) by (nonlinear_arith)
                            requires
                                b < j,
                                0 <= a < pw,
                        ;
                        assert(pixels@[b * pw + a] == before[b * pw + a]);
                    } else if a < i {
                        assert(pixels@[b * pw + a] == before[b * pw + a]);
                    } else {
                        if 0 <= x < source.width && 0 <= y < source.height {
                            lemma_grid_index(x as int, y as int, source.width as int, source.height as int);
                        }
                    }
                }
            }
            i = i + 1;
        }
        j = j + 1;
        proof {
            assert(pixels@.len() == j * pw) by (nonlinear_arith)
                requires
                    pixels@.len() == (j - 1) * pw + pw,
            ;
        }
    }
    proof {
        assert(pixels@.len() == pw * ph) by (nonlinear_arith)
            requires
                pixels@.len() == j * pw,
                j == ph,
        ;
    }
    PatchBits { width: pw, height: ph, pixels }
}

/// The squares the trail tiles stamp: tile `k` at its position, `tile_size`
/// wide, carrying its patch.
pub open spec fn trail_stamps(positions: Seq<[i64; 2]>, tile_size: u32, patches: Seq<PatchBits>) -> Seq<SquareStamp> {
    Seq::new(
        positions.len(),
        |k: int|
            SquareStamp {
                left: positions[k][0],
                top: positions[k][1],
                size: tile_size,
                fill: StampFill::Patch(patches[k]),
            },
    )
}

/// Every square with a corner of `corners` and side `tile_size` has a
/// representable far corner.
pub open spec fn corners_fit(corners: Seq<[i64; 2]>, tile_size: u32) -> bool {
    forall|k: int|
        0 <= k < corners.len() ==> #[trigger] corners[k][0] + tile_size <= i64::MAX && corners[k][1]
            + tile_size <= i64::MAX
}

/// The tiles line up (a corner and a patch each), every patch is a grid,
/// and every square's far corner is representable.
pub open spec fn trail_tiles_wf(positions: Seq<[i64; 2]>, tile_size: u32, patches: Seq<PatchBits>) -> bool {
    &&& patches.len() == positions.len()
    &&& forall|k: int| 0 <= k < patches.len() ==> (#[trigger] patches[k]).wf()
    &&& corners_fit(positions, tile_size)
}

/// The pixel corner each tile is stamped at: its position (`f32` bit
/// patterns) rounded to the nearest integer, halves away from zero, as
/// `round() as i64` gives it.
pub open spec fn stamp_corners(positions: Seq<[u32; 2]>) -> Seq<[i64; 2]> {
    Seq::new(
        positions.len(),
        |k: int|
            [f32_round_to_i64(positions[k][0]) as i64, f32_round_to_i64(positions[k][1]) as i64],
    )
}

/// The stamp corners of `positions`.
fn stamp_corners_of(positions: &Vec<[u32; 2]>) -> (r: Vec<[i64; 2]>)
    ensures
        r@ == stamp_corners(positions@),
{
    let mut r: Vec<[i64; 2]> = Vec::new();
    let mut k: usize = 0;
    while k < positions.len()
        invariant
            k <= positions@.len(),
            r@ == stamp_corners(positions@).take(k as int),
        decreases positions.len() - k,
    {
        let p = positions[k];
        let left = round_f32_bits_to_i64(p[0]);
        let top = round_f32_bits_to_i64(p[1]);
        r.push([left, top]);
        k = k + 1;
        assert(r@ =~= stamp_corners(positions@).take(k as int));
    }
    assert(stamp_corners(positions@).take(positions@.len() as int) =~= stamp_corners(positions@));
    r
}

/// Stamps every tile onto `canvas` in tile order, the last writer winning.
pub fn stamp_trail_tiles(
    canvas: &mut Vec<[u32; 4]>,
    width: u32,
    height: u32,
    positions: &Vec<[i64; 2]>,
    tile_size: u32,
    patches: &Vec<PatchBits>,
)
    requires
        old(canvas)@.len() == width * height,
        trail_tiles_wf(positions@, tile_size, patches@),
    ensures
        final(canvas)@.len() == old(canvas)@.len(),
        forall|x: int, y: int|
            0 <= x < width && 0 <= y < height ==> #[trigger] canvas_at(final(canvas)@, width as int, x, y)
                == painted(
                trail_stamps(positions@, tile_size, patches@),
                canvas_at(old(canvas)@, width as int, x, y),
                x,
                y,
            ),
{
    let ghost before = canvas@;
    let ghost stamps = trail_stamps(positions@, tile_size, patches@);
    let mut k: usize = 0;
    while k < positions.len()
        invariant
            k <= positions@.len(),
            trail_tiles_wf(positions@, tile_size, patches@),
            stamps == trail_stamps(positions@, tile_size, patches@),
            canvas@.len() == before.len(),
            before.len() == width * height,
            forall|x: int, y: int|
                0 <= x < width && 0 <= y < height ==> #[trigger] canvas_at(canvas@, width as int, x, y)
                    == painted(stamps.take(k as int), canvas_at(before, width as int, x, y), x, y),
        decreases positions.len() - k,
    {
        let p = positions[k];
        assert(patches@[k as int].wf());
        stamp_trail_tile(canvas, width, height, p[0], p[1], tile_size, &patches[k]);
        proof {
            assert(stamps[k as int] == (SquareStamp {
                left: p[0],
                top: p[1],
                size: tile_size,
                fill: StampFill::Patch(patches@[k as int]),
            }));
            let done = stamps.take(k as int + 1);
            assert(done.drop_last() =~= stamps.take(k as int));
            assert(done.last() == stamps[k as int]);
        }
        k = k + 1;
    }
    assert(stamps.take(positions@.len() as int) =~= stamps);
}

/// Stamps one tile's patch with its corner at (`left`, `top`).
fn stamp_trail_tile(
    canvas: &mut Vec<[u32; 4]>,
    width: u32,
    height: u32,
    left: i64,
    top: i64,
    tile_size: u32,
    patch: &PatchBits,
)
    requires
        old(canvas)@.len() == width * height,
        patch.wf(),
        left + tile_size <= i64::MAX,
        top + tile_size <= i64::MAX,
    ensures
        final(canvas)@.len() == old(canvas)@.len(),
        forall|x: int, y: int|
            0 <= x < width && 0 <= y < height ==> #[trigger] canvas_at(final(canvas)@, width as int, x, y)
                == (if stamp_paints(
                SquareStamp { left, top, size: tile_size, fill: StampFill::Patch(*patch) },
                x,
                y,
            ) {
                stamp_color(
                    SquareStamp { left, top, size: tile_size, fill: StampFill::Patch(*patch) },
                    x,
                    y,
                )
            } else {
                canvas_at(old(canvas)@, width as int, x, y)
            }),
{
    let copy = PatchBits { width: patch.width, height: patch.height, pixels: copy_texels(&patch.pixels) };
    let fill = StampFill::Patch(copy);
    stamp_fill(canvas, width, height, left, top, tile_size, &fill);
    proof {
        let given = SquareStamp { left, top, size: tile_size, fill: StampFill::Patch(*patch) };
        let made = SquareStamp { left, top, size: tile_size, fill };
        assert forall|x: int, y: int| true implies stamp_paints(made, x, y) == stamp_paints(given, x, y)
            && stamp_color(made, x, y) == stamp_color(given, x, y) by {}
    }
}

/// A copy of `texels`.
fn copy_texels(texels: &Vec<[u32; 3]>) -> (r: Vec<[u32; 3]>)
    ensures
        r@ == texels@,
{
    let mut r: Vec<[u32; 3]> = Vec::new();
    let mut i: usize = 0;
    while i < texels.len()
        invariant
            i <= texels@.len(),
            r@ == texels@.take(i as int),
        decreases texels.len() - i,
    {
        r.push(texels[i]);
        i = i + 1;
        assert(r@ =~= texels@.take(i as int));
    }
    assert(texels@.take(texels@.len() as int) =~= texels@);
    r
}

/// The trail cascade's state: each tile's position in pixels (`f32` bit
/// patterns; advection moves it by sub-pixel amounts, and it may leave the
/// canvas), its origin cell and its patch (index-aligned, in a fixed order),
/// and the persistent canvas, never cleared.
#[derive(Debug, PartialEq, Eq)]
pub struct CascadeTrailState {
    pub width: u32,
    pub height: u32,
    pub tile_size: u32,
    pub positions: Vec<[u32; 2]>,
    pub origins: Vec<TileOrigin>,
    pub patches: Vec<PatchBits>,
    pub accumulator: ImageBufferBits,
}

impl CascadeTrailState {
    /// The canvas matches the state's size, and the tiles line up.
    pub open spec fn wf(&self) -> bool {
        &&& self.accumulator.wf()
        &&& self.accumulator.width == self.width
        &&& self.accumulator.height == self.height
        &&& self.origins@.len() == self.positions@.len()
        &&& trail_tiles_wf(stamp_corners(self.positions@), self.tile_size, self.patches@)
        &&& forall|k: int|
            #![trigger self.origins@[k]]
            0 <= k < self.origins@.len() ==> self.origins@[k].x0 <= self.origins@[k].x1
                && self.origins@[k].y0 <= self.origins@[k].y1
    }

    /// Number of tiles in the cascade grid.
    pub fn tile_count(&self) -> (r: usize)
        ensures
            r == self.positions@.len(),
    {
        self.positions.len()
    }

    /// Canvas dimensions `(width, height)`.
    pub fn dimensions(&self) -> (r: (u32, u32))
        ensures
            r == (self.width, self.height),
    {
        (self.width, self.height)
    }
}

/// Seeds the cascade from the source frame after checking the settings: one
/// tile per `grid_spacing` cell (row by row), carrying the `tile_size` patch
/// of its origin cell, positioned at its home (the cell's corner, as the
/// nearest `f32`), stamped in tile order onto a fresh opaque black canvas,
/// which then holds frame zero.
#[verifier::spinoff_prover]
pub fn initialize_cascade_trails(source: &ImageBufferBits, settings: CascadeTrailSettings) -> (r: Result<CascadeTrailState, RenderError>)
    requires
        source.wf(),
        source.width + settings.tile_size <= u32::MAX,
        source.height + settings.tile_size <= u32::MAX,
    ensures
        r is Ok <==> settings.valid(),
        r matches Err(e) ==> e is InvalidCoagulationSettings,
        r matches Ok(st) ==> {
            &&& st.wf()
            &&& st.width == source.width
            &&& st.height == source.height
            &&& st.tile_size == settings.tile_size
            &&& is_cell_grid(
                st.origins@,
                1,
                source.width as int,
                source.height as int,
                settings.tile_size as int,
                settings.grid_spacing as int,
            )
            &&& forall|k: int|
                0 <= k < st.positions@.len() ==> f32_bits_is_integer(
                    #[trigger] st.positions@[k][0],
                    u32_nearest_f32(st.origins@[k].x0 as nat) as int,
                ) && f32_bits_is_integer(
                    st.positions@[k][1],
                    u32_nearest_f32(st.origins@[k].y0 as nat) as int,
                ) && stamp_corners(st.positions@)[k] == [
                    u32_nearest_f32(st.origins@[k].x0 as nat) as i64,
                    u32_nearest_f32(st.origins@[k].y0 as nat) as i64,
                ]
            &&& forall|k: int|
                0 <= k < st.patches@.len() ==> is_cell_patch(
                    #[trigger] st.patches@[k],
                    *source,
                    st.origins@[k],
                )
            &&& forall|x: int, y: int|
                0 <= x < st.width && 0 <= y < st.height ==> #[trigger] canvas_at(
                    st.accumulator.pixels@,
                    st.width as int,
                    x,
                    y,
                ) == painted(
                    trail_stamps(stamp_corners(st.positions@), st.tile_size, st.patches@),
                    opaque_black(),
                    x,
                    y,
                )
            &&& shows_own_stamps(st)
        },
{
    settings.validate()?;
    let width = source.width;
    let height = source.height;
    let origins = grid_tile_origins(1, width, height, settings.tile_size, settings.grid_spacing);
    let ghost columns = div_ceil_spec(width as int, settings.grid_spacing as int);
    let mut positions: Vec<[u32; 2]> = Vec::new();
    let mut patches: Vec<PatchBits> = Vec::new();
    let mut k: usize = 0;
    while k < origins.len()
        invariant
            source.wf(),
            width == source.width,
            height == source.height,
            is_cell_grid(origins@, 1, width as int, height as int, settings.tile_size as int, settings.grid_spacing as int),
            columns == div_ceil_spec(width as int, settings.grid_spacing as int),
            settings.grid_spacing > 0,
            k <= origins@.len(),
            positions@.len() == k,
            patches@.len() == k,
            forall|j: int|
                0 <= j < k ==> f32_bits_is_integer(
                    #[trigger] positions@[j][0],
                    u32_nearest_f32(origins@[j].x0 as nat) as int,
                ) && f32_bits_is_integer(positions@[j][1], u32_nearest_f32(origins@[j].y0 as nat) as int)
                    && u32_nearest_f32(origins@[j].x0 as nat) <= 0x1_0000_0000 && u32_nearest_f32(
                    origins@[j].y0 as nat,
                ) <= 0x1_0000_0000,
            forall|j: int| 0 <= j < k ==> is_cell_patch(#[trigger] patches@[j], *source, origins@[j]),
            forall|j: int|
                #![trigger origins@[j]]
                0 <= j < origins@.len() ==> origins@[j].x0 <= origins@[j].x1 && origins@[j].y0 <= origins@[j].y1,
        decreases origins.len() - k,
    {
        let o = origins[k];
        let px = u32_to_f32_bits(o.x0);
        let py = u32_to_f32_bits(o.y0);
        positions.push([px, py]);
        proof {
            assert(positions@[k as int] == [px, py]);
            assert(origins@[k as int] == o);
            assert(f32_bits_is_integer(positions@[k as int][0], u32_nearest_f32(o.x0 as nat) as int));
            assert(f32_bits_is_integer(positions@[k as int][1], u32_nearest_f32(o.y0 as nat) as int));
        }
        patches.push(cell_patch(source, o));
        k = k + 1;
    }
    let ghost n = source.pixels.len();
    assert(n == source.pixels@.len());
    let corners = stamp_corners_of(&positions);
    proof {
        assert forall|j: int| 0 <= j < corners@.len() implies #[trigger] corners@[j] == [
            u32_nearest_f32(origins@[j].x0 as nat) as i64,
            u32_nearest_f32(origins@[j].y0 as nat) as i64,
        ] by {
            lemma_integer_bits_round(positions@[j][0], u32_nearest_f32(origins@[j].x0 as nat) as int);
            lemma_integer_bits_round(positions@[j][1], u32_nearest_f32(origins@[j].y0 as nat) as int);
        }
        assert(corners_fit(corners@, settings.tile_size));
    }
    let mut canvas = opaque_black_canvas(width as usize * height as usize);
    let ghost black = canvas@;
    stamp_trail_tiles(&mut canvas, width, height, &corners, settings.tile_size, &patches);
    proof {
        assert forall|x: int, y: int| 0 <= x < width && 0 <= y < height implies #[trigger] canvas_at(
            canvas@,
            width as int,
            x,
            y,
        ) == painted(trail_stamps(corners@, settings.tile_size, patches@), opaque_black(), x, y) by {
            lemma_grid_index(x, y, width as int, height as int);
            assert(canvas_at(black, width as int, x, y) == opaque_black());
        }
    }
    let st = CascadeTrailState {
        width,
        height,
        tile_size: settings.tile_size,
        positions,
        origins,
        patches,
        accumulator: ImageBufferBits { width, height, pixels: canvas },
    };
    proof {
        lemma_restamped_shows_own_stamps(st, black);
    }
    Ok(st)
}

/// The current frame: the persistent canvas.
pub fn render_cascade_trails(state: &CascadeTrailState) -> (r: ImageBufferBits)
    ensures
        r.width == state.accumulator.width,
        r.height == state.accumulator.height,
        r.pixels@ == state.accumulator.pixels@,
{
    let mut pixels: Vec<[u32; 4]> = Vec::new();
    let mut i: usize = 0;
    while i < state.accumulator.pixels.len()
        invariant
            i <= state.accumulator.pixels@.len(),
            pixels@ == state.accumulator.pixels@.take(i as int),
        decreases state.accumulator.pixels.len() - i,
    {
        pixels.push(state.accumulator.pixels[i]);
        i = i + 1;
        assert(pixels@ =~= state.accumulator.pixels@.take(i as int));
    }
    assert(state.accumulator.pixels@.take(state.accumulator.pixels@.len() as int) =~= state.accumulator.pixels@);
    ImageBufferBits { width: state.accumulator.width, height: state.accumulator.height, pixels }
}

/// Repaints each tile's patch from the frame the even spread gives it (tile
/// `i` of `n` takes frame `i · frames / n`), from the tile's own origin cell,
/// then stamps the tiles again onto the canvas so that frame zero shows the
/// spread. With no tiles or no frames nothing changes.
pub fn assign_temporal_patches(state: &mut CascadeTrailState, frames: &Vec<ImageBufferBits>)
    requires
        old(state).wf(),
        forall|f: int| 0 <= f < frames@.len() ==> (#[trigger] frames@[f]).wf(),
        old(state).positions@.len() * frames@.len() <= usize::MAX,
    ensures
        final(state).wf(),
        final(state).width == old(state).width,
        final(state).height == old(state).height,
        final(state).tile_size == old(state).tile_size,
        final(state).positions@ == old(state).positions@,
        final(state).origins@ == old(state).origins@,
        final(state).patches@.len() == old(state).patches@.len(),
        final(state).accumulator.width == old(state).accumulator.width,
        final(state).accumulator.height == old(state).accumulator.height,
        old(state).positions@.len() == 0 || frames@.len() == 0 ==> final(state).patches@ == old(
            state,
        ).patches@ && final(state).accumulator.pixels@ == old(state).accumulator.pixels@,
        old(state).positions@.len() > 0 && frames@.len() > 0 ==> {
            &&& shows_own_stamps(*final(state))
            &&& forall|k: int|
                0 <= k < final(state).patches@.len() ==> is_cell_patch(
                    #[trigger] final(state).patches@[k],
                    frames@[temporal_frame(k, old(state).positions@.len() as int, frames@.len() as int)],
                    old(state).origins@[k],
                )
            &&& forall|x: int, y: int|
                0 <= x < old(state).width && 0 <= y < old(state).height ==> #[trigger] canvas_at(
                    final(state).accumulator.pixels@,
                    old(state).width as int,
                    x,
                    y,
                ) == painted(
                    trail_stamps(stamp_corners(old(state).positions@), old(state).tile_size, final(state).patches@),
                    canvas_at(old(state).accumulator.pixels@, old(state).width as int, x, y),
                    x,
                    y,
                )
        },
{
    let n_tiles = state.patches.len();
    let n_frames = frames.len();
    if n_tiles == 0 || n_frames == 0 {
        return;
    }
    let ghost initial = *state;
    let mut i: usize = 0;
    while i < n_tiles
        invariant
            initial == *old(state),
            initial.wf(),
            n_tiles == initial.patches@.len(),
            n_tiles == initial.positions@.len(),
            n_frames == frames@.len(),
            n_frames > 0,
            n_tiles * n_frames <= usize::MAX,
            forall|f: int| 0 <= f < frames@.len() ==> (#[trigger] frames@[f]).wf(),
            i <= n_tiles,
            state.width == initial.width,
            state.height == initial.height,
            state.tile_size == initial.tile_size,
            state.positions@ == initial.positions@,
            state.origins@ == initial.origins@,
            state.accumulator.width == initial.accumulator.width,
            state.accumulator.height == initial.accumulator.height,
            state.accumulator.pixels@ == initial.accumulator.pixels@,
            state.patches@.len() == n_tiles,
            forall|k: int| 0 <= k < n_tiles ==> (#[trigger] state.patches@[k]).wf(),
            forall|k: int|
                0 <= k < i ==> is_cell_patch(
                    #[trigger] state.patches@[k],
                    frames@[temporal_frame(k, n_tiles as int, n_frames as int)],
                    initial.origins@[k],
                ),
        decreases n_tiles - i,
    {
        proof {
            assert(i * n_frames <= n_tiles * n_frames) by (nonlinear_arith)
                requires
                    i < n_tiles,
            ;
        }
        let f = temporal_frame_index(i, n_tiles, n_frames);
        let origin = state.origins[i];
        assert(initial.origins@[i as int] == origin);
        let fresh = cell_patch(&frames[f], origin);
        state.patches.set(i, fresh);
        i = i + 1;
    }
    let width = state.width;
    let height = state.height;
    let tile_size = state.tile_size;
    let corners = stamp_corners_of(&state.positions);
    let ghost before = state.accumulator.pixels@;
    stamp_trail_tiles(&mut state.accumulator.pixels, width, height, &corners, tile_size, &state.patches);
    proof {
        lemma_restamped_shows_own_stamps(*state, before);
    }
}

/// The patches a frame stamps: fresh footage of every origin cell from the
/// current frame when live refresh is on and the tiles are not temporal,
/// otherwise the patches the tiles already carry.
pub open spec fn refreshed_patches(
    patches: Seq<PatchBits>,
    origins: Seq<TileOrigin>,
    source: ImageBufferBits,
    settings: CascadeTrailSettings,
    fresh: Seq<PatchBits>,
) -> bool {
    &&& fresh.len() == patches.len()
    &&& if settings.live_refresh && !settings.temporal_tiles {
        forall|k: int| 0 <= k < fresh.len() ==> is_cell_patch(#[trigger] fresh[k], source, origins[k])
    } else {
        fresh == patches
    }
}

/// Advection moves the tiles this frame: the settings' `advect` is not zero.
pub open spec fn trails_move(settings: CascadeTrailSettings) -> bool {
    !f32_bits_zero(settings.advect)
}

/// The tiles are stamped off their positions this frame: in the river-root
/// field the oscillation is added at stamp time only, when the tiles move.
pub open spec fn stamps_off_positions(settings: CascadeTrailSettings) -> bool {
    trails_move(settings) && settings.field == CascadeFieldType::RiverRoot
}

/// The patches are re-sampled from the current frame this frame.
pub open spec fn refreshes_patches(settings: CascadeTrailSettings) -> bool {
    settings.live_refresh && !settings.temporal_tiles
}

/// The canvas shows every tile stamped at its corner on top of whatever was
/// there: stamping the tiles again would change no pixel.
pub open spec fn shows_own_stamps(st: CascadeTrailState) -> bool {
    forall|x: int, y: int|
        0 <= x < st.width && 0 <= y < st.height ==> #[trigger] canvas_at(
            st.accumulator.pixels@,
            st.width as int,
            x,
            y,
        ) == painted(
            trail_stamps(stamp_corners(st.positions@), st.tile_size, st.patches@),
            canvas_at(st.accumulator.pixels@, st.width as int, x, y),
            x,
            y,
        )
}

/// A canvas just painted with a state's own stamps shows them on top.
proof fn lemma_restamped_shows_own_stamps(st: CascadeTrailState, before: Seq<[u32; 4]>)
    requires
        forall|x: int, y: int|
            0 <= x < st.width && 0 <= y < st.height ==> #[trigger] canvas_at(
                st.accumulator.pixels@,
                st.width as int,
                x,
                y,
            ) == painted(
                trail_stamps(stamp_corners(st.positions@), st.tile_size, st.patches@),
                canvas_at(before, st.width as int, x, y),
                x,
                y,
            ),
    ensures
        shows_own_stamps(st),
{
    let stamps = trail_stamps(stamp_corners(st.positions@), st.tile_size, st.patches@);
    assert forall|x: int, y: int| 0 <= x < st.width && 0 <= y < st.height implies #[trigger] canvas_at(
        st.accumulator.pixels@,
        st.width as int,
        x,
        y,
    ) == painted(stamps, canvas_at(st.accumulator.pixels@, st.width as int, x, y), x, y) by {
        law_restamping_is_idempotent(stamps, canvas_at(before, st.width as int, x, y), x, y);
    }
}

/// A copy of a list of tile positions.
fn copy_positions(v: &Vec<[u32; 2]>) -> (r: Vec<[u32; 2]>)
    ensures
        r@ == v@,
{
    let mut r: Vec<[u32; 2]> = Vec::new();
    let mut k: usize = 0;
    while k < v.len()
        invariant
            k <= v@.len(),
            r@ == v@.take(k as int),
        decreases v.len() - k,
    {
        r.push(v[k]);
        k = k + 1;
        assert(r@ =~= v@.take(k as int));
    }
    assert(v@.take(v@.len() as int) =~= v@);
    r
}

/// A copy of a list of stamp corners.
fn copy_corners(v: &Vec<[i64; 2]>) -> (r: Vec<[i64; 2]>)
    ensures
        r@ == v@,
{
    let mut r: Vec<[i64; 2]> = Vec::new();
    let mut k: usize = 0;
    while k < v.len()
        invariant
            k <= v@.len(),
            r@ == v@.take(k as int),
        decreases v.len() - k,
    {
        r.push(v[k]);
        k = k + 1;
        assert(r@ =~= v@.take(k as int));
    }
    assert(v@.take(v@.len() as int) =~= v@);
    r
}

/// One frame of the cascade after checking the settings. When `advect` is
/// not zero the tiles take the positions `advected` (this frame's advection
/// of their positions along the field, `f32` bit patterns); otherwise they
/// stay put. When live refresh is on and the tiles are not temporal, every
/// tile's patch is re-sampled from its origin cell in `current_source`. Then
/// every tile is stamped, in tile order, onto the canvas, which is not
/// cleared first: at its position rounded to the nearest pixel, or, in the
/// river-root field while the tiles move, at `root_corners` (its position
/// plus this frame's oscillation, rounded), the oscillation never entering
/// the positions. On a refusal nothing changes.
#[verifier::spinoff_prover]
pub fn advance_cascade_trails(
    state: &mut CascadeTrailState,
    current_source: &ImageBufferBits,
    settings: CascadeTrailSettings,
    advected: &Vec<[u32; 2]>,
    root_corners: &Vec<[i64; 2]>,
) -> (r: Result<(), RenderError>)
    requires
        old(state).wf(),
        current_source.wf(),
        trails_move(settings) ==> advected@.len() == old(state).positions@.len() && corners_fit(
            stamp_corners(advected@),
            old(state).tile_size,
        ),
        stamps_off_positions(settings) ==> root_corners@.len() == old(state).positions@.len()
            && corners_fit(root_corners@, old(state).tile_size),
    ensures
        r is Ok <==> settings.valid(),
        r matches Err(e) ==> e is InvalidCoagulationSettings && *final(state) == *old(state),
        r is Ok ==> {
            let corners = if stamps_off_positions(settings) {
                root_corners@
            } else {
                stamp_corners(final(state).positions@)
            };
            &&& final(state).wf()
            &&& final(state).width == old(state).width
            &&& final(state).height == old(state).height
            &&& final(state).tile_size == old(state).tile_size
            &&& final(state).origins@ == old(state).origins@
            &&& final(state).positions@ == if trails_move(settings) {
                advected@
            } else {
                old(state).positions@
            }
            &&& refreshed_patches(
                old(state).patches@,
                old(state).origins@,
                *current_source,
                settings,
                final(state).patches@,
            )
            &&& final(state).accumulator.width == old(state).accumulator.width
            &&& final(state).accumulator.height == old(state).accumulator.height
            &&& final(state).accumulator.pixels@.len() == old(state).accumulator.pixels@.len()
            &&& forall|x: int, y: int|
                0 <= x < old(state).width && 0 <= y < old(state).height ==> #[trigger] canvas_at(
                    final(state).accumulator.pixels@,
                    old(state).width as int,
                    x,
                    y,
                ) == painted(
                    trail_stamps(corners, old(state).tile_size, final(state).patches@),
                    canvas_at(old(state).accumulator.pixels@, old(state).width as int, x, y),
                    x,
                    y,
                )
            &&& !stamps_off_positions(settings) ==> shows_own_stamps(*final(state))
            &&& (!trails_move(settings) && !refreshes_patches(settings) && shows_own_stamps(*old(state)))
                ==> final(state).accumulator.pixels@ == old(state).accumulator.pixels@
        },
{
    match settings.validate() {
        Ok(()) => {},
        Err(e) => {
            return Err(e);
        },
    }
    let ghost initial = *state;
    let n = state.patches.len();
    if settings.live_refresh && !settings.temporal_tiles {
        let mut i: usize = 0;
        while i < n
            invariant
                initial == *old(state),
                initial.wf(),
                current_source.wf(),
                n == initial.patches@.len(),
                n == initial.origins@.len(),
                i <= n,
                state.width == initial.width,
                state.height == initial.height,
                state.tile_size == initial.tile_size,
                state.positions@ == initial.positions@,
                state.origins@ == initial.origins@,
                state.accumulator == initial.accumulator,
                state.patches@.len() == n,
                forall|k: int| 0 <= k < n ==> (#[trigger] state.patches@[k]).wf(),
                forall|k: int|
                    0 <= k < i ==> is_cell_patch(
                        #[trigger] state.patches@[k],
                        *current_source,
                        initial.origins@[k],
                    ),
            decreases n - i,
        {
            let origin = state.origins[i];
            assert(initial.origins@[i as int] == origin);
            let fresh = cell_patch(current_source, origin);
            state.patches.set(i, fresh);
            i = i + 1;
        }
    }
    let moving = !is_zero_bits(settings.advect);
    if moving {
        state.positions = copy_positions(advected);
    }
    let off_positions = moving && settings.field == CascadeFieldType::RiverRoot;
    let corners = if off_positions {
        copy_corners(root_corners)
    } else {
        stamp_corners_of(&state.positions)
    };
    let width = state.width;
    let height = state.height;
    let tile_size = state.tile_size;
    let ghost before = state.accumulator.pixels@;
    stamp_trail_tiles(&mut state.accumulator.pixels, width, height, &corners, tile_size, &state.patches);
    proof {
        if !off_positions {
            lemma_restamped_shows_own_stamps(*state, before);
        }
        if !moving && !(settings.live_refresh && !settings.temporal_tiles) && shows_own_stamps(initial) {
            assert(state.patches@ == initial.patches@);
            assert(corners@ == stamp_corners(initial.positions@));
            let after = state.accumulator.pixels@;
            assert forall|i: int| 0 <= i < after.len() implies after[i] == before[i] by {
                let w = width as int;
                let x = i % w;
                let y = i / w;
                assert(w > 0 && 0 <= x < w && 0 <= y < height as int && i == y * w + x) by (nonlinear_arith)
                    requires
                        0 <= i < after.len(),
                        after.len() == w * (height as int),
                        w >= 0,
                        x == i % w,
                        y == i / w,
                ;
                assert(canvas_at(after, w, x, y) == canvas_at(before, w, x, y));
            }
            assert(after =~= before);
        }
    }
    Ok(())
}

/// The canvas is never cleared between frames: stamping one frame's tiles
/// over what earlier frames stamped leaves every pixel as stamping all those
/// tiles in one pass, earlier frames first, would; so a pixel that no frame
/// ever stamps keeps the colour it started with.
pub proof fn law_trail_canvas_accumulates(
    earlier: Seq<SquareStamp>,
    later: Seq<SquareStamp>,
    base: [u32; 4],
    x: int,
    y: int,
)
    ensures
        painted(later, painted(earlier, base, x, y), x, y) == painted(earlier + later, base, x, y),
        (forall|j: int| 0 <= j < (earlier + later).len() ==> !stamp_paints(
            #[trigger] (earlier + later)[j],
            x,
            y,
        )) ==> painted(later, painted(earlier, base, x, y), x, y) == base,
    decreases later.len(),
{
    if later.len() > 0 {
        law_trail_canvas_accumulates(earlier, later.drop_last(), base, x, y);
        assert((earlier + later).drop_last() =~= earlier + later.drop_last());
        assert((earlier + later).last() == later.last());
    } else {
        assert(earlier + later =~= earlier);
    }
    if forall|j: int| 0 <= j < (earlier + later).len() ==> !stamp_paints(
        #[trigger] (earlier + later)[j],
        x,
        y,
    ) {
        lemma_painted_untouched(earlier + later, base, x, y);
    }
}

/// A pixel with a colour channel that is not zero (compared as `f32`s).
pub open spec fn rgb_lit(p: [u32; 4]) -> bool {
    !f32_bits_zero(p[0]) || !f32_bits_zero(p[1]) || !f32_bits_zero(p[2])
}

/// Every texel of every patch has a colour channel that is not zero.
pub open spec fn patches_lit(patches: Seq<PatchBits>) -> bool {
    forall|k: int, i: int|
        0 <= k < patches.len() && 0 <= i < patches[k].pixels@.len() ==> {
            let t = #[trigger] patches[k].pixels@[i];
            !f32_bits_zero(t[0]) || !f32_bits_zero(t[1]) || !f32_bits_zero(t[2])
        }
}

/// The texel a painting patch stamp shows lies inside its patch.
proof fn lemma_patch_texel_inside(p: PatchBits, size: int, dx: int, dy: int)
    requires
        p.wf(),
        p.width > 0,
        p.height > 0,
        0 <= dx < size,
        0 <= dy < size,
    ensures
        ({
            let sx = dx * p.width / size;
            let sy = dy * p.height / size;
            let px = if sx < p.width - 1 { sx } else { p.width - 1 };
            let py = if sy < p.height - 1 { sy } else { p.height - 1 };
            &&& 0 <= py * p.width + px < p.pixels@.len()
            &&& patch_texel(p, size, dx, dy) == p.pixels@[py * p.width + px]
        }),
{
    let w = p.width as int;
    let h = p.height as int;
    assert(dx * w / size >= 0 && dy * h / size >= 0) by (nonlinear_arith)
        requires
            dx >= 0,
            dy >= 0,
            w > 0,
            h > 0,
            size > 0,
    ;
    let sx = dx * w / size;
    let sy = dy * h / size;
    let px = if sx < w - 1 { sx } else { w - 1 };
    let py = if sy < h - 1 { sy } else { h - 1 };
    assert(0 <= py * w + px < w * h) by (nonlinear_arith)
        requires
            0 <= px < w,
            0 <= py < h,
    ;
}

/// Trails only add paint: when every texel of every tile's patch has a
/// colour channel that is not zero, a pixel that had such a channel before
/// the tiles were stamped still has one after, so the painted area never
/// shrinks from frame to frame.
pub proof fn law_trail_paint_never_recedes(
    corners: Seq<[i64; 2]>,
    tile_size: u32,
    patches: Seq<PatchBits>,
    base: [u32; 4],
    x: int,
    y: int,
)
    requires
        trail_tiles_wf(corners, tile_size, patches),
        patches_lit(patches),
        rgb_lit(base),
    ensures
        rgb_lit(painted(trail_stamps(corners, tile_size, patches), base, x, y)),
    decreases corners.len(),
{
    let stamps = trail_stamps(corners, tile_size, patches);
    if corners.len() > 0 {
        let n = corners.len() - 1;
        let last = stamps.last();
        assert(stamps.drop_last() =~= trail_stamps(corners.drop_last(), tile_size, patches.drop_last()));
        assert forall|k: int, i: int|
            0 <= k < patches.drop_last().len() && 0 <= i < patches.drop_last()[k].pixels@.len() implies {
            let t = #[trigger] patches.drop_last()[k].pixels@[i];
            !f32_bits_zero(t[0]) || !f32_bits_zero(t[1]) || !f32_bits_zero(t[2])
        } by {
            assert(patches.drop_last()[k] == patches[k]);
            assert(patches[k].pixels@[i] == patches.drop_last()[k].pixels@[i]);
        }
        assert forall|k: int| 0 <= k < patches.drop_last().len() implies (
        #[trigger] patches.drop_last()[k]).wf() by {
            assert(patches.drop_last()[k] == patches[k]);
        }
        assert forall|k: int| 0 <= k < corners.drop_last().len() implies #[trigger] corners.drop_last()[k][0]
            + tile_size <= i64::MAX && corners.drop_last()[k][1] + tile_size <= i64::MAX by {
            assert(corners.drop_last()[k] == corners[k]);
        }
        law_trail_paint_never_recedes(corners.drop_last(), tile_size, patches.drop_last(), base, x, y);
        if stamp_paints(last, x, y) {
            let p = patches[n];
            assert(last.fill == StampFill::Patch(p));
            assert(p.wf());
            lemma_patch_texel_inside(p, tile_size as int, x - last.left, y - last.top);
            let t = patch_texel(p, tile_size as int, x - last.left, y - last.top);
            let sx = (x - last.left) * p.width / (tile_size as int);
            let sy = (y - last.top) * p.height / (tile_size as int);
            let px = if sx < p.width - 1 { sx } else { p.width - 1 };
            let py = if sy < p.height - 1 { sy } else { p.height - 1 };
            assert(t == patches[n].pixels@[py * p.width + px]);
        }
    }
}

} // verus!
