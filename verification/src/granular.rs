//! Grain-grid geometry of the granular mosaic: the descriptor and selection
//! records, the temporal grain pool, and the checks that tie them to the grid
//! of `grain_size` tiles covering a frame.

use vstd::prelude::*;
use crate::error::RenderError;
use crate::float_bits::{f32_bits_finite, f32_bits_in_unit_interval, is_finite_bits, is_unit_interval_bits, all_finite_bits};
use crate::text::{expected_got, push_decimal};
use crate::hashing::{mix64, mix64_spec};
use crate::float_bits::{f32_bits_negative, is_negative_bits};

verus! {

pub const GRANULAR_MOSAIC_ALGORITHM: &'static str = "luma_nearest_grain_cpu_v1";
pub const MULTIMODAL_GRAIN_ALGORITHM: &'static str = "multimodal_nearest_grain_cpu_v1";
pub const POOLED_GRAIN_ALGORITHM: &'static str = "pooled_av_nearest_grain_cpu_v2";
pub const POOLED_AV_AUDIO_ALGORITHM: &'static str = "pooled_av_ola_resynthesis_cpu_v1";

/// Settings of the granular mosaic; `rearrangement` and `variation` are `f32`
/// bit patterns.
#[derive(Debug, Clone, Copy, PartialEq, Eq)]
pub struct GranularMosaicSettings {
    pub grain_size: u32,
    pub rearrangement: u32,
    pub variation: u32,
    pub seed: u64,
}

impl GranularMosaicSettings {
    /// A positive grain size, and rearrangement and variation finite in `[0, 1]`.
    pub open spec fn valid(&self) -> bool {
        &&& self.grain_size > 0
        &&& f32_bits_finite(self.rearrangement)
        &&& f32_bits_in_unit_interval(self.rearrangement)
        &&& f32_bits_finite(self.variation)
        &&& f32_bits_in_unit_interval(self.variation)
    }

    /// Refuses a zero grain size and a rearrangement or variation outside `[0, 1]`.
    pub fn validate(&self) -> (r: Result<(), RenderError>)
        ensures
            r is Ok <==> self.valid(),
            r matches Err(e) ==> e is InvalidGranularMosaicSettings,
    {
        if self.grain_size == 0 {
            return Err(
                RenderError::InvalidGranularMosaicSettings(
                    String::from_str("grain_size must be greater than zero"),
                ),
            );
        }
        if !is_finite_bits(self.rearrangement) || !is_unit_interval_bits(self.rearrangement) {
            return Err(
                RenderError::InvalidGranularMosaicSettings(
                    String::from_str("rearrangement must be a finite value between zero and one"),
                ),
            );
        }
        if !is_finite_bits(self.variation) || !is_unit_interval_bits(self.variation) {
            return Err(
                RenderError::InvalidGranularMosaicSettings(
                    String::from_str("variation must be a finite value between zero and one"),
                ),
            );
        }
        Ok(())
    }
}

/// A carrier tile and its mean luminance (bit pattern of an `f32`).
#[derive(Debug, Clone, Copy, PartialEq, Eq)]
pub struct GrainDescriptor {
    pub index: u32,
    pub origin_x: u32,
    pub origin_y: u32,
    pub mean_luminance: u32,
}

/// A carrier tile and its per-channel mean colour (bit patterns of `f32`s).
#[derive(Debug, Clone, Copy, PartialEq, Eq)]
pub struct GrainColorDescriptor {
    pub index: u32,
    pub origin_x: u32,
    pub origin_y: u32,
    pub mean_color: [u32; 3],
}

/// The grain chosen for every output tile, row-major over `columns` × `rows`.
#[derive(Debug, Clone, PartialEq, Eq)]
pub struct GrainSelection {
    pub columns: u32,
    pub rows: u32,
    pub indices: Vec<u32>,
}

/// A grain of a whole-clip pool: its source frame and tile, mean colour,
/// texture descriptor and audio descriptor (bit patterns of `f32`s).
#[derive(Debug, Clone, PartialEq, Eq)]
pub struct PooledGrainDescriptor {
    pub global_index: u32,
    pub frame_index: u32,
    pub origin_x: u32,
    pub origin_y: u32,
    pub mean_color: [u32; 3],
    pub texture: [u32; 2],
    pub audio: Vec<u32>,
}

/// Grains of several frames sharing one grid, frame-major then row-major.
#[derive(Debug, Clone, PartialEq, Eq)]
pub struct GrainPool {
    pub columns: u32,
    pub rows: u32,
    pub grain_size: u32,
    pub frame_width: u32,
    pub frame_height: u32,
    pub audio_dims: usize,
    pub grains: Vec<PooledGrainDescriptor>,
}

/// Which pool frames a selection may draw grains from.
#[derive(Debug, Clone, Copy, PartialEq, Eq)]
pub enum PoolSelectionWindow {
    WholeClip,
    Trailing { current_frame: u32, frames: u32 },
}

/// `value / divisor` rounded up.
pub open spec fn div_ceil_spec(value: int, divisor: int) -> int {
    value / divisor + if value % divisor != 0 {
        1int
    } else {
        0int
    }
}

/// Grid cell `i` (row-major over `columns`) starts at this column pixel.
pub open spec fn grid_origin_x(i: int, columns: int, grain_size: int) -> int {
    (i % columns) * grain_size
}

/// Grid cell `i` (row-major over `columns`) starts at this row pixel.
pub open spec fn grid_origin_y(i: int, columns: int, grain_size: int) -> int {
    (i / columns) * grain_size
}

/// Luma descriptors that match the carrier grain grid one to one.
pub open spec fn descriptors_on_grid(
    descriptors: Seq<GrainDescriptor>,
    width: u32,
    height: u32,
    grain_size: u32,
) -> bool {
    let columns = div_ceil_spec(width as int, grain_size as int);
    let rows = div_ceil_spec(height as int, grain_size as int);
    &&& descriptors.len() == columns * rows
    &&& forall|i: int|
        0 <= i < descriptors.len() ==> {
            let d = #[trigger] descriptors[i];
            &&& d.index == i
            &&& d.origin_x == grid_origin_x(i, columns, grain_size as int)
            &&& d.origin_y == grid_origin_y(i, columns, grain_size as int)
            &&& f32_bits_finite(d.mean_luminance)
        }
}

/// Colour descriptors that match the carrier grain grid one to one.
pub open spec fn color_descriptors_on_grid(
    descriptors: Seq<GrainColorDescriptor>,
    width: u32,
    height: u32,
    grain_size: u32,
) -> bool {
    let columns = div_ceil_spec(width as int, grain_size as int);
    let rows = div_ceil_spec(height as int, grain_size as int);
    &&& descriptors.len() == columns * rows
    &&& forall|i: int|
        0 <= i < descriptors.len() ==> {
            let d = #[trigger] descriptors[i];
            &&& d.index == i
            &&& d.origin_x == grid_origin_x(i, columns, grain_size as int)
            &&& d.origin_y == grid_origin_y(i, columns, grain_size as int)
            &&& f32_bits_finite(d.mean_color[0])
            &&& f32_bits_finite(d.mean_color[1])
            &&& f32_bits_finite(d.mean_color[2])
        }
}

/// A selection over the output grid whose every index names one of
/// `descriptor_count` grains.
pub open spec fn selection_on_grid(
    selection: GrainSelection,
    descriptor_count: int,
    width: u32,
    height: u32,
    grain_size: u32,
) -> bool {
    let columns = div_ceil_spec(width as int, grain_size as int);
    let rows = div_ceil_spec(height as int, grain_size as int);
    &&& selection.columns == columns
    &&& selection.rows == rows
    &&& selection.indices@.len() == columns * rows
    &&& forall|i: int|
        0 <= i < selection.indices@.len() ==> #[trigger] selection.indices@[i] < descriptor_count
}

/// One pool grain sits at position `i` of a pool with `per_frame` grains per frame.
pub open spec fn pool_grain_on_grid(
    g: PooledGrainDescriptor,
    i: int,
    per_frame: int,
    columns: int,
    grain_size: int,
    audio_dims: int,
) -> bool {
    let within = i % per_frame;
    &&& g.global_index == i
    &&& g.frame_index == i / per_frame
    &&& g.origin_x == grid_origin_x(within, columns, grain_size)
    &&& g.origin_y == grid_origin_y(within, columns, grain_size)
    &&& g.audio@.len() == audio_dims
    &&& f32_bits_finite(g.mean_color[0])
    &&& f32_bits_finite(g.mean_color[1])
    &&& f32_bits_finite(g.mean_color[2])
    &&& f32_bits_finite(g.texture[0])
    &&& f32_bits_finite(g.texture[1])
    &&& forall|k: int| 0 <= k < g.audio@.len() ==> f32_bits_finite(#[trigger] g.audio@[k])
}

/// A pool for `grain_size` grains: a non-empty whole number of frame grids,
/// every grain in its frame-major, row-major place.
pub open spec fn pool_valid(pool: GrainPool, grain_size: u32) -> bool {
    let columns = div_ceil_spec(pool.frame_width as int, grain_size as int);
    let rows = div_ceil_spec(pool.frame_height as int, grain_size as int);
    let per_frame = columns * rows;
    &&& pool.grain_size == grain_size
    &&& pool.grains@.len() > 0
    &&& pool.columns == columns
    &&& pool.rows == rows
    &&& per_frame > 0
    &&& (pool.grains@.len() as int) % per_frame == 0
    &&& forall|i: int|
        0 <= i < pool.grains@.len() ==> pool_grain_on_grid(
            #[trigger] pool.grains@[i],
            i,
            per_frame,
            columns,
            grain_size as int,
            pool.audio_dims as int,
        )
}

/// The eligible grain range `[start, end)` of a pool with `columns` × `rows`
/// grains per frame and `len` grains under `window`.
pub open spec fn eligible_range_spec(
    columns: u32,
    rows: u32,
    len: int,
    window: PoolSelectionWindow,
) -> (int, int) {
    let per_frame = columns as int * rows as int;
    match window {
        PoolSelectionWindow::WholeClip => (0, len),
        PoolSelectionWindow::Trailing { current_frame, frames } => {
            if frames == 0 || per_frame == 0 || len / per_frame == 0 {
                (0, len)
            } else {
                let frame_count = len / per_frame;
                let current = if current_frame < frame_count {
                    current_frame as int
                } else {
                    frame_count - 1
                };
                let start_frame = if current >= frames - 1 {
                    current - (frames - 1)
                } else {
                    0
                };
                (start_frame * per_frame, (current + 1) * per_frame)
            }
        },
    }
}

/// `value / divisor` rounded up.
pub fn div_ceil(value: u32, divisor: u32) -> (r: u32)
    requires
        divisor > 0,
    ensures
        r == div_ceil_spec(value as int, divisor as int),
{
    proof {
        assert(value / divisor < u32::MAX || value % divisor == 0) by (nonlinear_arith)
            requires
                divisor > 0,
                value <= u32::MAX,
        ;
    }
    value / divisor + if value % divisor != 0 {
        1u32
    } else {
        0u32
    }
}

/// `a * b` computed without overflow in 64 bits.
pub fn wide_mul(a: u32, b: u32) -> (r: u64)
    ensures
        r == a * b,
{
    assert(a * b <= u64::MAX) by (nonlinear_arith)
        requires
            a <= u32::MAX,
            b <= u32::MAX,
    ;
    a as u64 * b as u64
}

proof fn lemma_div_ceil_cover(value: int, divisor: int)
    requires
        divisor > 0,
        value >= 0,
    ensures
        (div_ceil_spec(value, divisor) - 1) * divisor < value || div_ceil_spec(value, divisor)
            == 0,
        div_ceil_spec(value, divisor) >= 0,
{
    assert((div_ceil_spec(value, divisor) - 1) * divisor < value || div_ceil_spec(value, divisor)
        == 0) by (nonlinear_arith)
        requires
            divisor > 0,
            value >= 0,
    ;
}

/// Cell `i` of a grid with `cells` cells has its row below the row count and
/// its origins inside the frame.
proof fn lemma_grid_cell_bounds(i: int, columns: int, rows: int, grain_size: int, width: int, height: int)
    requires
        0 <= i < columns * rows,
        grain_size > 0,
        width >= 0,
        height >= 0,
        columns == div_ceil_spec(width, grain_size),
        rows == div_ceil_spec(height, grain_size),
    ensures
        columns > 0,
        0 <= i / columns < rows,
        0 <= i % columns < columns,
        0 <= grid_origin_x(i, columns, grain_size) < width,
        0 <= grid_origin_y(i, columns, grain_size) < height,
{
    lemma_div_ceil_cover(width, grain_size);
    lemma_div_ceil_cover(height, grain_size);
    assert(columns > 0) by (nonlinear_arith)
        requires
            0 <= i < columns * rows,
            rows >= 0,
    ;
    assert(0 <= i / columns < rows && 0 <= i % columns < columns) by (nonlinear_arith)
        requires
            0 <= i < columns * rows,
            columns > 0,
    ;
    let a = i % columns;
    let b = i / columns;
    assert(0 <= a * grain_size <= (columns - 1) * grain_size) by (nonlinear_arith)
        requires
            0 <= a < columns,
            grain_size > 0,
    ;
    assert(0 <= b * grain_size <= (rows - 1) * grain_size) by (nonlinear_arith)
        requires
            0 <= b < rows,
            grain_size > 0,
    ;
}

/// Whether every luma descriptor sits at its row-major grid cell with a
/// finite luminance, for a descriptor count already equal to the cell count.
pub fn luma_descriptors_match_grid(
    descriptors: &[GrainDescriptor],
    width: u32,
    height: u32,
    grain_size: u32,
) -> (r: bool)
    requires
        grain_size > 0,
        descriptors@.len() == div_ceil_spec(width as int, grain_size as int) * div_ceil_spec(
            height as int,
            grain_size as int,
        ),
    ensures
        r == descriptors_on_grid(descriptors@, width, height, grain_size),
{
    let columns = div_ceil(width, grain_size);
    let rows = div_ceil(height, grain_size);
    let mut i: usize = 0;
    while i < descriptors.len()
        invariant
            columns == div_ceil_spec(width as int, grain_size as int),
            rows == div_ceil_spec(height as int, grain_size as int),
            grain_size > 0,
            descriptors@.len() == columns * rows,
            i <= descriptors@.len(),
            forall|k: int|
                0 <= k < i ==> {
                    let d = #[trigger] descriptors@[k];
                    &&& d.index == k
                    &&& d.origin_x == grid_origin_x(k, columns as int, grain_size as int)
                    &&& d.origin_y == grid_origin_y(k, columns as int, grain_size as int)
                    &&& f32_bits_finite(d.mean_luminance)
                },
        decreases descriptors.len() - i,
    {
        proof {
            lemma_grid_cell_bounds(
                i as int,
                columns as int,
                rows as int,
                grain_size as int,
                width as int,
                height as int,
            );
        }
        let d = descriptors[i];
        let ex = (i as u64 % columns as u64) * grain_size as u64;
        let ey = (i as u64 / columns as u64) * grain_size as u64;
        if d.index as u64 != i as u64 || d.origin_x as u64 != ex || d.origin_y as u64 != ey
            || !is_finite_bits(d.mean_luminance) {
            return false;
        }
        i = i + 1;
    }
    true
}

/// Whether every colour descriptor sits at its row-major grid cell with a
/// finite colour, for a descriptor count already equal to the cell count.
pub fn color_descriptors_match_grid(
    descriptors: &[GrainColorDescriptor],
    width: u32,
    height: u32,
    grain_size: u32,
) -> (r: bool)
    requires
        grain_size > 0,
        descriptors@.len() == div_ceil_spec(width as int, grain_size as int) * div_ceil_spec(
            height as int,
            grain_size as int,
        ),
    ensures
        r == color_descriptors_on_grid(descriptors@, width, height, grain_size),
{
    let columns = div_ceil(width, grain_size);
    let rows = div_ceil(height, grain_size);
    let mut i: usize = 0;
    while i < descriptors.len()
        invariant
            columns == div_ceil_spec(width as int, grain_size as int),
            rows == div_ceil_spec(height as int, grain_size as int),
            grain_size > 0,
            descriptors@.len() == columns * rows,
            i <= descriptors@.len(),
            forall|k: int|
                0 <= k < i ==> {
                    let d = #[trigger] descriptors@[k];
                    &&& d.index == k
                    &&& d.origin_x == grid_origin_x(k, columns as int, grain_size as int)
                    &&& d.origin_y == grid_origin_y(k, columns as int, grain_size as int)
                    &&& f32_bits_finite(d.mean_color[0])
                    &&& f32_bits_finite(d.mean_color[1])
                    &&& f32_bits_finite(d.mean_color[2])
                },
        decreases descriptors.len() - i,
    {
        proof {
            lemma_grid_cell_bounds(
                i as int,
                columns as int,
                rows as int,
                grain_size as int,
                width as int,
                height as int,
            );
        }
        let d = descriptors[i];
        let ex = (i as u64 % columns as u64) * grain_size as u64;
        let ey = (i as u64 / columns as u64) * grain_size as u64;
        if d.index as u64 != i as u64 || d.origin_x as u64 != ex || d.origin_y as u64 != ey
            || !is_finite_bits(d.mean_color[0]) || !is_finite_bits(d.mean_color[1])
            || !is_finite_bits(d.mean_color[2]) {
            return false;
        }
        i = i + 1;
    }
    true
}

/// Checks that luma descriptors match the carrier grain grid one to one and
/// carry finite luminances.
pub fn validate_descriptors(
    descriptors: &[GrainDescriptor],
    carrier_width: u32,
    carrier_height: u32,
    grain_size: u32,
) -> (r: Result<(), RenderError>)
    requires
        grain_size > 0,
    ensures
        r is Ok <==> descriptors_on_grid(descriptors@, carrier_width, carrier_height, grain_size),
        r matches Err(e) ==> e is InvalidGranularMosaicSettings,
{
    let columns = div_ceil(carrier_width, grain_size);
    let rows = div_ceil(carrier_height, grain_size);
    let expected = wide_mul(columns, rows);
    if descriptors.len() as u64 != expected {
        return Err(
            RenderError::InvalidGranularMosaicSettings(
                expected_got(expected, "grain descriptors", descriptors.len() as u64),
            ),
        );
    }
    if !luma_descriptors_match_grid(descriptors, carrier_width, carrier_height, grain_size) {
        return Err(
            RenderError::InvalidGranularMosaicSettings(
                String::from_str("grain descriptors do not match the carrier grid"),
            ),
        );
    }
    Ok(())
}

/// Checks that colour descriptors match the carrier grain grid one to one and
/// carry finite colours.
pub fn validate_color_descriptors(
    descriptors: &[GrainColorDescriptor],
    carrier_width: u32,
    carrier_height: u32,
    grain_size: u32,
) -> (r: Result<(), RenderError>)
    requires
        grain_size > 0,
    ensures
        r is Ok <==> color_descriptors_on_grid(
            descriptors@,
            carrier_width,
            carrier_height,
            grain_size,
        ),
        r matches Err(e) ==> e is InvalidGranularMosaicSettings,
{
    let columns = div_ceil(carrier_width, grain_size);
    let rows = div_ceil(carrier_height, grain_size);
    let expected = wide_mul(columns, rows);
    if descriptors.len() as u64 != expected {
        return Err(
            RenderError::InvalidGranularMosaicSettings(
                expected_got(expected, "grain descriptors", descriptors.len() as u64),
            ),
        );
    }
    if !color_descriptors_match_grid(descriptors, carrier_width, carrier_height, grain_size) {
        return Err(
            RenderError::InvalidGranularMosaicSettings(
                String::from_str("grain descriptors do not match the carrier grid"),
            ),
        );
    }
    Ok(())
}

/// Checks that a selection covers the output grid and names only known grains.
pub fn validate_selection(
    selection: &GrainSelection,
    descriptor_count: usize,
    carrier_width: u32,
    carrier_height: u32,
    grain_size: u32,
) -> (r: Result<(), RenderError>)
    requires
        grain_size > 0,
    ensures
        r is Ok <==> selection_on_grid(
            *selection,
            descriptor_count as int,
            carrier_width,
            carrier_height,
            grain_size,
        ),
        r matches Err(e) ==> e is InvalidGranularMosaicSettings,
{
    let columns = div_ceil(carrier_width, grain_size);
    let rows = div_ceil(carrier_height, grain_size);
    if selection.columns != columns || selection.rows != rows {
        return Err(
            RenderError::InvalidGranularMosaicSettings(
                String::from_str("grain selection dimensions do not match the carrier grid"),
            ),
        );
    }
    let expected = wide_mul(columns, rows);
    if selection.indices.len() as u64 != expected {
        return Err(
            RenderError::InvalidGranularMosaicSettings(
                expected_got(expected, "grain selections", selection.indices.len() as u64),
            ),
        );
    }
    let mut i: usize = 0;
    while i < selection.indices.len()
        invariant
            i <= selection.indices@.len(),
            forall|k: int| 0 <= k < i ==> #[trigger] selection.indices@[k] < descriptor_count,
        decreases selection.indices.len() - i,
    {
        if selection.indices[i] as usize >= descriptor_count {
            return Err(
                RenderError::InvalidGranularMosaicSettings(
                    String::from_str("grain selection references an unknown descriptor"),
                ),
            );
        }
        i = i + 1;
    }
    Ok(())
}

/// Whether one pool grain sits in its place and carries finite descriptors.
fn pool_grain_matches(
    g: &PooledGrainDescriptor,
    i: usize,
    per_frame: u64,
    columns: u32,
    grain_size: u32,
    audio_dims: usize,
) -> (r: bool)
    requires
        per_frame > 0,
        columns > 0,
        (per_frame - 1) / (columns as int) * grain_size <= u64::MAX,
    ensures
        r == pool_grain_on_grid(
            *g,
            i as int,
            per_frame as int,
            columns as int,
            grain_size as int,
            audio_dims as int,
        ),
{
    let within = i as u64 % per_frame;
    proof {
        assert(within / (columns as u64) <= (per_frame - 1) / (columns as int)) by (nonlinear_arith)
            requires
                within < per_frame,
                columns > 0,
        ;
        assert((within / (columns as u64)) * grain_size <= (per_frame - 1) / (columns as int)
            * grain_size) by (nonlinear_arith)
            requires
                within / (columns as u64) <= (per_frame - 1) / (columns as int),
        ;
    }
    proof {
        assert((within % columns as u64) * grain_size <= u64::MAX) by (nonlinear_arith)
            requires
                within % columns as u64 <= u32::MAX,
                grain_size <= u32::MAX,
                columns > 0,
        ;
    }
    let ex = (within % columns as u64) * grain_size as u64;
    let ey = (within / columns as u64) * grain_size as u64;
    g.global_index as u64 == i as u64 && g.frame_index as u64 == i as u64 / per_frame
        && g.origin_x as u64 == ex && g.origin_y as u64 == ey && g.audio.len() == audio_dims
        && is_finite_bits(g.mean_color[0]) && is_finite_bits(g.mean_color[1]) && is_finite_bits(
        g.mean_color[2],
    ) && is_finite_bits(g.texture[0]) && is_finite_bits(g.texture[1]) && all_finite_bits(
        g.audio.as_slice(),
    )
}

/// Checks that a pool was built for `grain_size` grains and that every grain
/// sits in its frame-major, row-major place with finite descriptors.
pub fn validate_pool(pool: &GrainPool, grain_size: u32) -> (r: Result<(), RenderError>)
    requires
        grain_size > 0,
    ensures
        r is Ok <==> pool_valid(*pool, grain_size),
        r matches Err(e) ==> e is InvalidGranularMosaicSettings,
{
    if grain_size != pool.grain_size {
        return Err(
            RenderError::InvalidGranularMosaicSettings(
                String::from_str("grain_size does not match the grain pool"),
            ),
        );
    }
    if pool.grains.len() == 0 {
        return Err(
            RenderError::InvalidGranularMosaicSettings(String::from_str("grain pool is empty")),
        );
    }
    let columns = div_ceil(pool.frame_width, grain_size);
    let rows = div_ceil(pool.frame_height, grain_size);
    if pool.columns != columns || pool.rows != rows {
        return Err(
            RenderError::InvalidGranularMosaicSettings(
                String::from_str("grain pool grid does not match its frame dimensions"),
            ),
        );
    }
    let per_frame = wide_mul(columns, rows);
    if per_frame == 0 || pool.grains.len() as u64 % per_frame != 0 {
        return Err(
            RenderError::InvalidGranularMosaicSettings(
                String::from_str("grain pool size is not a whole number of frame grids"),
            ),
        );
    }
    proof {
        lemma_div_ceil_cover(pool.frame_height as int, grain_size as int);
        assert(columns > 0) by (nonlinear_arith)
            requires
                per_frame == columns * rows,
                per_frame > 0,
                rows >= 0,
        ;
        assert((per_frame - 1) / (columns as int) < rows as int) by (nonlinear_arith)
            requires
                per_frame == columns * rows,
                columns > 0,
                per_frame > 0,
        ;
        assert((per_frame - 1) / (columns as int) * grain_size <= rows * grain_size)
            by (nonlinear_arith)
            requires
                (per_frame - 1) / (columns as int) < rows as int,
                (per_frame - 1) / (columns as int) >= 0,
                grain_size > 0,
        ;
        assert(rows * grain_size <= u64::MAX) by (nonlinear_arith)
            requires
                rows <= u32::MAX,
                grain_size <= u32::MAX,
        ;
    }
    let mut i: usize = 0;
    while i < pool.grains.len()
        invariant
            per_frame == columns as int * rows as int,
            columns == div_ceil_spec(pool.frame_width as int, grain_size as int),
            rows == div_ceil_spec(pool.frame_height as int, grain_size as int),
            pool.columns == columns,
            pool.rows == rows,
            pool.grain_size == grain_size,
            pool.grains@.len() > 0,
            (pool.grains@.len() as int) % (per_frame as int) == 0,
            per_frame > 0,
            columns > 0,
            (per_frame - 1) / (columns as int) * grain_size <= u64::MAX,
            i <= pool.grains@.len(),
            forall|k: int|
                0 <= k < i ==> pool_grain_on_grid(
                    #[trigger] pool.grains@[k],
                    k,
                    per_frame as int,
                    columns as int,
                    grain_size as int,
                    pool.audio_dims as int,
                ),
        decreases pool.grains.len() - i,
    {
        if !pool_grain_matches(&pool.grains[i], i, per_frame, columns, grain_size, pool.audio_dims) {
            assert(!pool_grain_on_grid(
                pool.grains@[i as int],
                i as int,
                per_frame as int,
                columns as int,
                grain_size as int,
                pool.audio_dims as int,
            ));
            return Err(
                RenderError::InvalidGranularMosaicSettings(
                    String::from_str("grain pool descriptors do not match the pool geometry"),
                ),
            );
        }
        i = i + 1;
    }
    Ok(())
}

/// The contiguous global-index range `[start, end)` of grains eligible under
/// `window`. Because grains are stored frame-major, a trailing window of
/// `frames` frames ending at `current_frame` (clamped to the last frame) is
/// one contiguous slice.
pub fn eligible_grain_range(pool: &GrainPool, window: PoolSelectionWindow) -> (r: (usize, usize))
    ensures
        r.0 == eligible_range_spec(pool.columns, pool.rows, pool.grains@.len() as int, window).0,
        r.1 == eligible_range_spec(pool.columns, pool.rows, pool.grains@.len() as int, window).1,
        r.0 <= r.1 <= pool.grains@.len(),
{
    let len = pool.grains.len();
    let per_frame = wide_mul(pool.columns, pool.rows);
    match window {
        PoolSelectionWindow::WholeClip => (0, len),
        PoolSelectionWindow::Trailing { current_frame, frames } => {
            if frames == 0 || per_frame == 0 || per_frame > len as u64 {
                proof {
                    if per_frame > len as u64 && per_frame > 0 {
                        assert(len as int / per_frame as int == 0) by (nonlinear_arith)
                            requires
                                per_frame > len,
                                len >= 0,
                        ;
                    }
                }
                return (0, len);
            }
            let pf = per_frame as usize;
            let frame_count = len / pf;
            proof {
                assert(frame_count >= 1) by (nonlinear_arith)
                    requires
                        pf <= len,
                        pf > 0,
                        frame_count == len / pf,
                ;
            }
            let current = if (current_frame as usize) < frame_count {
                current_frame as usize
            } else {
                frame_count - 1
            };
            let start_frame = if current >= frames as usize - 1 {
                current - (frames as usize - 1)
            } else {
                0
            };
            proof {
                assert((current + 1) * pf <= len) by (nonlinear_arith)
                    requires
                        current < frame_count,
                        frame_count == len / pf,
                        pf > 0,
                ;
                assert(start_frame * pf <= (current + 1) * pf) by (nonlinear_arith)
                    requires
                        start_frame <= current + 1,
                        pf > 0,
                ;
            }
            (start_frame * pf, (current + 1) * pf)
        },
    }
}

/// The key that an output tile's grid position and the seed hash.
pub open spec fn grain_tile_key(seed: u64, tile_x: u32, tile_y: u32) -> u64 {
    seed ^ (tile_x as u64).wrapping_mul(0x9e37_79b9_7f4a_7c15) ^ (tile_y as u64).wrapping_mul(
        0xbf58_476d_1ce4_e5b9,
    )
}

/// The hash of an output tile's grid position under the seed.
pub fn tile_hash(seed: u64, tile_x: u32, tile_y: u32) -> (r: u64)
    ensures
        r == mix64_spec(grain_tile_key(seed, tile_x, tile_y)),
{
    mix64(
        seed ^ (tile_x as u64).wrapping_mul(0x9e37_79b9_7f4a_7c15) ^ (tile_y as u64).wrapping_mul(
            0xbf58_476d_1ce4_e5b9,
        ),
    )
}

/// The seeded alternate grain of an output tile among `count` candidates
/// that start at index `start`.
pub fn seeded_alternate(seed: u64, tile_x: u32, tile_y: u32, start: u64, count: u64) -> (r: u64)
    requires
        count > 0,
        start + count <= u64::MAX,
    ensures
        r == start + mix64_spec(grain_tile_key(seed, tile_x, tile_y)) % count,
        start <= r < start + count,
{
    start + tile_hash(seed, tile_x, tile_y) % count
}

/// Candidate `k` is at least as near as candidate `j`: a smaller distance
/// key, ties broken by the smaller id.
pub open spec fn no_farther(keys: Seq<u32>, ids: Seq<u32>, k: int, j: int) -> bool {
    keys[k] < keys[j] || (keys[k] == keys[j] && ids[k] <= ids[j])
}

/// The id of the nearest candidate: the smallest distance key, ties broken by
/// the smallest id; `0` when there is no candidate. A key is any integer
/// whose order is the order of the candidates' distances.
pub fn nearest_id(keys: &[u32], ids: &[u32]) -> (r: u32)
    requires
        keys@.len() == ids@.len(),
    ensures
        keys@.len() == 0 ==> r == 0,
        keys@.len() > 0 ==> exists|k: int|
            0 <= k < keys@.len() && ids@[k] == r && forall|j: int|
                0 <= j < keys@.len() ==> no_farther(keys@, ids@, k, j),
{
    if keys.len() == 0 {
        return 0;
    }
    let mut best: usize = 0;
    let mut i: usize = 1;
    while i < keys.len()
        invariant
            keys@.len() == ids@.len(),
            0 <= best < i <= keys@.len(),
            forall|j: int| 0 <= j < i ==> no_farther(keys@, ids@, best as int, j),
        decreases keys.len() - i,
    {
        if keys[i] < keys[best] || (keys[i] == keys[best] && ids[i] < ids[best]) {
            proof {
                assert forall|j: int| 0 <= j < i + 1 implies no_farther(keys@, ids@, i as int, j) by {
                    if j < i {
                        assert(no_farther(keys@, ids@, best as int, j));
                    }
                }
            }
            best = i;
        }
        i = i + 1;
    }
    ids[best]
}

/// The global indices of the grains of the window `[start, end)`, in order.
pub open spec fn window_ids(grains: Seq<PooledGrainDescriptor>, start: int, end: int) -> Seq<u32> {
    Seq::new((end - start) as nat, |j: int| grains[start + j].global_index)
}

/// The two grains an output tile of a pool selection blends between: the
/// nearest grain of the window (the smallest distance key, ties to the
/// smaller global index; `keys` holds one key per grain of the window, in
/// pool order, any penalties already added) and the seeded alternate among
/// the window's grains.
#[verifier::spinoff_prover]
pub fn pick_pool_grain(
    pool: &GrainPool,
    window: PoolSelectionWindow,
    keys: &[u32],
    seed: u64,
    tile_x: u32,
    tile_y: u32,
) -> (r: (u32, u64))
    requires
        pool.grains@.len() > 0,
        keys@.len() == eligible_range_spec(pool.columns, pool.rows, pool.grains@.len() as int, window).1
            - eligible_range_spec(pool.columns, pool.rows, pool.grains@.len() as int, window).0,
    ensures
        ({
            let (start, end) = eligible_range_spec(pool.columns, pool.rows, pool.grains@.len() as int, window);
            let ids = window_ids(pool.grains@, start, end);
            &&& start < end
            &&& exists|k: int|
                0 <= k < keys@.len() && ids[k] == r.0 && forall|j: int|
                    0 <= j < keys@.len() ==> no_farther(keys@, ids, k, j)
            &&& r.1 == start + (mix64_spec(grain_tile_key(seed, tile_x, tile_y)) as int) % (end - start)
        }),
{
    let (start, end) = eligible_grain_range(pool, window);
    proof {
        let per_frame = pool.columns as int * pool.rows as int;
        let len = pool.grains@.len() as int;
        if let PoolSelectionWindow::Trailing { current_frame, frames } = window {
            if !(frames == 0 || per_frame == 0 || len / per_frame == 0) {
                let frame_count = len / per_frame;
                let current = if current_frame < frame_count {
                    current_frame as int
                } else {
                    frame_count - 1
                };
                let start_frame = if current >= frames - 1 {
                    current - (frames - 1)
                } else {
                    0
                };
                assert(start_frame * per_frame < (current + 1) * per_frame) by (nonlinear_arith)
                    requires
                        0 <= start_frame <= current,
                        per_frame > 0,
                ;
            }
        }
    }
    let mut ids: Vec<u32> = Vec::new();
    let mut i: usize = start;
    while i < end
        invariant
            start <= i <= end <= pool.grains@.len(),
            ids@.len() == i - start,
            forall|j: int| 0 <= j < ids@.len() ==> #[trigger] ids@[j] == pool.grains@[start + j].global_index,
        decreases end - i,
    {
        ids.push(pool.grains[i].global_index);
        i = i + 1;
    }
    assert(ids@ =~= window_ids(pool.grains@, start as int, end as int));
    let feature = nearest_id(keys, ids.as_slice());
    let alternate = seeded_alternate(seed, tile_x, tile_y, start as u64, (end - start) as u64);
    (feature, alternate)
}

/// The source frame and origin of the grain an output tile picked on the
/// previous frame, if it picked one that is in the pool.
pub fn previous_pick(prev_selection: &[Option<u32>], tile_index: usize, pool: &GrainPool) -> (r:
    Option<(u32, u32, u32)>)
    ensures
        r == (if tile_index < prev_selection@.len() && prev_selection@[tile_index as int] is Some
            && (prev_selection@[tile_index as int]->0 as int) < pool.grains@.len() {
            let g = pool.grains@[prev_selection@[tile_index as int]->0 as int];
            Some((g.frame_index, g.origin_x, g.origin_y))
        } else {
            None::<(u32, u32, u32)>
        }),
{
    if tile_index >= prev_selection.len() {
        return None;
    }
    match prev_selection[tile_index] {
        None => None,
        Some(global) => {
            if (global as usize) < pool.grains.len() {
                let g = &pool.grains[global as usize];
                Some((g.frame_index, g.origin_x, g.origin_y))
            } else {
                None
            }
        },
    }
}

/// The query a pool selection is asked to match: settings valid, the pool on
/// its grid, an audio query of the pool's width, finite non-negative weights
/// and finite audio values.
pub open spec fn pool_query_valid(
    settings: GranularMosaicSettings,
    pool: GrainPool,
    query_audio: Seq<u32>,
    audio_weight: u32,
    texture_weight: u32,
) -> bool {
    &&& settings.valid()
    &&& pool_valid(pool, settings.grain_size)
    &&& query_audio.len() == pool.audio_dims
    &&& f32_bits_finite(audio_weight) && !f32_bits_negative(audio_weight)
    &&& f32_bits_finite(texture_weight) && !f32_bits_negative(texture_weight)
    &&& forall|k: int| 0 <= k < query_audio.len() ==> f32_bits_finite(#[trigger] query_audio[k])
}

/// Checks the inputs of a pool selection in the order the selection checks
/// them: the settings, the pool, the audio query's width, the two weights,
/// and the audio values.
pub fn check_pool_query(
    settings: &GranularMosaicSettings,
    pool: &GrainPool,
    query_audio: &[u32],
    audio_weight: u32,
    texture_weight: u32,
) -> (r: Result<(), RenderError>)
    ensures
        r is Ok <==> pool_query_valid(*settings, *pool, query_audio@, audio_weight, texture_weight),
        r matches Err(e) ==> e is InvalidGranularMosaicSettings,
{
    settings.validate()?;
    validate_pool(pool, settings.grain_size)?;
    if query_audio.len() != pool.audio_dims {
        let mut d = String::from_str("query audio length ");
        push_decimal(&mut d, query_audio.len() as u64);
        d.append(" does not match pool audio dims ");
        push_decimal(&mut d, pool.audio_dims as u64);
        return Err(RenderError::InvalidGranularMosaicSettings(d));
    }
    if !is_finite_bits(audio_weight) || is_negative_bits(audio_weight) {
        return Err(
            RenderError::InvalidGranularMosaicSettings(
                String::from_str("audio_weight must be a finite, non-negative value"),
            ),
        );
    }
    if !is_finite_bits(texture_weight) || is_negative_bits(texture_weight) {
        return Err(
            RenderError::InvalidGranularMosaicSettings(
                String::from_str("texture_weight must be a finite, non-negative value"),
            ),
        );
    }
    if !all_finite_bits(query_audio) {
        return Err(
            RenderError::InvalidGranularMosaicSettings(
                String::from_str("query audio descriptors must be finite"),
            ),
        );
    }
    Ok(())
}

/// How many frames of its cooldown a grain still has to serve: `0` unless
/// the grain was last used `age` frames before `current_frame` with
/// `0 < age < cooldown`, and then `cooldown - age`. The anti-repeat penalty
/// is the weight times this over the cooldown.
pub open spec fn cooldown_remaining_spec(
    last_used: Seq<Option<u32>>,
    global_index: u32,
    current_frame: u32,
    cooldown: u32,
) -> int {
    if cooldown == 0 || global_index >= last_used.len() {
        0
    } else {
        match last_used[global_index as int] {
            None => 0,
            Some(used) => if current_frame <= used || current_frame - used >= cooldown {
                0
            } else {
                cooldown - (current_frame - used)
            },
        }
    }
}

/// The frames of cooldown a grain still has to serve at `current_frame`.
pub fn cooldown_remaining(last_used: &[Option<u32>], global_index: u32, current_frame: u32, cooldown: u32) -> (r: u32)
    ensures
        r == cooldown_remaining_spec(last_used@, global_index, current_frame, cooldown),
        r < cooldown || r == 0,
{
    if cooldown == 0 || global_index as usize >= last_used.len() {
        return 0;
    }
    match last_used[global_index as usize] {
        None => 0,
        Some(used) => {
            if current_frame <= used {
                return 0;
            }
            let age = current_frame - used;
            if age >= cooldown {
                0
            } else {
                cooldown - age
            }
        },
    }
}

/// The distance between two frame indices.
pub open spec fn frame_gap(a: u32, b: u32) -> int {
    if a >= b {
        a - b
    } else {
        b - a
    }
}

/// How far a candidate's source frame is from the previous pick's, capped
/// at `reach`: the frame-continuity penalty is the weight times this over
/// the reach.
pub fn frame_distance(candidate_frame: u32, previous_frame: u32, reach: u32) -> (r: u32)
    ensures
        r == (if frame_gap(candidate_frame, previous_frame) < reach {
            frame_gap(candidate_frame, previous_frame)
        } else {
            reach as int
        }),
{
    let delta = if candidate_frame >= previous_frame {
        candidate_frame - previous_frame
    } else {
        previous_frame - candidate_frame
    };
    if delta < reach {
        delta
    } else {
        reach
    }
}

/// The frames and audio a pool is assembled from: a positive grain size, at
/// least one frame, one audio vector per frame, every frame the size of the
/// first, every audio vector the length of the first, all audio values finite.
pub open spec fn pool_inputs_valid(grain_size: u32, frame_sizes: Seq<(u32, u32)>, frame_audio: Seq<Vec<u32>>) -> bool {
    &&& grain_size > 0
    &&& frame_sizes.len() > 0
    &&& frame_sizes.len() == frame_audio.len()
    &&& forall|i: int|
        0 <= i < frame_sizes.len() ==> {
            &&& #[trigger] frame_sizes[i] == frame_sizes[0]
            &&& frame_audio[i]@.len() == frame_audio[0]@.len()
            &&& forall|k: int| 0 <= k < frame_audio[i]@.len() ==> f32_bits_finite(#[trigger] frame_audio[i]@[k])
        }
}

/// Checks the frames (their sizes) and per-frame audio a pool is assembled
/// from, in the order the assembly checks them.
#[verifier::spinoff_prover]
pub fn check_pool_inputs(grain_size: u32, frame_sizes: &[(u32, u32)], frame_audio: &[Vec<u32>]) -> (r: Result<(), RenderError>)
    ensures
        r is Ok <==> pool_inputs_valid(grain_size, frame_sizes@, frame_audio@),
        r matches Err(e) ==> e is InvalidGranularMosaicSettings,
{
    if grain_size == 0 {
        return Err(
            RenderError::InvalidGranularMosaicSettings(
                String::from_str("grain_size must be greater than zero"),
            ),
        );
    }
    if frame_sizes.len() == 0 {
        return Err(
            RenderError::InvalidGranularMosaicSettings(
                String::from_str("grain pool requires at least one frame"),
            ),
        );
    }
    if frame_sizes.len() != frame_audio.len() {
        let mut d = String::from_str("expected one audio vector per frame: ");
        push_decimal(&mut d, frame_sizes.len() as u64);
        d.append(" frames, ");
        push_decimal(&mut d, frame_audio.len() as u64);
        d.append(" audio vectors");
        return Err(RenderError::InvalidGranularMosaicSettings(d));
    }
    let first = frame_sizes[0];
    let dims = frame_audio[0].len();
    let mut i: usize = 0;
    while i < frame_sizes.len()
        invariant
            grain_size > 0,
            frame_sizes@.len() > 0,
            frame_sizes@.len() == frame_audio@.len(),
            first == frame_sizes@[0],
            dims == frame_audio@[0]@.len(),
            i <= frame_sizes@.len(),
            forall|j: int|
                0 <= j < i ==> {
                    &&& #[trigger] frame_sizes@[j] == frame_sizes@[0]
                    &&& frame_audio@[j]@.len() == frame_audio@[0]@.len()
                    &&& forall|k: int| 0 <= k < frame_audio@[j]@.len() ==> f32_bits_finite(#[trigger] frame_audio@[j]@[k])
                },
        decreases frame_sizes.len() - i,
    {
        let size = frame_sizes[i];
        if size.0 != first.0 || size.1 != first.1 {
            return Err(
                RenderError::InvalidGranularMosaicSettings(
                    String::from_str("all grain-pool frames must share dimensions"),
                ),
            );
        }
        if frame_audio[i].len() != dims {
            return Err(
                RenderError::InvalidGranularMosaicSettings(
                    String::from_str("all grain-pool audio vectors must share length"),
                ),
            );
        }
        if !all_finite_bits(frame_audio[i].as_slice()) {
            return Err(
                RenderError::InvalidGranularMosaicSettings(
                    String::from_str("grain-pool audio descriptors must be finite"),
                ),
            );
        }
        proof {
            assert(size == first);
            assert(frame_sizes@[i as int] == frame_sizes@[0]);
        }
        i = i + 1;
    }
    Ok(())
}

/// The number of grains in the grid of a `width` × `height` frame.
pub open spec fn grid_cell_count(width: u32, height: u32, grain_size: u32) -> int {
    div_ceil_spec(width as int, grain_size as int) * div_ceil_spec(height as int, grain_size as int)
}

/// Every tile's mean colour and texture descriptor is finite.
pub open spec fn tiles_finite(colors: Seq<[u32; 3]>, textures: Seq<[u32; 2]>) -> bool {
    &&& forall|i: int| 0 <= i < colors.len() ==> {
        let c = #[trigger] colors[i];
        f32_bits_finite(c[0]) && f32_bits_finite(c[1]) && f32_bits_finite(c[2])
    }
    &&& forall|i: int| 0 <= i < textures.len() ==> {
        let t = #[trigger] textures[i];
        f32_bits_finite(t[0]) && f32_bits_finite(t[1])
    }
}

/// The pool assembled from frames of size `frame_sizes[0]`, their audio, and
/// the per-tile colours and textures listed frame by frame, row by row:
/// grain `i` is tile `i % per_frame` of frame `i / per_frame`, numbered `i`,
/// and carries tile `i`'s descriptors and its frame's audio.
pub open spec fn assembled_pool(
    pool: GrainPool,
    grain_size: u32,
    frame_sizes: Seq<(u32, u32)>,
    frame_audio: Seq<Vec<u32>>,
    colors: Seq<[u32; 3]>,
    textures: Seq<[u32; 2]>,
) -> bool {
    let (width, height) = frame_sizes[0];
    let columns = div_ceil_spec(width as int, grain_size as int);
    let rows = div_ceil_spec(height as int, grain_size as int);
    let per_frame = columns * rows;
    &&& pool.columns == columns
    &&& pool.rows == rows
    &&& pool.grain_size == grain_size
    &&& pool.frame_width == width
    &&& pool.frame_height == height
    &&& pool.audio_dims == frame_audio[0]@.len()
    &&& pool.grains@.len() == frame_sizes.len() * per_frame
    &&& colors.len() == pool.grains@.len()
    &&& textures.len() == pool.grains@.len()
    &&& forall|i: int|
        0 <= i < pool.grains@.len() ==> {
            let g = #[trigger] pool.grains@[i];
            &&& g.global_index == i
            &&& g.frame_index == i / per_frame
            &&& g.origin_x == grid_origin_x(i % per_frame, columns, grain_size as int)
            &&& g.origin_y == grid_origin_y(i % per_frame, columns, grain_size as int)
            &&& g.mean_color == colors[i]
            &&& g.texture == textures[i]
            &&& g.audio@ == frame_audio[i / per_frame]@
        }
}

/// A copy of a list of bit patterns.
fn copy_bits(v: &Vec<u32>) -> (r: Vec<u32>)
    ensures
        r@ == v@,
{
    let mut r: Vec<u32> = Vec::new();
    let mut k: usize = 0;
    while k < v.len()
        invariant
            k <= v@.len(),
            r@ == v@.subrange(0, k as int),
        decreases v.len() - k,
    {
        r.push(v[k]);
        k = k + 1;
        assert(r@ =~= v@.subrange(0, k as int));
    }
    assert(v@.subrange(0, v@.len() as int) =~= v@);
    r
}

/// A whole-clip grain pool, from the frames' sizes, their audio descriptors,
/// and the mean colour and texture descriptor of every tile (bit patterns),
/// listed frame by frame and, within a frame, row by row. The inputs are
/// checked as `check_pool_inputs` checks them; an accepted pool is laid out
/// frame-major, row-major, each grain numbered by its place.
#[verifier::spinoff_prover]
pub fn assemble_grain_pool(
    grain_size: u32,
    frame_sizes: &[(u32, u32)],
    frame_audio: &[Vec<u32>],
    tile_colors: &[[u32; 3]],
    tile_textures: &[[u32; 2]],
) -> (r: Result<GrainPool, RenderError>)
    requires
        pool_inputs_valid(grain_size, frame_sizes@, frame_audio@) ==> {
            &&& tile_colors@.len() == frame_sizes@.len() * grid_cell_count(
                frame_sizes@[0].0,
                frame_sizes@[0].1,
                grain_size,
            )
            &&& tile_textures@.len() == tile_colors@.len()
            &&& tile_colors@.len() <= u32::MAX
        },
    ensures
        r is Ok <==> pool_inputs_valid(grain_size, frame_sizes@, frame_audio@),
        r matches Err(e) ==> e is InvalidGranularMosaicSettings,
        r matches Ok(pool) ==> assembled_pool(
            pool,
            grain_size,
            frame_sizes@,
            frame_audio@,
            tile_colors@,
            tile_textures@,
        ),
        r matches Ok(pool) ==> (pool_valid(pool, grain_size) <==> (pool.grains@.len() > 0
            && tiles_finite(tile_colors@, tile_textures@))),
{
    match check_pool_inputs(grain_size, frame_sizes, frame_audio) {
        Ok(()) => {},
        Err(e) => {
            return Err(e);
        },
    }
    let (width, height) = frame_sizes[0];
    let columns = div_ceil(width, grain_size);
    let rows = div_ceil(height, grain_size);
    let per_frame = wide_mul(columns, rows);
    let total = tile_colors.len();
    let ghost n = frame_sizes@.len() as int;
    let mut grains: Vec<PooledGrainDescriptor> = Vec::new();
    let mut i: usize = 0;
    while i < total
        invariant
            i <= total == tile_colors@.len() == tile_textures@.len(),
            total <= u32::MAX,
            total == n * per_frame,
            n == frame_sizes@.len() == frame_audio@.len(),
            n > 0,
            per_frame == columns as int * rows as int,
            columns == div_ceil_spec(width as int, grain_size as int),
            rows == div_ceil_spec(height as int, grain_size as int),
            grain_size > 0,
            grains@.len() == i,
            forall|j: int|
                0 <= j < i ==> {
                    let g = #[trigger] grains@[j];
                    &&& g.global_index == j
                    &&& g.frame_index == j / (per_frame as int)
                    &&& g.origin_x == grid_origin_x(j % (per_frame as int), columns as int, grain_size as int)
                    &&& g.origin_y == grid_origin_y(j % (per_frame as int), columns as int, grain_size as int)
                    &&& g.mean_color == tile_colors@[j]
                    &&& g.texture == tile_textures@[j]
                    &&& g.audio@ == frame_audio@[j / (per_frame as int)]@
                },
        decreases total - i,
    {
        proof {
            assert(per_frame > 0 && (i as int) / (per_frame as int) < n) by (nonlinear_arith)
                requires
                    0 <= i < total,
                    total == n * per_frame,
                    per_frame >= 0,
                    n > 0,
            ;
        }
        let frame = (i as u64 / per_frame) as usize;
        let within = i as u64 % per_frame;
        proof {
            lemma_grid_cell_bounds(
                within as int,
                columns as int,
                rows as int,
                grain_size as int,
                width as int,
                height as int,
            );
        }
        let origin_x = (within % columns as u64) as u32 * grain_size;
        let origin_y = (within / columns as u64) as u32 * grain_size;
        let audio = copy_bits(&frame_audio[frame]);
        grains.push(
            PooledGrainDescriptor {
                global_index: i as u32,
                frame_index: frame as u32,
                origin_x,
                origin_y,
                mean_color: tile_colors[i],
                texture: tile_textures[i],
                audio,
            },
        );
        i = i + 1;
    }
    let pool = GrainPool {
        columns,
        rows,
        grain_size,
        frame_width: width,
        frame_height: height,
        audio_dims: frame_audio[0].len(),
        grains,
    };
    proof {
        law_assembled_pool_is_valid(
            pool,
            grain_size,
            frame_sizes@,
            frame_audio@,
            tile_colors@,
            tile_textures@,
        );
    }
    Ok(pool)
}

/// The pool assembled from checked inputs passes the pool check exactly
/// when it holds a grain and every tile descriptor is finite: assembly lays
/// every grain in the place the check asks for.
pub proof fn law_assembled_pool_is_valid(
    pool: GrainPool,
    grain_size: u32,
    frame_sizes: Seq<(u32, u32)>,
    frame_audio: Seq<Vec<u32>>,
    colors: Seq<[u32; 3]>,
    textures: Seq<[u32; 2]>,
)
    requires
        pool_inputs_valid(grain_size, frame_sizes, frame_audio),
        assembled_pool(pool, grain_size, frame_sizes, frame_audio, colors, textures),
    ensures
        pool_valid(pool, grain_size) <==> (pool.grains@.len() > 0 && tiles_finite(colors, textures)),
{
    let columns = pool.columns as int;
    let per_frame = columns * pool.rows as int;
    let n = frame_sizes.len() as int;
    let len = pool.grains@.len() as int;
    assert(len == n * per_frame);
    if len > 0 {
        assert(per_frame > 0 && len % per_frame == 0) by (nonlinear_arith)
            requires
                len == n * per_frame,
                len > 0,
                n > 0,
                per_frame >= 0,
        ;
        if tiles_finite(colors, textures) {
            assert forall|i: int| 0 <= i < len implies pool_grain_on_grid(
                #[trigger] pool.grains@[i],
                i,
                per_frame,
                columns,
                grain_size as int,
                pool.audio_dims as int,
            ) by {
                assert(0 <= i / per_frame < n) by (nonlinear_arith)
                    requires
                        0 <= i < len,
                        len == n * per_frame,
                        per_frame > 0,
                ;
                let f = i / per_frame;
                assert(frame_sizes[f] == frame_sizes[0]);
                assert(colors[i] == pool.grains@[i].mean_color);
                assert(textures[i] == pool.grains@[i].texture);
            }
        }
        if pool_valid(pool, grain_size) {
            assert forall|i: int| 0 <= i < colors.len() implies {
                let c = #[trigger] colors[i];
                f32_bits_finite(c[0]) && f32_bits_finite(c[1]) && f32_bits_finite(c[2])
            } by {
                assert(pool_grain_on_grid(
                    pool.grains@[i],
                    i,
                    per_frame,
                    columns,
                    grain_size as int,
                    pool.audio_dims as int,
                ));
            }
            assert forall|i: int| 0 <= i < textures.len() implies {
                let t = #[trigger] textures[i];
                f32_bits_finite(t[0]) && f32_bits_finite(t[1])
            } by {
                assert(pool_grain_on_grid(
                    pool.grains@[i],
                    i,
                    per_frame,
                    columns,
                    grain_size as int,
                    pool.audio_dims as int,
                ));
            }
        }
    }
}

/// A history in which no grain was ever used puts no grain under cooldown,
/// so the first scheduled frame picks as an unscheduled one does.
pub proof fn law_fresh_history_has_no_cooldown(n: nat, global_index: u32, current_frame: u32, cooldown: u32)
    ensures
        cooldown_remaining_spec(
            Seq::new(n, |i: int| None::<u32>),
            global_index,
            current_frame,
            cooldown,
        ) == 0,
{
}

/// A trailing window of `frames >= 1` frames over a pool whose length is a
/// whole number of frames stays inside the pool, ends with the current frame
/// (clamped to the last one), and spans at most `frames` frames.
pub proof fn law_trailing_window_bounds(columns: u32, rows: u32, frame_count: int, current_frame: u32, frames: u32)
    requires
        columns as int * rows as int > 0,
        frame_count > 0,
        frames >= 1,
    ensures
        ({
            let per_frame = columns as int * rows as int;
            let (start, end) = eligible_range_spec(
                columns,
                rows,
                per_frame * frame_count,
                PoolSelectionWindow::Trailing { current_frame, frames },
            );
            let current = if current_frame < frame_count {
                current_frame as int
            } else {
                frame_count - 1
            };
            &&& 0 <= start < end <= per_frame * frame_count
            &&& end == (current + 1) * per_frame
            &&& end - start <= frames * per_frame
        }),
{
    let per_frame = columns as int * rows as int;
    let len = per_frame * frame_count;
    assert(len / per_frame == frame_count) by (nonlinear_arith)
        requires
            len == per_frame * frame_count,
            per_frame > 0,
    ;
    let current = if current_frame < frame_count {
        current_frame as int
    } else {
        frame_count - 1
    };
    let start_frame = if current >= frames - 1 {
        current - (frames - 1)
    } else {
        0
    };
    assert(0 <= start_frame * per_frame < (current + 1) * per_frame <= len) by (nonlinear_arith)
        requires
            0 <= start_frame <= current < frame_count,
            per_frame > 0,
            len == per_frame * frame_count,
    ;
    assert((current + 1) * per_frame - start_frame * per_frame <= frames * per_frame)
        by (nonlinear_arith)
        requires
            current + 1 - start_frame <= frames,
            per_frame > 0,
    ;
}

} // verus!
