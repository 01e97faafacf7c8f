//! Field particles: their settings, the carrier seeded at frame zero (one
//! particle per `spacing` cell of the source, carrying the colour at the cell
//! origin), each frame's move, and the splat render.

use vstd::prelude::*;
use crate::error::RenderError;
use crate::image::{ImageBufferBits, lemma_grid_index};
use crate::stamp::{
    canvas_at, lemma_painted_by_the_only_painter, opaque_black, opaque_black_canvas, painted,
    stamp_all, stamp_paints, stamp_wf, SquareStamp, StampFill,
};
use crate::coagulate::coagulation_error;
use crate::float_bits::{
    f32_bits_finite, f32_bits_negative, f32_bits_zero, is_finite_bits, is_negative_bits, is_zero_bits,
};
use crate::float_round::{
    f32_bits_is_integer, f32_round_to_i64, lemma_integer_bits_round, lemma_round_in_range,
    lemma_nearest_small, round_f32_bits_to_i64, u32_nearest_f32,
    u32_to_f32_bits,
};

verus! {

/// Algorithm identifier of the field particles.
pub const FIELD_PARTICLES_ALGORITHM: &'static str = "field_particles_vortex_cpu_v1";

/// Settings of the field particles; every `f32` knob is carried as its bit
/// pattern.
#[derive(Debug, Clone, Copy, PartialEq, Eq)]
pub struct FieldParticleSettings {
    pub spacing: u32,
    pub particle_size: u32,
    pub advect: u32,
    pub turbulence_scale: u32,
    pub turbulence_speed: u32,
    pub detail: u32,
    pub seed: u64,
}

impl FieldParticleSettings {
    /// Positive spacing and particle size, every knob finite, detail not negative.
    pub open spec fn valid(&self) -> bool {
        &&& self.spacing > 0
        &&& self.particle_size > 0
        &&& f32_bits_finite(self.advect)
        &&& f32_bits_finite(self.turbulence_scale)
        &&& f32_bits_finite(self.turbulence_speed)
        &&& f32_bits_finite(self.detail)
        &&& !f32_bits_negative(self.detail)
    }

    /// Refuses empty spacing or particles, non-finite knobs and negative detail.
    pub fn validate(&self) -> (r: Result<(), RenderError>)
        ensures
            r is Ok <==> self.valid(),
            r matches Err(e) ==> e is InvalidCoagulationSettings,
    {
        if self.spacing == 0 {
            return Err(coagulation_error("spacing must be greater than zero"));
        }
        if self.particle_size == 0 {
            return Err(coagulation_error("particle_size must be greater than zero"));
        }
        if !is_finite_bits(self.advect) {
            return Err(coagulation_error("advect must be finite"));
        }
        if !is_finite_bits(self.turbulence_scale) {
            return Err(coagulation_error("turbulence_scale must be finite"));
        }
        if !is_finite_bits(self.turbulence_speed) {
            return Err(coagulation_error("turbulence_speed must be finite"));
        }
        if !is_finite_bits(self.detail) {
            return Err(coagulation_error("detail must be finite"));
        }
        if is_negative_bits(self.detail) {
            return Err(coagulation_error("detail must be non-negative"));
        }
        Ok(())
    }

}

impl Default for FieldParticleSettings {
    /// The documented defaults; the `f32` knobs are the bit patterns of
    /// `advect` 6.0, `turbulence_scale` 0.008, `turbulence_speed` 0.06, `detail` 0.1.
    fn default() -> (r: Self)
        ensures
            r == (FieldParticleSettings {
                spacing: 8,
                particle_size: 8,
                advect: 0x40c0_0000,
                turbulence_scale: 0x3c03_126f,
                turbulence_speed: 0x3d75_c28f,
                detail: 0x3dcc_cccd,
                seed: 0,
            }),
    {
        FieldParticleSettings {
            spacing: 8,
            particle_size: 8,
            advect: 0x40c0_0000,
            turbulence_scale: 0x3c03_126f,
            turbulence_speed: 0x3d75_c28f,
            detail: 0x3dcc_cccd,
            seed: 0,
        }
    }
}

/// The number of `spacing` steps from 0 that stay below `extent`: the cells
/// of one grid axis.
pub open spec fn grid_cells(extent: int, spacing: int) -> int {
    (extent + spacing - 1) / spacing
}

/// Step `c` of a grid axis lies below `extent` exactly when `c` counts one of
/// its cells.
pub proof fn lemma_grid_cells(c: int, spacing: int, extent: int)
    requires
        spacing > 0,
        c >= 0,
        extent >= 0,
    ensures
        (c * spacing < extent) <==> (c < grid_cells(extent, spacing)),
        grid_cells(extent, spacing) >= 0,
{
    let q = grid_cells(extent, spacing);
    let rem = (extent + spacing - 1) % spacing;
    vstd::arithmetic::div_mod::lemma_fundamental_div_mod(extent + spacing - 1, spacing);
    assert(0 <= rem < spacing);
    assert((c * spacing < extent) <==> (c < q)) by (nonlinear_arith)
        requires
            extent + spacing - 1 == spacing * q + rem,
            0 <= rem < spacing,
            c >= 0,
    ;
    assert(q >= 0) by (nonlinear_arith)
        requires
            extent + spacing - 1 == spacing * q + rem,
            0 <= rem < spacing,
            extent >= 0,
    ;
}

/// A particle: its position in pixels (`f32` bit patterns, which the field
/// integrates over frames) and the colour fixed at seed time.
#[derive(Debug, Clone, Copy, PartialEq, Eq)]
pub struct Particle {
    pub x: u32,
    pub y: u32,
    pub color: [u32; 4],
}

/// The particle carrier over a `width` × `height` canvas.
#[derive(Debug, Clone, PartialEq, Eq)]
pub struct ParticleField {
    pub width: u32,
    pub height: u32,
    pub particles: Vec<Particle>,
}

impl ParticleField {
    /// Number of particles in the carrier.
    pub fn particle_count(&self) -> (r: usize)
        ensures
            r == self.particles@.len(),
    {
        self.particles.len()
    }
}

/// The origin `(column · spacing, row · spacing)` of cell `k` of the grid
/// over `source`, cells in row-major order.
pub open spec fn seed_origin(source: ImageBufferBits, spacing: int, k: int) -> (int, int) {
    let columns = grid_cells(source.width as int, spacing);
    ((k % columns) * spacing, (k / columns) * spacing)
}

/// `p` is particle `k` of the grid seeded from `source`: at its cell origin
/// (as the nearest `f32`s) with the source colour there.
pub open spec fn is_seeded_particle(p: Particle, source: ImageBufferBits, spacing: int, k: int) -> bool {
    let (x, y) = seed_origin(source, spacing, k);
    &&& f32_bits_is_integer(p.x, u32_nearest_f32(x as nat) as int)
    &&& f32_bits_is_integer(p.y, u32_nearest_f32(y as nat) as int)
    &&& u32_nearest_f32(x as nat) <= 0x1_0000_0000
    &&& u32_nearest_f32(y as nat) <= 0x1_0000_0000
    &&& p.color == source.pixels@[y * source.width + x]
}

/// Seeds the carrier from the source frame after checking the settings: one
/// particle per `spacing` cell, in row-major order, at the cell origin with
/// the source colour sampled there.
pub fn initialize_field_particles(source: &ImageBufferBits, settings: FieldParticleSettings) -> (r: Result<ParticleField, RenderError>)
    requires
        source.wf(),
    ensures
        r is Ok <==> settings.valid(),
        r matches Err(e) ==> e is InvalidCoagulationSettings,
        r matches Ok(f) ==> {
            &&& f.width == source.width
            &&& f.height == source.height
            &&& f.particles@.len() == grid_cells(source.width as int, settings.spacing as int)
                * grid_cells(source.height as int, settings.spacing as int)
            &&& forall|k: int| 0 <= k < f.particles@.len() ==> is_seeded_particle(
                #[trigger] f.particles@[k],
                *source,
                settings.spacing as int,
                k,
            )
        },
{
    settings.validate()?;
    let spacing = settings.spacing as u64;
    let width = source.width as u64;
    let height = source.height as u64;
    let ghost s = spacing as int;
    let ghost columns = grid_cells(width as int, s);
    let ghost rows = grid_cells(height as int, s);
    proof {
        lemma_grid_cells(0, s, width as int);
        lemma_grid_cells(0, s, height as int);
    }
    let mut particles: Vec<Particle> = Vec::new();
    let mut gy: u64 = 0;
    let ghost mut row: int = 0;
    while gy < height
        invariant
            source.wf(),
            s == spacing,
            spacing > 0,
            spacing <= u32::MAX,
            width == source.width,
            height == source.height,
            columns == grid_cells(width as int, s),
            rows == grid_cells(height as int, s),
            columns >= 0,
            0 <= row <= rows,
            gy == row * s,
            particles@.len() == row * columns,
            forall|k: int| 0 <= k < particles@.len() ==> is_seeded_particle(#[trigger] particles@[k], *source, s, k),
        decreases rows - row,
    {
        proof {
            lemma_grid_cells(row, s, height as int);
        }
        let mut gx: u64 = 0;
        let ghost mut col: int = 0;
        while gx < width
            invariant
                source.wf(),
                s == spacing,
                spacing > 0,
                spacing <= u32::MAX,
                width == source.width,
                height == source.height,
                columns == grid_cells(width as int, s),
                rows == grid_cells(height as int, s),
                0 <= row < rows,
                gy == row * s,
                gy < height,
                0 <= col <= columns,
                gx == col * s,
                particles@.len() == row * columns + col,
                forall|k: int| 0 <= k < particles@.len() ==> is_seeded_particle(#[trigger] particles@[k], *source, s, k),
            decreases columns - col,
        {
            proof {
                lemma_grid_cells(col, s, width as int);
                lemma_grid_index(gx as int, gy as int, width as int, height as int);
                vstd::arithmetic::div_mod::lemma_fundamental_div_mod_converse(
                    row * columns + col,
                    columns,
                    row,
                    col,
                );
            }
            let color = match source.pixel(gx as u32, gy as u32) {
                Some(c) => c,
                None => [0, 0, 0, 0],
            };
            let ghost k = particles@.len() as int;
            let px = u32_to_f32_bits(gx as u32);
            let py = u32_to_f32_bits(gy as u32);
            particles.push(Particle { x: px, y: py, color });
            proof {
                assert(k == row * columns + col);
                assert(seed_origin(*source, s, k) == (gx as int, gy as int));
                assert(is_seeded_particle(particles@[k], *source, s, k));
            }
            gx = gx + spacing;
            proof {
                col = col + 1;
                assert(gx == col * s) by (nonlinear_arith)
                    requires
                        gx == (col - 1) * s + s,
                ;
            }
        }
        proof {
            lemma_grid_cells(col, s, width as int);
        }
        gy = gy + spacing;
        proof {
            row = row + 1;
            assert(gy == row * s) by (nonlinear_arith)
                requires
                    gy == (row - 1) * s + s,
            ;
            assert(particles@.len() == row * columns) by (nonlinear_arith)
                requires
                    particles@.len() == (row - 1) * columns + columns,
            ;
        }
    }
    proof {
        lemma_grid_cells(row, s, height as int);
        assert(columns * rows == rows * columns) by (nonlinear_arith);
    }
    Ok(ParticleField { width: source.width, height: source.height, particles })
}

/// A particle placed on the pixel grid: its position rounded, and its colour.
#[derive(Debug, Clone, Copy, PartialEq, Eq)]
pub struct PlacedParticle {
    pub x: i64,
    pub y: i64,
    pub color: [u32; 4],
}

/// The square a particle splats: `size` pixels right and down from its
/// position, in its colour.
pub open spec fn particle_stamp(p: PlacedParticle, size: u32) -> SquareStamp {
    SquareStamp { left: p.x, top: p.y, size, fill: StampFill::Solid(p.color) }
}

/// The splat edge: the particle size, at least 1.
pub open spec fn splat_size(particle_size: u32) -> u32 {
    if particle_size > 0 { particle_size } else { 1 }
}

/// Splats each particle as a square onto an opaque black `width` × `height`
/// canvas in particle order, the last writer winning where squares overlap.
pub fn splat_particles(width: u32, height: u32, particles: &Vec<PlacedParticle>, particle_size: u32) -> (r: ImageBufferBits)
    requires
        width > 0,
        height > 0,
        width * height <= usize::MAX,
        forall|i: int| 0 <= i < particles@.len() ==> {
            &&& #[trigger] particles@[i].x + splat_size(particle_size) <= i64::MAX
            &&& particles@[i].y + splat_size(particle_size) <= i64::MAX
        },
    ensures
        r.wf(),
        r.width == width,
        r.height == height,
        forall|x: int, y: int| 0 <= x < width && 0 <= y < height ==> #[trigger] canvas_at(r.pixels@, width as int, x, y)
            == painted(
                Seq::new(particles@.len(), |i: int| particle_stamp(particles@[i], splat_size(particle_size))),
                opaque_black(),
                x,
                y,
            ),
{
    let size = if particle_size > 0 { particle_size } else { 1 };
    let mut stamps: Vec<SquareStamp> = Vec::new();
    let mut i: usize = 0;
    while i < particles.len()
        invariant
            i <= particles@.len(),
            size == splat_size(particle_size),
            stamps@.len() == i,
            forall|k: int| 0 <= k < i ==> #[trigger] stamps@[k] == particle_stamp(particles@[k], size),
        decreases particles.len() - i,
    {
        let p = particles[i];
        stamps.push(SquareStamp { left: p.x, top: p.y, size, fill: StampFill::Solid(p.color) });
        i = i + 1;
    }
    let ghost order = Seq::new(particles@.len(), |i: int| particle_stamp(particles@[i], size));
    assert(stamps@ =~= order);
    let n = width as usize * height as usize;
    let mut canvas = opaque_black_canvas(n);
    let ghost black = canvas@;
    assert forall|k: int| 0 <= k < stamps@.len() implies stamp_wf(#[trigger] stamps@[k]) by {
        assert(stamps@[k] == particle_stamp(particles@[k], size));
    }
    stamp_all(&mut canvas, width, height, &stamps);
    assert forall|x: int, y: int| 0 <= x < width && 0 <= y < height implies #[trigger] canvas_at(canvas@, width as int, x, y)
        == painted(order, opaque_black(), x, y) by {
        lemma_grid_index(x, y, width as int, height as int);
        assert(canvas_at(black, width as int, x, y) == opaque_black());
    }
    ImageBufferBits { width, height, pixels: canvas }
}

/// Renders the carrier: each particle splatted as a `particle_size` square of
/// its colour onto opaque black, in particle order.
pub fn render_field_particles(field: &ParticleField, settings: FieldParticleSettings) -> (r: ImageBufferBits)
    requires
        field.width > 0,
        field.height > 0,
        field.width * field.height <= usize::MAX,
        particles_fit(field.particles@, settings.particle_size),
    ensures
        r.wf(),
        r.width == field.width,
        r.height == field.height,
        forall|x: int, y: int| 0 <= x < field.width && 0 <= y < field.height ==> #[trigger] canvas_at(r.pixels@, field.width as int, x, y)
            == painted(field_stamps(*field, settings.particle_size), opaque_black(), x, y),
{
    let mut placed: Vec<PlacedParticle> = Vec::new();
    let mut i: usize = 0;
    while i < field.particles.len()
        invariant
            i <= field.particles@.len(),
            placed@.len() == i,
            forall|k: int| 0 <= k < i ==> #[trigger] placed@[k] == placed_particle(field.particles@[k]),
        decreases field.particles.len() - i,
    {
        let p = field.particles[i];
        let x = round_f32_bits_to_i64(p.x);
        let y = round_f32_bits_to_i64(p.y);
        placed.push(PlacedParticle { x, y, color: p.color });
        i = i + 1;
    }
    assert forall|i: int| 0 <= i < placed@.len() implies #[trigger] placed@[i].x + splat_size(
        settings.particle_size,
    ) <= i64::MAX && placed@[i].y + splat_size(settings.particle_size) <= i64::MAX by {
        assert(placed@[i] == placed_particle(field.particles@[i]));
        let q = field.particles@[i];
        lemma_round_in_range(q.x);
        lemma_round_in_range(q.y);
        assert(f32_round_to_i64(q.x) + splat_size(settings.particle_size) <= i64::MAX);
        assert(f32_round_to_i64(q.y) + splat_size(settings.particle_size) <= i64::MAX);
        assert(placed@[i].x == f32_round_to_i64(q.x));
        assert(placed@[i].y == f32_round_to_i64(q.y));
    }
    let r = splat_particles(field.width, field.height, &placed, settings.particle_size);
    proof {
        let a = Seq::new(placed@.len(), |i: int| particle_stamp(placed@[i], splat_size(settings.particle_size)));
        assert(a =~= field_stamps(*field, settings.particle_size));
    }
    r
}

/// A particle placed at its position rounded to the nearest pixel, as
/// `round() as i64` gives it.
pub open spec fn placed_particle(p: Particle) -> PlacedParticle {
    PlacedParticle {
        x: f32_round_to_i64(p.x) as i64,
        y: f32_round_to_i64(p.y) as i64,
        color: p.color,
    }
}

/// Every particle's splat, placed at its rounded position, has a
/// representable far corner.
pub open spec fn particles_fit(particles: Seq<Particle>, particle_size: u32) -> bool {
    forall|i: int|
        0 <= i < particles.len() ==> f32_round_to_i64(#[trigger] particles[i].x) + splat_size(
            particle_size,
        ) <= i64::MAX && f32_round_to_i64(particles[i].y) + splat_size(particle_size) <= i64::MAX
}

/// The squares a render splats for `field`: each particle at its rounded
/// position, `splat_size(particle_size)` pixels wide, in its colour.
pub open spec fn field_stamps(field: ParticleField, particle_size: u32) -> Seq<SquareStamp> {
    Seq::new(
        field.particles@.len(),
        |i: int| particle_stamp(placed_particle(field.particles@[i]), splat_size(particle_size)),
    )
}

/// One frame of the particles, after checking the settings: with `advect`
/// zero nothing moves and the carrier stays byte-identical; otherwise every
/// particle takes its position in `advected` (this frame's move along the
/// field, clamped to the canvas, as `f32` bit patterns) and keeps its
/// colour. On a refusal nothing changes.
pub fn advance_field_particles(
    field: &mut ParticleField,
    settings: FieldParticleSettings,
    advected: &Vec<[u32; 2]>,
) -> (r: Result<(), RenderError>)
    requires
        !f32_bits_zero(settings.advect) ==> advected@.len() == old(field).particles@.len(),
    ensures
        r is Ok <==> settings.valid(),
        r matches Err(e) ==> e is InvalidCoagulationSettings && *final(field) == *old(field),
        r is Ok && f32_bits_zero(settings.advect) ==> *final(field) == *old(field),
        r is Ok && !f32_bits_zero(settings.advect) ==> {
            &&& final(field).width == old(field).width
            &&& final(field).height == old(field).height
            &&& final(field).particles@.len() == old(field).particles@.len()
            &&& forall|k: int|
                0 <= k < final(field).particles@.len() ==> #[trigger] final(field).particles@[k] == (Particle {
                    x: advected@[k][0],
                    y: advected@[k][1],
                    color: old(field).particles@[k].color,
                })
        },
{
    match settings.validate() {
        Ok(()) => {},
        Err(e) => {
            return Err(e);
        },
    }
    if is_zero_bits(settings.advect) {
        return Ok(());
    }
    let mut k: usize = 0;
    let ghost initial = *field;
    while k < field.particles.len()
        invariant
            initial == *old(field),
            advected@.len() == initial.particles@.len(),
            field.width == initial.width,
            field.height == initial.height,
            field.particles@.len() == initial.particles@.len(),
            k <= field.particles@.len(),
            forall|j: int|
                0 <= j < k ==> #[trigger] field.particles@[j] == (Particle {
                    x: advected@[j][0],
                    y: advected@[j][1],
                    color: initial.particles@[j].color,
                }),
            forall|j: int| k <= j < field.particles@.len() ==> #[trigger] field.particles@[j] == initial.particles@[j],
        decreases field.particles.len() - k,
    {
        let color = field.particles[k].color;
        let a = advected[k];
        field.particles.set(k, Particle { x: a[0], y: a[1], color });
        k = k + 1;
    }
    Ok(())
}

/// A seeded particle inside a grid no wider or taller than `2^24` pixels
/// sits exactly at its cell origin once placed.
proof fn lemma_seeded_particle_placed(p: Particle, source: ImageBufferBits, s: int, k: int)
    requires
        is_seeded_particle(p, source, s, k),
        0 <= seed_origin(source, s, k).0 < 0x100_0000,
        0 <= seed_origin(source, s, k).1 < 0x100_0000,
    ensures
        placed_particle(p).x == seed_origin(source, s, k).0,
        placed_particle(p).y == seed_origin(source, s, k).1,
        placed_particle(p).color == p.color,
{
    let (x, y) = seed_origin(source, s, k);
    lemma_nearest_small(x as nat);
    lemma_nearest_small(y as nat);
    lemma_integer_bits_round(p.x, x);
    lemma_integer_bits_round(p.y, y);
}

/// A particle size equal to the spacing makes the frame-zero grid tile the
/// canvas exactly: rendering the carrier seeded from `source` shows at every
/// pixel the source colour at the origin of its `spacing` cell, for frames
/// whose cell origins are exact `f32`s (no side longer than `2^24` pixels).
pub proof fn law_frame_zero_grid_tiles_the_canvas(
    source: ImageBufferBits,
    field: ParticleField,
    settings: FieldParticleSettings,
    x: int,
    y: int,
)
    requires
        source.wf(),
        settings.spacing > 0,
        settings.particle_size == settings.spacing,
        field.particles@.len() == grid_cells(source.width as int, settings.spacing as int)
            * grid_cells(source.height as int, settings.spacing as int),
        forall|k: int| 0 <= k < field.particles@.len() ==> is_seeded_particle(
            #[trigger] field.particles@[k],
            source,
            settings.spacing as int,
            k,
        ),
        source.width <= 0x100_0000,
        source.height <= 0x100_0000,
        0 <= x < source.width,
        0 <= y < source.height,
    ensures
        painted(field_stamps(field, settings.particle_size), opaque_black(), x, y)
            == source.pixels@[(y / settings.spacing as int * settings.spacing) * source.width + x
            / settings.spacing as int * settings.spacing],
{
    let s = settings.spacing as int;
    let w = source.width as int;
    let h = source.height as int;
    let columns = grid_cells(w, s);
    let rows = grid_cells(h, s);
    let stamps = field_stamps(field, settings.particle_size);
    let c = x / s;
    let r = y / s;
    vstd::arithmetic::div_mod::lemma_fundamental_div_mod(x, s);
    vstd::arithmetic::div_mod::lemma_fundamental_div_mod(y, s);
    assert(c * s <= x < c * s + s) by (nonlinear_arith)
        requires
            x == s * c + x % s,
            0 <= x % s < s,
    ;
    assert(r * s <= y < r * s + s) by (nonlinear_arith)
        requires
            y == s * r + y % s,
            0 <= y % s < s,
    ;
    assert(c >= 0 && r >= 0) by (nonlinear_arith)
        requires
            c * s <= x,
            x < c * s + s,
            r * s <= y,
            y < r * s + s,
            x >= 0,
            y >= 0,
            s > 0,
    ;
    lemma_grid_cells(c, s, w);
    lemma_grid_cells(r, s, h);
    let j = r * columns + c;
    vstd::arithmetic::div_mod::lemma_fundamental_div_mod_converse(j, columns, r, c);
    assert(0 <= j < columns * rows) by (nonlinear_arith)
        requires
            j == r * columns + c,
            0 <= c < columns,
            0 <= r < rows,
    ;
    lemma_grid_index(c * s, r * s, w, h);
    assert(stamps.len() == columns * rows);
    assert(is_seeded_particle(field.particles@[j], source, s, j));
    assert(seed_origin(source, s, j) == (c * s, r * s));
    lemma_seeded_particle_placed(field.particles@[j], source, s, j);
    assert(stamp_paints(stamps[j], x, y));
    assert forall|i: int| 0 <= i < stamps.len() && i != j implies !stamp_paints(#[trigger] stamps[i], x, y) by {
        let ci = i % columns;
        let ri = i / columns;
        vstd::arithmetic::div_mod::lemma_fundamental_div_mod(i, columns);
        assert(0 <= ci < columns);
        assert(0 <= ri) by (nonlinear_arith)
            requires
                i == columns * ri + ci,
                0 <= ci < columns,
                i >= 0,
        ;
        lemma_grid_cells(ci, s, w);
        assert(ri < rows) by (nonlinear_arith)
            requires
                i == columns * ri + ci,
                0 <= ci,
                i < columns * rows,
                columns > 0,
        ;
        lemma_grid_cells(ri, s, h);
        assert(is_seeded_particle(field.particles@[i], source, s, i));
        assert(seed_origin(source, s, i) == (ci * s, ri * s));
        lemma_seeded_particle_placed(field.particles@[i], source, s, i);
        if stamp_paints(stamps[i], x, y) {
            assert(ci * s <= x < ci * s + s);
            assert(ri * s <= y < ri * s + s);
            vstd::arithmetic::div_mod::lemma_fundamental_div_mod_converse(x, s, ci, x - ci * s);
            vstd::arithmetic::div_mod::lemma_fundamental_div_mod_converse(y, s, ri, y - ri * s);
            assert(i == ri * columns + ci) by (nonlinear_arith)
                requires
                    i == columns * ri + ci,
            ;
        }
    }
    lemma_painted_by_the_only_painter(stamps, opaque_black(), x, y, j);
}

} // verus!
