//! The cascade collage and the persistent-trail cascade: their modes, the
//! per-tile hash that keys each tile's motion, and the spread of tiles over
//! the frames of a clip.

use vstd::prelude::*;
use crate::hashing::{splitmix, splitmix_spec};
use crate::error::RenderError;
use crate::coagulate::coagulation_error;
use crate::float_bits::{
    f32_bits_finite, f32_bits_negative, f32_bits_positive, f32_bits_in_unit_interval,
    is_finite_bits, is_negative_bits, is_positive_bits, is_unit_interval_bits,
};
use crate::text::push_decimal;

verus! {

/// Algorithm identifier of the cascade collage.
pub const CASCADE_COLLAGE_ALGORITHM: &'static str = "cascade_collage_scribble_cpu_v7";

/// Algorithm identifier of the cascade collage's A→B cross-synth mode.
pub const CASCADE_COLLAGE_B_SAMPLER_ALGORITHM: &'static str = "cascade_collage_b_sampler_cpu_v8";

/// Algorithm identifier of the persistent-trail cascade.
pub const CASCADE_TRAIL_ALGORITHM: &'static str = "persistent_trail_vortex_cascade_cpu_v1";

/// Maximum notches per cascade shape.
pub const MAX_NOTCHES: usize = 4;

/// Which single outer edge of a collage tile is the scribbled line, if any.
#[derive(Debug, Clone, Copy, PartialEq, Eq, Structural)]
pub enum ScribbleEdge {
    /// No outer edge is scribbled.
    NoEdge,
    Left,
    Right,
    Top,
    Bottom,
}

impl Default for ScribbleEdge {
    fn default() -> (r: Self)
        ensures
            r == ScribbleEdge::NoEdge,
    {
        ScribbleEdge::NoEdge
    }
}

/// How each collage block is composited onto the blocks below it.
#[derive(Debug, Clone, Copy, PartialEq, Eq, Structural)]
pub enum BlendMode {
    /// Replace, weighted by the block opacity.
    Normal,
    /// `dst * src`: overlaps darken.
    Multiply,
    /// `1-(1-dst)(1-src)`: overlaps brighten.
    Screen,
    /// `(dst+src)/2`: an even mix.
    Average,
    /// `max(dst,src)`: the brighter of the two.
    Lighten,
}

impl Default for BlendMode {
    fn default() -> (r: Self)
        ensures
            r == BlendMode::Normal,
    {
        BlendMode::Normal
    }
}

/// Which velocity field drives the trail tiles.
#[derive(Debug, Clone, Copy, PartialEq, Eq, Structural)]
pub enum CascadeFieldType {
    /// Curl-noise steady vortex field.
    Vortex,
    /// Uniform flow plus per-tile oscillation on the tile's current position.
    River,
    /// Uniform flow with the oscillation applied to the stamp position.
    RiverRoot,
}

impl Default for CascadeFieldType {
    fn default() -> (r: Self)
        ensures
            r == CascadeFieldType::Vortex,
    {
        CascadeFieldType::Vortex
    }
}

/// A rectangle subtracted from a collage tile, in fractions of the canvas
/// relative to the tile centre (`f32` bit patterns); `scrib` wobbles its
/// interior edges.
#[derive(Debug, Clone, Copy, PartialEq, Eq)]
pub struct Notch {
    pub u0: u32,
    pub u1: u32,
    pub v0: u32,
    pub v1: u32,
    pub scrib: bool,
}

/// One cascading collage shape: an outer rectangle minus up to
/// [`MAX_NOTCHES`] notches; every `f32` is carried as its bit pattern.
#[derive(Debug, Clone, Copy, PartialEq, Eq)]
pub struct CascadeShape {
    pub cx: u32,
    pub cy: u32,
    pub hw: u32,
    pub hh: u32,
    pub src_cx: u32,
    pub src_cy: u32,
    pub notches: [Notch; 4],
    pub notch_count: u8,
    pub outer_scrib: ScribbleEdge,
    pub dx: u32,
    pub dy: u32,
    pub steps: u32,
    pub base_hue: u32,
    pub sat: u32,
    pub val: u32,
    pub edge_hue: u32,
    pub scrib_amp: u32,
    pub hue_spread: u32,
    pub edge_grow: u32,
}

impl CascadeShape {
    /// How many of the notches are in use: `notch_count`, at most [`MAX_NOTCHES`].
    pub fn active_notch_count(&self) -> (r: usize)
        ensures
            r == (if self.notch_count < 4 {
                self.notch_count as int
            } else {
                4
            }),
    {
        if (self.notch_count as usize) < MAX_NOTCHES {
            self.notch_count as usize
        } else {
            MAX_NOTCHES
        }
    }
}

/// The cascade collage: its shapes and the global colour, edge and blend
/// knobs (`f32` bit patterns).
#[derive(Debug, Clone, PartialEq, Eq)]
pub struct CascadeCollageSettings {
    pub background: [u32; 3],
    pub shapes: Vec<CascadeShape>,
    pub scrib_amp_scale: u32,
    pub morph_rate: u32,
    pub frame_hue_rate: u32,
    pub bright_osc: u32,
    pub edge_width: u32,
    pub edge_strength: u32,
    pub edge_sat: u32,
    pub edge_val: u32,
    pub face_strength: u32,
    pub face_sat: u32,
    pub hue_steps: u32,
    pub edge_detect: u32,
    pub block_blend: BlendMode,
    pub block_opacity: u32,
    pub seed: u64,
}

/// A shape the collage can draw: at least one step, positive half-extents
/// (NaN fails), saturation and value in `[0, 1]`.
pub open spec fn shape_drawable(s: CascadeShape) -> bool {
    &&& s.steps >= 1
    &&& f32_bits_positive(s.hw)
    &&& f32_bits_positive(s.hh)
    &&& f32_bits_in_unit_interval(s.sat)
    &&& f32_bits_in_unit_interval(s.val)
}

fn collage_error(detail: &str) -> (e: RenderError)
    ensures
        e is InvalidCascadeCollageSettings,
{
    RenderError::InvalidCascadeCollageSettings(String::from_str(detail))
}

fn shape_error(i: usize, detail: &str) -> (e: RenderError)
    ensures
        e is InvalidCascadeCollageSettings,
{
    let mut d = String::from_str("shape ");
    push_decimal(&mut d, i as u64);
    d.append(": ");
    d.append(detail);
    RenderError::InvalidCascadeCollageSettings(d)
}

impl CascadeCollageSettings {
    /// At least one shape, a scribble scale that is not negative, and every
    /// shape drawable.
    pub open spec fn valid(&self) -> bool {
        &&& self.shapes@.len() > 0
        &&& !f32_bits_negative(self.scrib_amp_scale)
        &&& forall|i: int| 0 <= i < self.shapes@.len() ==> shape_drawable(#[trigger] self.shapes@[i])
    }

    /// Refuses an empty collage, a negative scribble scale and the first
    /// shape that cannot be drawn.
    pub fn validate(&self) -> (r: Result<(), RenderError>)
        ensures
            r is Ok <==> self.valid(),
            r matches Err(e) ==> e is InvalidCascadeCollageSettings,
    {
        if self.shapes.len() == 0 {
            return Err(collage_error("at least one shape is required"));
        }
        if is_negative_bits(self.scrib_amp_scale) {
            return Err(collage_error("scrib_amp_scale must be >= 0"));
        }
        let mut i: usize = 0;
        while i < self.shapes.len()
            invariant
                i <= self.shapes@.len(),
                forall|j: int| 0 <= j < i ==> shape_drawable(#[trigger] self.shapes@[j]),
            decreases self.shapes.len() - i,
        {
            let s = self.shapes[i];
            if s.steps == 0 {
                return Err(shape_error(i, "steps must be >= 1"));
            }
            if !(is_positive_bits(s.hw) && is_positive_bits(s.hh)) {
                return Err(shape_error(i, "hw and hh must be > 0"));
            }
            if !is_unit_interval_bits(s.sat) || !is_unit_interval_bits(s.val) {
                return Err(shape_error(i, "sat and val must be in [0, 1]"));
            }
            i = i + 1;
        }
        Ok(())
    }
}

/// The notch that leaves a tile whole: every bound zero, no scribble.
pub open spec fn unset_notch() -> Notch {
    Notch { u0: 0, u1: 0, v0: 0, v1: 0, scrib: false }
}

impl Default for Notch {
    fn default() -> (r: Self)
        ensures
            r == unset_notch(),
    {
        Notch { u0: 0, u1: 0, v0: 0, v1: 0, scrib: false }
    }
}

/// A notch with scribbled interior edges over the given bounds.
pub open spec fn scribbled_notch(u0: u32, u1: u32, v0: u32, v1: u32) -> Notch {
    Notch { u0, u1, v0, v1, scrib: true }
}

/// The documented composition, in drawing order: four large quadrant tiles
/// (rectangles and L shapes) that cover the canvas, then four smaller
/// rectilinear tiles (T, U, plus, staircase) on top. Shared values: centre and
/// source centre 0.5, half-extents 0.42, 55 steps, saturation 0.9, value 0.8,
/// scribble amplitude 11, hue spread 0.14, edge growth 0.06; each shape
/// overrides its own position, notches, offsets, hues and colour.
pub open spec fn default_collage_shapes() -> Seq<CascadeShape> {
    seq![
        // magenta L (top left)
        CascadeShape {
            cx: 0x3e99_999a,
            cy: 0x3e99_999a,
            hw: 0x3ed7_0a3d,
            hh: 0x3ed7_0a3d,
            src_cx: 0x3ee6_6666,
            src_cy: 0x3ee6_6666,
            notches: [
                scribbled_notch(0x3dcc_cccd, 0x3f00_0000, 0x3da3_d70a, 0x3f00_0000),
                unset_notch(),
                unset_notch(),
                unset_notch(),
            ],
            notch_count: 1,
            outer_scrib: ScribbleEdge::NoEdge,
            dx: 0xbf99_999a,
            dy: 0xbf99_999a,
            steps: 55,
            base_hue: 0x3f66_6666,
            sat: 0x3f70_a3d7,
            val: 0x3f4c_cccd,
            edge_hue: 0x3f66_6666,
            scrib_amp: 0x4140_0000,
            hue_spread: 0x3e0f_5c29,
            edge_grow: 0x3d75_c28f,
        },
        // orange rectangle (top right)
        CascadeShape {
            cx: 0x3f33_3333,
            cy: 0x3e99_999a,
            hw: 0x3ed7_0a3d,
            hh: 0x3ed7_0a3d,
            src_cx: 0x3e99_999a,
            src_cy: 0x3f40_0000,
            notches: [
                unset_notch(),
                unset_notch(),
                unset_notch(),
                unset_notch(),
            ],
            notch_count: 0,
            outer_scrib: ScribbleEdge::Left,
            dx: 0x3f99_999a,
            dy: 0xbf99_999a,
            steps: 55,
            base_hue: 0x3d8f_5c29,
            sat: 0x3f73_3333,
            val: 0x3f6e_147b,
            edge_hue: 0x3d8f_5c29,
            scrib_amp: 0x4130_0000,
            hue_spread: 0x3e0f_5c29,
            edge_grow: 0x3d75_c28f,
        },
        // teal rectangle (bottom left)
        CascadeShape {
            cx: 0x3e99_999a,
            cy: 0x3f33_3333,
            hw: 0x3ed7_0a3d,
            hh: 0x3ed7_0a3d,
            src_cx: 0x3f33_3333,
            src_cy: 0x3f0c_cccd,
            notches: [
                unset_notch(),
                unset_notch(),
                unset_notch(),
                unset_notch(),
            ],
            notch_count: 0,
            outer_scrib: ScribbleEdge::Right,
            dx: 0xbf99_999a,
            dy: 0x3f99_999a,
            steps: 55,
            base_hue: 0x3ef0_a3d7,
            sat: 0x3f66_6666,
            val: 0x3f28_f5c3,
            edge_hue: 0x3f00_0000,
            scrib_amp: 0x4140_0000,
            hue_spread: 0x3e0f_5c29,
            edge_grow: 0x3d75_c28f,
        },
        // purple L (bottom right)
        CascadeShape {
            cx: 0x3f33_3333,
            cy: 0x3f33_3333,
            hw: 0x3ed7_0a3d,
            hh: 0x3ed7_0a3d,
            src_cx: 0x3f0c_cccd,
            src_cy: 0x3e80_0000,
            notches: [
                scribbled_notch(0xbf00_0000, 0xbdcc_cccd, 0xbf00_0000, 0xbda3_d70a),
                unset_notch(),
                unset_notch(),
                unset_notch(),
            ],
            notch_count: 1,
            outer_scrib: ScribbleEdge::NoEdge,
            dx: 0x3f99_999a,
            dy: 0x3f99_999a,
            steps: 55,
            base_hue: 0x3f47_ae14,
            sat: 0x3f4c_cccd,
            val: 0x3f28_f5c3,
            edge_hue: 0x3f6b_851f,
            scrib_amp: 0x4130_0000,
            hue_spread: 0x3e0f_5c29,
            edge_grow: 0x3d75_c28f,
        },
        // blue T
        CascadeShape {
            cx: 0x3f00_0000,
            cy: 0x3eae_147b,
            hw: 0x3e75_c28f,
            hh: 0x3e4c_cccd,
            src_cx: 0x3f00_0000,
            src_cy: 0x3ecc_cccd,
            notches: [
                scribbled_notch(0xbe99_999a, 0xbdb8_51ec, 0x3d23_d70a, 0x3e99_999a),
                scribbled_notch(0x3db8_51ec, 0x3e99_999a, 0x3d23_d70a, 0x3e99_999a),
                unset_notch(),
                unset_notch(),
            ],
            notch_count: 2,
            outer_scrib: ScribbleEdge::NoEdge,
            dx: 0x3f66_6666,
            dy: 0x3f8c_cccd,
            steps: 38,
            base_hue: 0x3f19_999a,
            sat: 0x3f59_999a,
            val: 0x3f59_999a,
            edge_hue: 0x3f0c_cccd,
            scrib_amp: 0x4130_0000,
            hue_spread: 0x3e0f_5c29,
            edge_grow: 0x3d75_c28f,
        },
        // green U
        CascadeShape {
            cx: 0x3eae_147b,
            cy: 0x3f19_999a,
            hw: 0x3e4c_cccd,
            hh: 0x3e4c_cccd,
            src_cx: 0x3f1e_b852,
            src_cy: 0x3f00_0000,
            notches: [
                scribbled_notch(0xbdcc_cccd, 0x3dcc_cccd, 0xbe99_999a, 0x3cf5_c28f),
                unset_notch(),
                unset_notch(),
                unset_notch(),
            ],
            notch_count: 1,
            outer_scrib: ScribbleEdge::NoEdge,
            dx: 0xbf80_0000,
            dy: 0x3f4c_cccd,
            steps: 38,
            base_hue: 0x3ea8_f5c3,
            sat: 0x3f51_eb85,
            val: 0x3f4c_cccd,
            edge_hue: 0x3ea8_f5c3,
            scrib_amp: 0x4130_0000,
            hue_spread: 0x3e0f_5c29,
            edge_grow: 0x3d75_c28f,
        },
        // yellow plus
        CascadeShape {
            cx: 0x3f28_f5c3,
            cy: 0x3f0f_5c29,
            hw: 0x3e2e_147b,
            hh: 0x3e2e_147b,
            src_cx: 0x3ecc_cccd,
            src_cy: 0x3e99_999a,
            notches: [
                scribbled_notch(0xbe99_999a, 0xbd8f_5c29, 0xbe99_999a, 0xbd8f_5c29),
                scribbled_notch(0x3d8f_5c29, 0x3e99_999a, 0xbe99_999a, 0xbd8f_5c29),
                scribbled_notch(0xbe99_999a, 0xbd8f_5c29, 0x3d8f_5c29, 0x3e99_999a),
                scribbled_notch(0x3d8f_5c29, 0x3e99_999a, 0x3d8f_5c29, 0x3e99_999a),
            ],
            notch_count: 4,
            outer_scrib: ScribbleEdge::NoEdge,
            dx: 0x3f80_0000,
            dy: 0xbf66_6666,
            steps: 34,
            base_hue: 0x3e19_999a,
            sat: 0x3f6b_851f,
            val: 0x3f6b_851f,
            edge_hue: 0x3e19_999a,
            scrib_amp: 0x4130_0000,
            hue_spread: 0x3e0f_5c29,
            edge_grow: 0x3d75_c28f,
        },
        // red staircase
        CascadeShape {
            cx: 0x3f00_0000,
            cy: 0x3f4c_cccd,
            hw: 0x3e85_1eb8,
            hh: 0x3e23_d70a,
            src_cx: 0x3e99_999a,
            src_cy: 0x3f26_6666,
            notches: [
                scribbled_notch(0x3d4c_cccd, 0x3ea3_d70a, 0xbe4c_cccd, 0x3ca3_d70a),
                scribbled_notch(0xbe4c_cccd, 0x3d4c_cccd, 0xbe4c_cccd, 0xbd4c_cccd),
                unset_notch(),
                unset_notch(),
            ],
            notch_count: 2,
            outer_scrib: ScribbleEdge::NoEdge,
            dx: 0xbf4c_cccd,
            dy: 0x3f80_0000,
            steps: 34,
            base_hue: 0x3f7d_70a4,
            sat: 0x3f66_6666,
            val: 0x3f59_999a,
            edge_hue: 0x3f7d_70a4,
            scrib_amp: 0x4130_0000,
            hue_spread: 0x3e0f_5c29,
            edge_grow: 0x3d75_c28f,
        },
    ]
}

impl Default for CascadeCollageSettings {
    /// The documented composition ([`default_collage_shapes`]) on a dark purple
    /// floor (0.118, 0.047, 0.157); scribble scale 1, morph rate 0.12, no hue drift,
    /// brightness swing 0.12, edge width 2.5, edge strength 0.85, edge saturation
    /// and value 1, face strength 0.55, face saturation 0.85, 5 hue steps, no edge
    /// detection, normal blending at full opacity, seed 71.
    fn default() -> (r: Self)
        ensures
            r.shapes@ == default_collage_shapes(),
            r.background == [0x3df1_a9fcu32, 0x3d40_8312u32, 0x3e20_c49cu32],
            r.scrib_amp_scale == 0x3f80_0000,
            r.morph_rate == 0x3df5_c28f,
            r.frame_hue_rate == 0,
            r.bright_osc == 0x3df5_c28f,
            r.edge_width == 0x4020_0000,
            r.edge_strength == 0x3f59_999a,
            r.edge_sat == 0x3f80_0000,
            r.edge_val == 0x3f80_0000,
            r.face_strength == 0x3f0c_cccd,
            r.face_sat == 0x3f59_999a,
            r.hue_steps == 5,
            r.edge_detect == 0,
            r.block_blend == BlendMode::Normal,
            r.block_opacity == 0x3f80_0000,
            r.seed == 71,
    {
        let mut shapes: Vec<CascadeShape> = Vec::new();
        // magenta L (top left)
        shapes.push(CascadeShape {
            cx: 0x3e99_999a,
            cy: 0x3e99_999a,
            hw: 0x3ed7_0a3d,
            hh: 0x3ed7_0a3d,
            src_cx: 0x3ee6_6666,
            src_cy: 0x3ee6_6666,
            notches: [
                Notch { u0: 0x3dcc_cccd, u1: 0x3f00_0000, v0: 0x3da3_d70a, v1: 0x3f00_0000, scrib: true },
                Notch::default(),
                Notch::default(),
                Notch::default(),
            ],
            notch_count: 1,
            outer_scrib: ScribbleEdge::NoEdge,
            dx: 0xbf99_999a,
            dy: 0xbf99_999a,
            steps: 55,
            base_hue: 0x3f66_6666,
            sat: 0x3f70_a3d7,
            val: 0x3f4c_cccd,
            edge_hue: 0x3f66_6666,
            scrib_amp: 0x4140_0000,
            hue_spread: 0x3e0f_5c29,
            edge_grow: 0x3d75_c28f,
        });
        // orange rectangle (top right)
        shapes.push(CascadeShape {
            cx: 0x3f33_3333,
            cy: 0x3e99_999a,
            hw: 0x3ed7_0a3d,
            hh: 0x3ed7_0a3d,
            src_cx: 0x3e99_999a,
            src_cy: 0x3f40_0000,
            notches: [
                Notch::default(),
                Notch::default(),
                Notch::default(),
                Notch::default(),
            ],
            notch_count: 0,
            outer_scrib: ScribbleEdge::Left,
            dx: 0x3f99_999a,
            dy: 0xbf99_999a,
            steps: 55,
            base_hue: 0x3d8f_5c29,
            sat: 0x3f73_3333,
            val: 0x3f6e_147b,
            edge_hue: 0x3d8f_5c29,
            scrib_amp: 0x4130_0000,
            hue_spread: 0x3e0f_5c29,
            edge_grow: 0x3d75_c28f,
        });
        // teal rectangle (bottom left)
        shapes.push(CascadeShape {
            cx: 0x3e99_999a,
            cy: 0x3f33_3333,
            hw: 0x3ed7_0a3d,
            hh: 0x3ed7_0a3d,
            src_cx: 0x3f33_3333,
            src_cy: 0x3f0c_cccd,
            notches: [
                Notch::default(),
                Notch::default(),
                Notch::default(),
                Notch::default(),
            ],
            notch_count: 0,
            outer_scrib: ScribbleEdge::Right,
            dx: 0xbf99_999a,
            dy: 0x3f99_999a,
            steps: 55,
            base_hue: 0x3ef0_a3d7,
            sat: 0x3f66_6666,
            val: 0x3f28_f5c3,
            edge_hue: 0x3f00_0000,
            scrib_amp: 0x4140_0000,
            hue_spread: 0x3e0f_5c29,
            edge_grow: 0x3d75_c28f,
        });
        // purple L (bottom right)
        shapes.push(CascadeShape {
            cx: 0x3f33_3333,
            cy: 0x3f33_3333,
            hw: 0x3ed7_0a3d,
            hh: 0x3ed7_0a3d,
            src_cx: 0x3f0c_cccd,
            src_cy: 0x3e80_0000,
            notches: [
                Notch { u0: 0xbf00_0000, u1: 0xbdcc_cccd, v0: 0xbf00_0000, v1: 0xbda3_d70a, scrib: true },
                Notch::default(),
                Notch::default(),
                Notch::default(),
            ],
            notch_count: 1,
            outer_scrib: ScribbleEdge::NoEdge,
            dx: 0x3f99_999a,
            dy: 0x3f99_999a,
            steps: 55,
            base_hue: 0x3f47_ae14,
            sat: 0x3f4c_cccd,
            val: 0x3f28_f5c3,
            edge_hue: 0x3f6b_851f,
            scrib_amp: 0x4130_0000,
            hue_spread: 0x3e0f_5c29,
            edge_grow: 0x3d75_c28f,
        });
        // blue T
        shapes.push(CascadeShape {
            cx: 0x3f00_0000,
            cy: 0x3eae_147b,
            hw: 0x3e75_c28f,
            hh: 0x3e4c_cccd,
            src_cx: 0x3f00_0000,
            src_cy: 0x3ecc_cccd,
            notches: [
                Notch { u0: 0xbe99_999a, u1: 0xbdb8_51ec, v0: 0x3d23_d70a, v1: 0x3e99_999a, scrib: true },
                Notch { u0: 0x3db8_51ec, u1: 0x3e99_999a, v0: 0x3d23_d70a, v1: 0x3e99_999a, scrib: true },
                Notch::default(),
                Notch::default(),
            ],
            notch_count: 2,
            outer_scrib: ScribbleEdge::NoEdge,
            dx: 0x3f66_6666,
            dy: 0x3f8c_cccd,
            steps: 38,
            base_hue: 0x3f19_999a,
            sat: 0x3f59_999a,
            val: 0x3f59_999a,
            edge_hue: 0x3f0c_cccd,
            scrib_amp: 0x4130_0000,
            hue_spread: 0x3e0f_5c29,
            edge_grow: 0x3d75_c28f,
        });
        // green U
        shapes.push(CascadeShape {
            cx: 0x3eae_147b,
            cy: 0x3f19_999a,
            hw: 0x3e4c_cccd,
            hh: 0x3e4c_cccd,
            src_cx: 0x3f1e_b852,
            src_cy: 0x3f00_0000,
            notches: [
                Notch { u0: 0xbdcc_cccd, u1: 0x3dcc_cccd, v0: 0xbe99_999a, v1: 0x3cf5_c28f, scrib: true },
                Notch::default(),
                Notch::default(),
                Notch::default(),
            ],
            notch_count: 1,
            outer_scrib: ScribbleEdge::NoEdge,
            dx: 0xbf80_0000,
            dy: 0x3f4c_cccd,
            steps: 38,
            base_hue: 0x3ea8_f5c3,
            sat: 0x3f51_eb85,
            val: 0x3f4c_cccd,
            edge_hue: 0x3ea8_f5c3,
            scrib_amp: 0x4130_0000,
            hue_spread: 0x3e0f_5c29,
            edge_grow: 0x3d75_c28f,
        });
        // yellow plus
        shapes.push(CascadeShape {
            cx: 0x3f28_f5c3,
            cy: 0x3f0f_5c29,
            hw: 0x3e2e_147b,
            hh: 0x3e2e_147b,
            src_cx: 0x3ecc_cccd,
            src_cy: 0x3e99_999a,
            notches: [
                Notch { u0: 0xbe99_999a, u1: 0xbd8f_5c29, v0: 0xbe99_999a, v1: 0xbd8f_5c29, scrib: true },
                Notch { u0: 0x3d8f_5c29, u1: 0x3e99_999a, v0: 0xbe99_999a, v1: 0xbd8f_5c29, scrib: true },
                Notch { u0: 0xbe99_999a, u1: 0xbd8f_5c29, v0: 0x3d8f_5c29, v1: 0x3e99_999a, scrib: true },
                Notch { u0: 0x3d8f_5c29, u1: 0x3e99_999a, v0: 0x3d8f_5c29, v1: 0x3e99_999a, scrib: true },
            ],
            notch_count: 4,
            outer_scrib: ScribbleEdge::NoEdge,
            dx: 0x3f80_0000,
            dy: 0xbf66_6666,
            steps: 34,
            base_hue: 0x3e19_999a,
            sat: 0x3f6b_851f,
            val: 0x3f6b_851f,
            edge_hue: 0x3e19_999a,
            scrib_amp: 0x4130_0000,
            hue_spread: 0x3e0f_5c29,
            edge_grow: 0x3d75_c28f,
        });
        // red staircase
        shapes.push(CascadeShape {
            cx: 0x3f00_0000,
            cy: 0x3f4c_cccd,
            hw: 0x3e85_1eb8,
            hh: 0x3e23_d70a,
            src_cx: 0x3e99_999a,
            src_cy: 0x3f26_6666,
            notches: [
                Notch { u0: 0x3d4c_cccd, u1: 0x3ea3_d70a, v0: 0xbe4c_cccd, v1: 0x3ca3_d70a, scrib: true },
                Notch { u0: 0xbe4c_cccd, u1: 0x3d4c_cccd, v0: 0xbe4c_cccd, v1: 0xbd4c_cccd, scrib: true },
                Notch::default(),
                Notch::default(),
            ],
            notch_count: 2,
            outer_scrib: ScribbleEdge::NoEdge,
            dx: 0xbf4c_cccd,
            dy: 0x3f80_0000,
            steps: 34,
            base_hue: 0x3f7d_70a4,
            sat: 0x3f66_6666,
            val: 0x3f59_999a,
            edge_hue: 0x3f7d_70a4,
            scrib_amp: 0x4130_0000,
            hue_spread: 0x3e0f_5c29,
            edge_grow: 0x3d75_c28f,
        });
        assert(shapes@ =~= default_collage_shapes());
        CascadeCollageSettings {
            background: [0x3df1_a9fc, 0x3d40_8312, 0x3e20_c49c],
            shapes,
            scrib_amp_scale: 0x3f80_0000,
            morph_rate: 0x3df5_c28f,
            frame_hue_rate: 0,
            bright_osc: 0x3df5_c28f,
            edge_width: 0x4020_0000,
            edge_strength: 0x3f59_999a,
            edge_sat: 0x3f80_0000,
            edge_val: 0x3f80_0000,
            face_strength: 0x3f0c_cccd,
            face_sat: 0x3f59_999a,
            hue_steps: 5,
            edge_detect: 0,
            block_blend: BlendMode::Normal,
            block_opacity: 0x3f80_0000,
            seed: 71,
        }
    }
}

/// Settings of the persistent-trail cascade; every `f32` knob is carried as
/// its bit pattern.
#[derive(Debug, Clone, Copy, PartialEq, Eq)]
pub struct CascadeTrailSettings {
    /// Edge length of each stamped tile.
    pub tile_size: u32,
    /// Spacing between tile homes.
    pub grid_spacing: u32,
    pub advect: u32,
    pub turbulence_scale: u32,
    pub detail: u32,
    pub live_refresh: bool,
    pub seed: u64,
    pub field: CascadeFieldType,
    pub river_direction: u32,
    pub river_speed: u32,
    pub river_turbulence: u32,
    pub temporal_tiles: bool,
}

impl CascadeTrailSettings {
    /// Positive tile size and spacing, every knob finite, detail not negative.
    pub open spec fn valid(&self) -> bool {
        &&& self.tile_size > 0
        &&& self.grid_spacing > 0
        &&& f32_bits_finite(self.advect)
        &&& f32_bits_finite(self.turbulence_scale)
        &&& f32_bits_finite(self.detail)
        &&& f32_bits_finite(self.river_direction)
        &&& f32_bits_finite(self.river_speed)
        &&& f32_bits_finite(self.river_turbulence)
        &&& !f32_bits_negative(self.detail)
    }

    /// Refuses an empty tile or spacing, non-finite knobs and negative detail.
    pub fn validate(&self) -> (r: Result<(), RenderError>)
        ensures
            r is Ok <==> self.valid(),
            r matches Err(e) ==> e is InvalidCoagulationSettings,
    {
        if self.tile_size == 0 {
            return Err(coagulation_error("tile_size must be greater than zero"));
        }
        if self.grid_spacing == 0 {
            return Err(coagulation_error("grid_spacing must be greater than zero"));
        }
        if !is_finite_bits(self.advect) {
            return Err(coagulation_error("advect must be finite"));
        }
        if !is_finite_bits(self.turbulence_scale) {
            return Err(coagulation_error("turbulence_scale must be finite"));
        }
        if !is_finite_bits(self.detail) {
            return Err(coagulation_error("detail must be finite"));
        }
        if !is_finite_bits(self.river_direction) {
            return Err(coagulation_error("river_direction must be finite"));
        }
        if !is_finite_bits(self.river_speed) {
            return Err(coagulation_error("river_speed must be finite"));
        }
        if !is_finite_bits(self.river_turbulence) {
            return Err(coagulation_error("river_turbulence must be finite"));
        }
        if is_negative_bits(self.detail) {
            return Err(coagulation_error("detail must be non-negative"));
        }
        Ok(())
    }
}

/// The key that a trail tile's home position and the global seed hash.
pub open spec fn tile_key(seed: u64, home_x: u32, home_y: u32) -> u64 {
    seed ^ ((home_x as u64).wrapping_mul(0x9e37_79b9_7f4a_7c15) ^ (home_y as u64).wrapping_mul(
        0x6c62_272e_07bb_0142,
    ))
}

/// The hash of a trail tile's home grid position under the global seed.
pub fn tile_hash(seed: u64, home_x: u32, home_y: u32) -> (r: u64)
    ensures
        r == splitmix_spec(tile_key(seed, home_x, home_y)),
{
    splitmix(
        seed ^ ((home_x as u64).wrapping_mul(0x9e37_79b9_7f4a_7c15) ^ (home_y as u64).wrapping_mul(
            0x6c62_272e_07bb_0142,
        )),
    )
}

/// The frame whose patch tile `i` of `n_tiles` carries when the tiles are
/// spread evenly over a clip of `n_frames` frames.
pub open spec fn temporal_frame(i: int, n_tiles: int, n_frames: int) -> int {
    (i * n_frames) / n_tiles
}

/// The frame whose patch tile `i` of `n_tiles` carries when the tiles are
/// spread evenly over a clip of `n_frames` frames.
pub fn temporal_frame_index(i: usize, n_tiles: usize, n_frames: usize) -> (r: usize)
    requires
        i < n_tiles,
        i * n_frames <= usize::MAX,
    ensures
        r == temporal_frame(i as int, n_tiles as int, n_frames as int),
        n_frames > 0 ==> r < n_frames,
{
    proof {
        lemma_temporal_frame_bounds(i as int, n_tiles as int, n_frames as int);
    }
    (i * n_frames) / n_tiles
}

proof fn lemma_temporal_frame_bounds(i: int, n_tiles: int, n_frames: int)
    requires
        0 <= i < n_tiles,
        0 <= n_frames,
    ensures
        0 <= temporal_frame(i, n_tiles, n_frames),
        n_frames > 0 ==> temporal_frame(i, n_tiles, n_frames) < n_frames,
{
    assert(0 <= (i * n_frames) / n_tiles) by (nonlinear_arith)
        requires
            0 <= i < n_tiles,
            0 <= n_frames,
    ;
    if n_frames > 0 {
        assert((i * n_frames) / n_tiles < n_frames) by (nonlinear_arith)
            requires
                0 <= i < n_tiles,
                0 < n_frames,
        ;
    }
}

/// Spreading tiles over a clip: the first tile carries the first frame,
/// every tile carries a frame of the clip, later tiles never carry earlier
/// frames, and when there are at least as many tiles as frames the last tile
/// carries the last frame.
pub proof fn law_temporal_spread(n_tiles: int, n_frames: int, i: int, j: int)
    requires
        0 < n_tiles,
        0 < n_frames,
        0 <= i <= j < n_tiles,
    ensures
        temporal_frame(0, n_tiles, n_frames) == 0,
        0 <= temporal_frame(i, n_tiles, n_frames) <= temporal_frame(j, n_tiles, n_frames)
            < n_frames,
        n_frames <= n_tiles ==> temporal_frame(n_tiles - 1, n_tiles, n_frames) == n_frames - 1,
{
    lemma_temporal_frame_bounds(i, n_tiles, n_frames);
    lemma_temporal_frame_bounds(j, n_tiles, n_frames);
    assert(0 * n_frames == 0);
    assert((i * n_frames) / n_tiles <= (j * n_frames) / n_tiles) by (nonlinear_arith)
        requires
            0 <= i <= j,
            0 < n_tiles,
            0 < n_frames,
    ;
    if n_frames <= n_tiles {
        let p = (n_tiles - 1) * n_frames;
        assert(p == n_tiles * (n_frames - 1) + (n_tiles - n_frames)) by (nonlinear_arith)
            requires
                p == (n_tiles - 1) * n_frames,
        ;
        assert(p / n_tiles == n_frames - 1) by (nonlinear_arith)
            requires
                p == n_tiles * (n_frames - 1) + (n_tiles - n_frames),
                0 < n_frames <= n_tiles,
        ;
    }
}

impl Default for CascadeTrailSettings {
    /// The documented defaults; the `f32` knobs are the bit patterns of
    /// `advect` 1.6, `turbulence_scale` 0.008, `detail` 0.1, `river_direction` 0.0,
    /// `river_speed` 3.0, `river_turbulence` 0.8.
    fn default() -> (r: Self)
        ensures
            r == (CascadeTrailSettings {
                tile_size: 28,
                grid_spacing: 60,
                advect: 0x3fcc_cccd,
                turbulence_scale: 0x3c03_126f,
                detail: 0x3dcc_cccd,
                live_refresh: true,
                seed: 0,
                field: CascadeFieldType::Vortex,
                river_direction: 0x0000_0000,
                river_speed: 0x4040_0000,
                river_turbulence: 0x3f4c_cccd,
                temporal_tiles: false,
            }),
    {
        CascadeTrailSettings {
            tile_size: 28,
            grid_spacing: 60,
            advect: 0x3fcc_cccd,
            turbulence_scale: 0x3c03_126f,
            detail: 0x3dcc_cccd,
            live_refresh: true,
            seed: 0,
            field: CascadeFieldType::Vortex,
            river_direction: 0x0000_0000,
            river_speed: 0x4040_0000,
            river_turbulence: 0x3f4c_cccd,
            temporal_tiles: false,
        }
    }
}

} // verus!
