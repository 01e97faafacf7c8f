//! Coagulated-blend settings and the source of the field-advecting flow.

use vstd::prelude::*;
use crate::error::RenderError;
use crate::float_bits::{f32_bits_finite, f32_bits_zero, is_finite_bits, is_zero_bits};

verus! {

/// Algorithm identifier of the coagulated blend.
pub const COAGULATED_BLEND_ALGORITHM: &'static str = "descriptor_coagulated_flow_blend_cpu_v1";

/// Source of the vector field that advects the ownership field each frame.
#[derive(Debug, Clone, Copy, PartialEq, Eq, Structural)]
pub enum CoagulationFlowSource {
    /// Optical flow between consecutive Source A frames.
    AFlow,
    /// Optical flow between consecutive Source B frames.
    BFlow,
    /// Per-cell mean of the A and B flows.
    Mixed,
    /// Deterministic synthetic turbulence (needs no input frames).
    Turbulence,
}

/// Settings of the coagulated blend; every `f32` knob is carried as its bit
/// pattern.
#[derive(Debug, Clone, Copy, PartialEq, Eq)]
pub struct CoagulationSettings {
    pub patch_size: u32,
    pub color_weight: u32,
    pub texture_weight: u32,
    pub coherence_passes: u32,
    pub coherence_strength: u32,
    pub randomness: u32,
    pub coagulation_strength: u32,
    pub edge_hardness: u32,
    pub edge_dither: u32,
    pub bias: u32,
    pub block_jitter: u32,
    pub seed: u64,
}

impl CoagulationSettings {
    /// The documented off case: no coagulation, no scatter and no bias, so the
    /// ownership field is zero everywhere and the blend is Source B verbatim.
    pub fn is_passthrough(&self) -> (r: bool)
        ensures
            r == (f32_bits_zero(self.coagulation_strength) && f32_bits_zero(self.randomness)
                && f32_bits_zero(self.bias)),
    {
        is_zero_bits(self.coagulation_strength) && is_zero_bits(self.randomness) && is_zero_bits(
            self.bias,
        )
    }

    /// A positive patch size and every knob finite.
    pub open spec fn valid(&self) -> bool {
        &&& self.patch_size > 0
        &&& f32_bits_finite(self.color_weight)
        &&& f32_bits_finite(self.texture_weight)
        &&& f32_bits_finite(self.block_jitter)
        &&& f32_bits_finite(self.coherence_strength)
        &&& f32_bits_finite(self.randomness)
        &&& f32_bits_finite(self.coagulation_strength)
        &&& f32_bits_finite(self.edge_hardness)
        &&& f32_bits_finite(self.edge_dither)
        &&& f32_bits_finite(self.bias)
    }

    /// Refuses a zero patch size and any knob that is not finite.
    pub fn validate(&self) -> (r: Result<(), RenderError>)
        ensures
            r is Ok <==> self.valid(),
            r matches Err(e) ==> e is InvalidCoagulationSettings,
    {
        if self.patch_size == 0 {
            return Err(coagulation_error("patch_size must be greater than zero"));
        }
        if !is_finite_bits(self.color_weight) {
            return Err(coagulation_error("color_weight must be finite"));
        }
        if !is_finite_bits(self.texture_weight) {
            return Err(coagulation_error("texture_weight must be finite"));
        }
        if !is_finite_bits(self.block_jitter) {
            return Err(coagulation_error("block_jitter must be finite"));
        }
        if !is_finite_bits(self.coherence_strength) {
            return Err(coagulation_error("coherence_strength must be finite"));
        }
        if !is_finite_bits(self.randomness) {
            return Err(coagulation_error("randomness must be finite"));
        }
        if !is_finite_bits(self.coagulation_strength) {
            return Err(coagulation_error("coagulation_strength must be finite"));
        }
        if !is_finite_bits(self.edge_hardness) {
            return Err(coagulation_error("edge_hardness must be finite"));
        }
        if !is_finite_bits(self.edge_dither) {
            return Err(coagulation_error("edge_dither must be finite"));
        }
        if !is_finite_bits(self.bias) {
            return Err(coagulation_error("bias must be finite"));
        }
        Ok(())
    }
}

/// The coagulation-settings refusal with `detail`.
pub fn coagulation_error(detail: &str) -> (e: RenderError)
    ensures
        e matches RenderError::InvalidCoagulationSettings(d) && d@ == detail@,
{
    RenderError::InvalidCoagulationSettings(String::from_str(detail))
}

impl Default for CoagulationSettings {
    /// The documented defaults; the `f32` knobs are the bit patterns of
    /// `color_weight` 1.0, `texture_weight` 0.0, `coherence_strength` 0.5, `randomness` 0.0,
    /// `coagulation_strength` 0.0, `edge_hardness` 0.0, `edge_dither` 0.0, `bias` 0.0,
    /// `block_jitter` 0.0.
    fn default() -> (r: Self)
        ensures
            r == (CoagulationSettings {
                patch_size: 16,
                color_weight: 0x3f80_0000,
                texture_weight: 0x0000_0000,
                coherence_passes: 2,
                coherence_strength: 0x3f00_0000,
                randomness: 0x0000_0000,
                coagulation_strength: 0x0000_0000,
                edge_hardness: 0x0000_0000,
                edge_dither: 0x0000_0000,
                bias: 0x0000_0000,
                block_jitter: 0x0000_0000,
                seed: 0,
            }),
    {
        CoagulationSettings {
            patch_size: 16,
            color_weight: 0x3f80_0000,
            texture_weight: 0x0000_0000,
            coherence_passes: 2,
            coherence_strength: 0x3f00_0000,
            randomness: 0x0000_0000,
            coagulation_strength: 0x0000_0000,
            edge_hardness: 0x0000_0000,
            edge_dither: 0x0000_0000,
            bias: 0x0000_0000,
            block_jitter: 0x0000_0000,
            seed: 0,
        }
    }
}

} // verus!
