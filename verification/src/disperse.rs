//! Colour-group dispersion settings, and the ownership-field settings they
//! derive.

use vstd::prelude::*;
use crate::error::RenderError;
use crate::coagulate::{coagulation_error, CoagulationSettings};
use crate::float_bits::{f32_bits_finite, is_finite_bits};

verus! {

/// Algorithm identifier of the dispersion blend.
pub const DISPERSION_BLEND_ALGORITHM: &'static str = "colour_group_dispersion_blend_cpu_v1";

/// Settings of the dispersion blend; every `f32` knob is carried as its bit
/// pattern.
#[derive(Debug, Clone, Copy, PartialEq, Eq)]
pub struct DispersionSettings {
    pub block_size: u32,
    pub color_weight: u32,
    pub texture_weight: u32,
    pub coagulation_strength: u32,
    pub randomness: u32,
    pub coherence_passes: u32,
    pub coherence_strength: u32,
    pub bias: u32,
    pub coherent_amount: u32,
    pub scatter_amount: u32,
    pub damping: u32,
    pub seed: u64,
}

impl DispersionSettings {
    /// A positive block size and every knob finite.
    pub open spec fn valid(&self) -> bool {
        &&& self.block_size > 0
        &&& f32_bits_finite(self.color_weight)
        &&& f32_bits_finite(self.texture_weight)
        &&& f32_bits_finite(self.coagulation_strength)
        &&& f32_bits_finite(self.randomness)
        &&& f32_bits_finite(self.coherence_strength)
        &&& f32_bits_finite(self.bias)
        &&& f32_bits_finite(self.coherent_amount)
        &&& f32_bits_finite(self.scatter_amount)
        &&& f32_bits_finite(self.damping)
    }

    /// Refuses a zero block size and any knob that is not finite.
    pub fn validate(&self) -> (r: Result<(), RenderError>)
        ensures
            r is Ok <==> self.valid(),
            r matches Err(e) ==> e is InvalidCoagulationSettings,
    {
        if self.block_size == 0 {
            return Err(coagulation_error("block_size must be greater than zero"));
        }
        if !is_finite_bits(self.color_weight) {
            return Err(coagulation_error("color_weight must be finite"));
        }
        if !is_finite_bits(self.texture_weight) {
            return Err(coagulation_error("texture_weight must be finite"));
        }
        if !is_finite_bits(self.coagulation_strength) {
            return Err(coagulation_error("coagulation_strength must be finite"));
        }
        if !is_finite_bits(self.randomness) {
            return Err(coagulation_error("randomness must be finite"));
        }
        if !is_finite_bits(self.coherence_strength) {
            return Err(coagulation_error("coherence_strength must be finite"));
        }
        if !is_finite_bits(self.bias) {
            return Err(coagulation_error("bias must be finite"));
        }
        if !is_finite_bits(self.coherent_amount) {
            return Err(coagulation_error("coherent_amount must be finite"));
        }
        if !is_finite_bits(self.scatter_amount) {
            return Err(coagulation_error("scatter_amount must be finite"));
        }
        if !is_finite_bits(self.damping) {
            return Err(coagulation_error("damping must be finite"));
        }
        Ok(())
    }

    /// The colour-grouping settings of the ownership field: the grouping knobs
    /// carried over (the block size as the patch size), the edge and jitter
    /// knobs zero, since the composite samples ownership at displaced points.
    pub open spec fn ownership_settings_spec(&self) -> CoagulationSettings {
        CoagulationSettings {
            patch_size: self.block_size,
            color_weight: self.color_weight,
            texture_weight: self.texture_weight,
            coherence_passes: self.coherence_passes,
            coherence_strength: self.coherence_strength,
            randomness: self.randomness,
            coagulation_strength: self.coagulation_strength,
            edge_hardness: 0,
            edge_dither: 0,
            bias: self.bias,
            block_jitter: 0,
            seed: self.seed,
        }
    }

    /// The colour-grouping settings of the ownership field.
    pub fn ownership_settings(&self) -> (r: CoagulationSettings)
        ensures
            r == self.ownership_settings_spec(),
    {
        CoagulationSettings {
            patch_size: self.block_size,
            color_weight: self.color_weight,
            texture_weight: self.texture_weight,
            coherence_passes: self.coherence_passes,
            coherence_strength: self.coherence_strength,
            randomness: self.randomness,
            coagulation_strength: self.coagulation_strength,
            edge_hardness: 0,
            edge_dither: 0,
            bias: self.bias,
            block_jitter: 0,
            seed: self.seed,
        }
    }
}

/// Settings the dispersion blend accepts give an ownership field settings
/// that the coagulation check accepts.
pub proof fn law_ownership_settings_are_valid(settings: DispersionSettings)
    requires
        settings.valid(),
    ensures
        settings.ownership_settings_spec().valid(),
{
    assert(f32_bits_finite(0u32)) by (bit_vector);
}

impl Default for DispersionSettings {
    /// The documented defaults; the `f32` knobs are the bit patterns of
    /// `color_weight` 1.0, `texture_weight` 0.4, `coagulation_strength` 1.6, `randomness` 0.5,
    /// `coherence_strength` 0.5, `bias` 0.4, `coherent_amount` 1.0, `scatter_amount` 3.0,
    /// `damping` 0.9.
    fn default() -> (r: Self)
        ensures
            r == (DispersionSettings {
                block_size: 8,
                color_weight: 0x3f80_0000,
                texture_weight: 0x3ecc_cccd,
                coagulation_strength: 0x3fcc_cccd,
                randomness: 0x3f00_0000,
                coherence_passes: 2,
                coherence_strength: 0x3f00_0000,
                bias: 0x3ecc_cccd,
                coherent_amount: 0x3f80_0000,
                scatter_amount: 0x4040_0000,
                damping: 0x3f66_6666,
                seed: 0,
            }),
    {
        DispersionSettings {
            block_size: 8,
            color_weight: 0x3f80_0000,
            texture_weight: 0x3ecc_cccd,
            coagulation_strength: 0x3fcc_cccd,
            randomness: 0x3f00_0000,
            coherence_passes: 2,
            coherence_strength: 0x3f00_0000,
            bias: 0x3ecc_cccd,
            coherent_amount: 0x3f80_0000,
            scatter_amount: 0x4040_0000,
            damping: 0x3f66_6666,
            seed: 0,
        }
    }
}

} // verus!
