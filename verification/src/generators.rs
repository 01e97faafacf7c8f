//! The oscillator bank's presets and the algorithm identifier each records.

use vstd::prelude::*;
use crate::error::RenderError;
use crate::float_bits::{f32_bits_finite, is_finite_bits};

verus! {

/// Algorithm identifier of the scrolling scan-bars preset.
pub const OSCILLATOR_SCAN_BARS_ALGORITHM: &'static str = "oscillator_scan_bars_cpu_v1";

/// Algorithm identifier of the breathing radial-rings preset.
pub const OSCILLATOR_RADIAL_ALGORITHM: &'static str = "oscillator_radial_cpu_v1";

/// Algorithm identifier of the plasma preset.
pub const OSCILLATOR_PLASMA_ALGORITHM: &'static str = "oscillator_plasma_cpu_v1";

/// Algorithm identifier of the sweeping-gradient preset.
pub const OSCILLATOR_GRADIENT_ALGORITHM: &'static str = "oscillator_gradient_cpu_v1";

/// Which oscillator preset to render.
#[derive(Debug, Clone, Copy, PartialEq, Eq, Structural)]
pub enum GeneratorPreset {
    /// Vertical bars scrolling horizontally.
    ScanBars,
    /// Concentric rings breathing outward from the centre.
    Radial,
    /// Drifting interference plus hash-noise shimmer, colourized by hue.
    Plasma,
    /// A linear gradient sweeping its angle.
    Gradient,
}

impl Default for GeneratorPreset {
    fn default() -> (r: Self)
        ensures
            r == GeneratorPreset::ScanBars,
    {
        GeneratorPreset::ScanBars
    }
}

/// The algorithm identifier each preset records.
pub open spec fn preset_algorithm(preset: GeneratorPreset) -> Seq<char> {
    match preset {
        GeneratorPreset::ScanBars => OSCILLATOR_SCAN_BARS_ALGORITHM@,
        GeneratorPreset::Radial => OSCILLATOR_RADIAL_ALGORITHM@,
        GeneratorPreset::Plasma => OSCILLATOR_PLASMA_ALGORITHM@,
        GeneratorPreset::Gradient => OSCILLATOR_GRADIENT_ALGORITHM@,
    }
}

impl GeneratorPreset {
    /// The algorithm identifier recorded in the manifest for this preset.
    pub fn algorithm_id(self) -> (r: &'static str)
        ensures
            r@ == preset_algorithm(self),
    {
        match self {
            GeneratorPreset::ScanBars => OSCILLATOR_SCAN_BARS_ALGORITHM,
            GeneratorPreset::Radial => OSCILLATOR_RADIAL_ALGORITHM,
            GeneratorPreset::Plasma => OSCILLATOR_PLASMA_ALGORITHM,
            GeneratorPreset::Gradient => OSCILLATOR_GRADIENT_ALGORITHM,
        }
    }
}

/// Each preset is its own algorithm: no two presets record the same identifier.
pub proof fn law_one_algorithm_per_preset(a: GeneratorPreset, b: GeneratorPreset)
    ensures
        preset_algorithm(a) == preset_algorithm(b) <==> a == b,
{
    reveal_strlit("oscillator_scan_bars_cpu_v1");
    reveal_strlit("oscillator_radial_cpu_v1");
    reveal_strlit("oscillator_plasma_cpu_v1");
    reveal_strlit("oscillator_gradient_cpu_v1");
    assert(OSCILLATOR_SCAN_BARS_ALGORITHM@[11] != OSCILLATOR_RADIAL_ALGORITHM@[11]);
    assert(OSCILLATOR_SCAN_BARS_ALGORITHM@[11] != OSCILLATOR_PLASMA_ALGORITHM@[11]);
    assert(OSCILLATOR_SCAN_BARS_ALGORITHM@[11] != OSCILLATOR_GRADIENT_ALGORITHM@[11]);
    assert(OSCILLATOR_RADIAL_ALGORITHM@[11] != OSCILLATOR_PLASMA_ALGORITHM@[11]);
    assert(OSCILLATOR_RADIAL_ALGORITHM@[11] != OSCILLATOR_GRADIENT_ALGORITHM@[11]);
    assert(OSCILLATOR_PLASMA_ALGORITHM@[11] != OSCILLATOR_GRADIENT_ALGORITHM@[11]);
}

/// Per-frame knobs shared by every preset; `rate`, `phase` and `scale` are
/// `f32` bit patterns.
#[derive(Debug, Clone, Copy, PartialEq, Eq)]
pub struct GeneratorSettings {
    pub width: u32,
    pub height: u32,
    /// Phase advance per frame.
    pub rate: u32,
    /// Initial phase.
    pub phase: u32,
    /// Spatial frequency of the pattern.
    pub scale: u32,
    /// Plasma noise lattice key.
    pub seed: u64,
}

impl GeneratorSettings {
    /// A non-empty frame and finite rate, phase and scale.
    pub open spec fn valid(&self) -> bool {
        &&& self.width > 0
        &&& self.height > 0
        &&& f32_bits_finite(self.rate)
        &&& f32_bits_finite(self.phase)
        &&& f32_bits_finite(self.scale)
    }

    /// Refuses an empty frame and non-finite knobs.
    pub fn validate(&self) -> (r: Result<(), RenderError>)
        ensures
            r is Ok <==> self.valid(),
            r matches Err(e) ==> e is InvalidGeneratorSettings,
    {
        if self.width == 0 || self.height == 0 {
            return Err(
                RenderError::InvalidGeneratorSettings(
                    String::from_str("width and height must be >= 1"),
                ),
            );
        }
        if !is_finite_bits(self.rate) || !is_finite_bits(self.phase) || !is_finite_bits(self.scale) {
            return Err(
                RenderError::InvalidGeneratorSettings(
                    String::from_str("rate, phase, and scale must be finite"),
                ),
            );
        }
        Ok(())
    }
}

impl Default for GeneratorSettings {
    /// The documented defaults; the `f32` knobs are the bit patterns of
    /// `rate` 0.02, `phase` 0.0, `scale` 4.0.
    fn default() -> (r: Self)
        ensures
            r == (GeneratorSettings {
                width: 640,
                height: 360,
                rate: 0x3ca3_d70a,
                phase: 0x0000_0000,
                scale: 0x4080_0000,
                seed: 71,
            }),
    {
        GeneratorSettings {
            width: 640,
            height: 360,
            rate: 0x3ca3_d70a,
            phase: 0x0000_0000,
            scale: 0x4080_0000,
            seed: 71,
        }
    }
}

} // verus!
