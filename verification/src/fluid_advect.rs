//! Fluid-advection settings: the single-source curl-noise dye and the
//! two-source variant driven by Source A's motion.

use vstd::prelude::*;
use crate::error::RenderError;
use crate::coagulate::coagulation_error;
use crate::float_bits::{
    f32_bits_finite, f32_bits_negative, f32_bits_in_unit_interval, is_finite_bits,
    is_negative_bits, is_unit_interval_bits,
};

verus! {

/// Algorithm identifier of the curl-noise fluid advection.
pub const FLUID_ADVECT_ALGORITHM: &'static str = "fluid_advect_curl_noise_cpu_v3";

/// The most substeps a frame may run.
pub const FLUID_ADVECT_MAX_SUBSTEPS: u32 = 64;

/// Algorithm identifier of the two-source fluid advection.
pub const FLUID_ADVECT_TWO_SOURCE_ALGORITHM: &'static str = "fluid_advect_two_source_cpu_v1";

/// Settings of the curl-noise fluid advection; every `f32` knob is carried
/// as its bit pattern.
#[derive(Debug, Clone, Copy, PartialEq, Eq)]
pub struct FluidAdvectSettings {
    pub advect: u32,
    pub turbulence_scale: u32,
    pub turbulence_speed: u32,
    pub detail: u32,
    pub reinject: u32,
    pub seed: u64,
    pub substeps: u32,
    pub reinject_blotch: u32,
    pub warp: u32,
    pub diffuse: u32,
}

impl FluidAdvectSettings {
    /// Every knob finite; detail, advect and warp not negative; reinject,
    /// blotch reinject and diffuse in `[0, 1]`; at most the substep cap.
    pub open spec fn valid(&self) -> bool {
        &&& f32_bits_finite(self.advect)
        &&& f32_bits_finite(self.turbulence_scale)
        &&& f32_bits_finite(self.turbulence_speed)
        &&& f32_bits_finite(self.detail)
        &&& f32_bits_finite(self.reinject)
        &&& f32_bits_finite(self.reinject_blotch)
        &&& f32_bits_finite(self.warp)
        &&& f32_bits_finite(self.diffuse)
        &&& !f32_bits_negative(self.detail)
        &&& !f32_bits_negative(self.advect)
        &&& f32_bits_in_unit_interval(self.reinject)
        &&& f32_bits_in_unit_interval(self.reinject_blotch)
        &&& f32_bits_in_unit_interval(self.diffuse)
        &&& !f32_bits_negative(self.warp)
        &&& self.substeps <= FLUID_ADVECT_MAX_SUBSTEPS
    }

    /// Refuses settings the advection cannot run.
    pub fn validate(&self) -> (r: Result<(), RenderError>)
        ensures
            r is Ok <==> self.valid(),
            r matches Err(e) ==> e is InvalidCoagulationSettings,
    {
        if !is_finite_bits(self.advect) {
            return Err(coagulation_error("advect must be finite"));
        }
        if !is_finite_bits(self.turbulence_scale) {
            return Err(coagulation_error("turbulence_scale must be finite"));
        }
        if !is_finite_bits(self.turbulence_speed) {
            return Err(coagulation_error("turbulence_speed must be finite"));
        }
        if !is_finite_bits(self.detail) {
            return Err(coagulation_error("detail must be finite"));
        }
        if !is_finite_bits(self.reinject) {
            return Err(coagulation_error("reinject must be finite"));
        }
        if !is_finite_bits(self.reinject_blotch) {
            return Err(coagulation_error("reinject_blotch must be finite"));
        }
        if !is_finite_bits(self.warp) {
            return Err(coagulation_error("warp must be finite"));
        }
        if !is_finite_bits(self.diffuse) {
            return Err(coagulation_error("diffuse must be finite"));
        }
        if is_negative_bits(self.detail) {
            return Err(coagulation_error("detail must be non-negative"));
        }
        if is_negative_bits(self.advect) {
            return Err(coagulation_error("advect must be non-negative"));
        }
        if !is_unit_interval_bits(self.reinject) {
            return Err(coagulation_error("reinject must be in [0, 1]"));
        }
        if !is_unit_interval_bits(self.reinject_blotch) {
            return Err(coagulation_error("reinject_blotch must be in [0, 1]"));
        }
        if !is_unit_interval_bits(self.diffuse) {
            return Err(coagulation_error("diffuse must be in [0, 1]"));
        }
        if is_negative_bits(self.warp) {
            return Err(coagulation_error("warp must be non-negative"));
        }
        if self.substeps > FLUID_ADVECT_MAX_SUBSTEPS {
            return Err(coagulation_error("substeps must be at most 64"));
        }
        Ok(())
    }
}

/// Settings of the two-source fluid advection; both knobs are `f32` bit patterns.
#[derive(Debug, Clone, Copy, PartialEq, Eq)]
pub struct FluidAdvectTwoSourceSettings {
    pub advect: u32,
    pub reinject: u32,
}

impl FluidAdvectTwoSourceSettings {
    /// A finite advect and a finite reinject in `[0, 1]`.
    pub open spec fn valid(&self) -> bool {
        &&& f32_bits_finite(self.advect)
        &&& f32_bits_finite(self.reinject)
        &&& f32_bits_in_unit_interval(self.reinject)
    }

    /// Refuses a non-finite advect and a reinject outside `[0, 1]`.
    pub fn validate(&self) -> (r: Result<(), RenderError>)
        ensures
            r is Ok <==> self.valid(),
            r matches Err(e) ==> e is InvalidCoagulationSettings,
    {
        if !is_finite_bits(self.advect) {
            return Err(coagulation_error("advect must be finite"));
        }
        if !is_finite_bits(self.reinject) || !is_unit_interval_bits(self.reinject) {
            return Err(coagulation_error("reinject must be in [0, 1]"));
        }
        Ok(())
    }
}

impl Default for FluidAdvectSettings {
    /// The documented defaults; the `f32` knobs are the bit patterns of
    /// `advect` 12.0, `turbulence_scale` 0.008, `turbulence_speed` 0.06, `detail` 0.1,
    /// `reinject` 0.05, `reinject_blotch` 0.0, `warp` 0.0, `diffuse` 0.0.
    fn default() -> (r: Self)
        ensures
            r == (FluidAdvectSettings {
                advect: 0x4140_0000,
                turbulence_scale: 0x3c03_126f,
                turbulence_speed: 0x3d75_c28f,
                detail: 0x3dcc_cccd,
                reinject: 0x3d4c_cccd,
                seed: 0,
                substeps: 0,
                reinject_blotch: 0x0000_0000,
                warp: 0x0000_0000,
                diffuse: 0x0000_0000,
            }),
    {
        FluidAdvectSettings {
            advect: 0x4140_0000,
            turbulence_scale: 0x3c03_126f,
            turbulence_speed: 0x3d75_c28f,
            detail: 0x3dcc_cccd,
            reinject: 0x3d4c_cccd,
            seed: 0,
            substeps: 0,
            reinject_blotch: 0x0000_0000,
            warp: 0x0000_0000,
            diffuse: 0x0000_0000,
        }
    }
}

impl Default for FluidAdvectTwoSourceSettings {
    /// The documented defaults; the `f32` knobs are the bit patterns of
    /// `advect` 1.0, `reinject` 0.08.
    fn default() -> (r: Self)
        ensures
            r == (FluidAdvectTwoSourceSettings {
                advect: 0x3f80_0000,
                reinject: 0x3da3_d70a,
            }),
    {
        FluidAdvectTwoSourceSettings {
            advect: 0x3f80_0000,
            reinject: 0x3da3_d70a,
        }
    }
}

/// The most substeps an automatic estimate may ask for.
pub const AUTO_SUBSTEP_CAP: u32 = 16;

impl FluidAdvectSettings {
    /// The substep count a frame runs: the explicit `substeps` when set,
    /// otherwise `estimate` (the advect distance over the per-substep target,
    /// rounded up) clamped to `1..=16`.
    pub fn effective_substeps(&self, estimate: u32) -> (r: u32)
        ensures
            self.substeps > 0 ==> r == self.substeps,
            self.substeps == 0 ==> r == (if estimate < 1 {
                1
            } else if estimate > AUTO_SUBSTEP_CAP {
                AUTO_SUBSTEP_CAP
            } else {
                estimate
            }),
    {
        if self.substeps > 0 {
            self.substeps
        } else if estimate < 1 {
            1
        } else if estimate > AUTO_SUBSTEP_CAP {
            AUTO_SUBSTEP_CAP
        } else {
            estimate
        }
    }
}

} // verus!
