//! Flow-feedback settings and how carrier detail is re-injected.

use vstd::prelude::*;
use crate::error::RenderError;
use crate::float_bits::{
    f32_bits_finite, f32_bits_negative, f32_bits_in_unit_interval, is_finite_bits,
    is_negative_bits, is_unit_interval_bits,
};

verus! {

/// How the carrier's high-frequency detail is re-injected when the
/// structure mix is not zero.
#[derive(Debug, Clone, Copy, PartialEq, Eq, Structural)]
pub enum StructureMode {
    /// One full-resolution high-pass band, re-injected uniformly.
    SingleScale,
    /// Three detail bands, each gated by a structure mask of the morphed frame.
    Multiscale,
}

impl Default for StructureMode {
    fn default() -> (r: Self)
        ensures
            r == StructureMode::SingleScale,
    {
        StructureMode::SingleScale
    }
}

/// Parameters of the flow-feedback renderer; every `f32` knob is carried as
/// its bit pattern.
#[derive(Debug, Clone, Copy, PartialEq, Eq)]
pub struct FlowFeedbackSettings {
    pub carrier_amount: u32,
    pub feedback_amount: u32,
    pub feedback_mix: u32,
    pub decay: u32,
    pub iterations: u32,
    pub structure_mix: u32,
    pub structure_mode: StructureMode,
}

impl FlowFeedbackSettings {
    /// Every knob finite, the mix in `[0, 1]`, decay and structure mix not
    /// negative, and exactly one iteration.
    pub open spec fn valid(&self) -> bool {
        &&& f32_bits_finite(self.carrier_amount)
        &&& f32_bits_finite(self.feedback_amount)
        &&& f32_bits_finite(self.feedback_mix)
        &&& f32_bits_finite(self.decay)
        &&& f32_bits_finite(self.structure_mix)
        &&& f32_bits_in_unit_interval(self.feedback_mix)
        &&& !f32_bits_negative(self.decay)
        &&& !f32_bits_negative(self.structure_mix)
        &&& self.iterations == 1
    }

    /// Refuses settings the flow-feedback renderer cannot run.
    pub fn validate(&self) -> (r: Result<(), RenderError>)
        ensures
            r is Ok <==> self.valid(),
            r matches Err(e) ==> e is InvalidFlowFeedbackSettings,
    {
        if !is_finite_bits(self.carrier_amount) {
            return Err(bad_feedback("carrier_amount must be finite"));
        }
        if !is_finite_bits(self.feedback_amount) {
            return Err(bad_feedback("feedback_amount must be finite"));
        }
        if !is_finite_bits(self.feedback_mix) {
            return Err(bad_feedback("feedback_mix must be finite"));
        }
        if !is_finite_bits(self.decay) {
            return Err(bad_feedback("decay must be finite"));
        }
        if !is_finite_bits(self.structure_mix) {
            return Err(bad_feedback("structure_mix must be finite"));
        }
        if !is_unit_interval_bits(self.feedback_mix) {
            return Err(bad_feedback("feedback_mix must be between zero and one"));
        }
        if is_negative_bits(self.decay) {
            return Err(bad_feedback("decay must be greater than or equal to zero"));
        }
        if is_negative_bits(self.structure_mix) {
            return Err(bad_feedback("structure_mix must be greater than or equal to zero"));
        }
        if self.iterations != 1 {
            return Err(
                bad_feedback("the first flow-feedback renderer supports exactly one iteration"),
            );
        }
        Ok(())
    }
}

fn bad_feedback(detail: &str) -> (e: RenderError)
    ensures
        e is InvalidFlowFeedbackSettings,
{
    RenderError::InvalidFlowFeedbackSettings(String::from_str(detail))
}

} // verus!
