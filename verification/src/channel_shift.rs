//! Channel-shift settings: the per-channel offsets of the RGB split, and the
//! off case in which every channel is sampled in place.

use vstd::prelude::*;
use crate::float_bits::{f32_bits_zero, is_zero_bits};

verus! {

/// Algorithm identifier of the constant channel shift.
pub const CHANNEL_SHIFT_ALGORITHM: &'static str = "channel_shift_constant_cpu_v1";

/// Algorithm identifier of the flow-driven channel shift.
pub const CHANNEL_SHIFT_FLOW_ALGORITHM: &'static str = "channel_shift_flow_driven_cpu_v1";

/// Per-channel offsets in pixels, each the bit pattern of an `f32`.
#[derive(Debug, Clone, Copy, PartialEq, Eq)]
pub struct ChannelShiftSettings {
    pub shift_r_x: u32,
    pub shift_r_y: u32,
    pub shift_g_x: u32,
    pub shift_g_y: u32,
    pub shift_b_x: u32,
    pub shift_b_y: u32,
}

impl Default for ChannelShiftSettings {
    /// Every offset `0.0`.
    fn default() -> (r: Self)
        ensures
            r == (ChannelShiftSettings {
                shift_r_x: 0,
                shift_r_y: 0,
                shift_g_x: 0,
                shift_g_y: 0,
                shift_b_x: 0,
                shift_b_y: 0,
            }),
    {
        ChannelShiftSettings {
            shift_r_x: 0,
            shift_r_y: 0,
            shift_g_x: 0,
            shift_g_y: 0,
            shift_b_x: 0,
            shift_b_y: 0,
        }
    }
}

impl ChannelShiftSettings {
    /// The off case: every offset compares equal to zero, so each channel is
    /// sampled at its own position.
    pub fn is_passthrough(&self) -> (r: bool)
        ensures
            r == (f32_bits_zero(self.shift_r_x) && f32_bits_zero(self.shift_r_y) && f32_bits_zero(
                self.shift_g_x,
            ) && f32_bits_zero(self.shift_g_y) && f32_bits_zero(self.shift_b_x) && f32_bits_zero(
                self.shift_b_y,
            )),
    {
        is_zero_bits(self.shift_r_x) && is_zero_bits(self.shift_r_y) && is_zero_bits(self.shift_g_x)
            && is_zero_bits(self.shift_g_y) && is_zero_bits(self.shift_b_x) && is_zero_bits(
            self.shift_b_y,
        )
    }
}

} // verus!
