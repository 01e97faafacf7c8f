//! The matte: which analysis of the matte media drives the blend, and the
//! check that the frames a blend mixes share one size.

use vstd::prelude::*;
use crate::error::RenderError;
use crate::image::{check_sizes_match, size_text};

verus! {

/// Algorithm identifier of the matte blend.
pub const MATTE_BLEND_ALGORITHM: &'static str = "matte_blend_cpu_v1";

/// Which analysis of the matte-media frame(s) drives the per-pixel field.
#[derive(Debug, Clone, Copy, PartialEq, Eq, Structural)]
pub enum MatteSource {
    /// Rec.709 luma of the matte frame.
    ALuma,
    /// Optical-flow magnitude between the previous and current matte frame.
    AFlow,
    /// Sobel gradient magnitude on luma.
    AEdge,
}

/// Checks that a matte blend mixes frames of one size: the effected frame
/// against the original, then the matte field against the effected frame,
/// refusing the first mismatch with both sizes.
pub fn check_matte_blend(
    effected_width: u32,
    effected_height: u32,
    original_width: u32,
    original_height: u32,
    matte_width: u32,
    matte_height: u32,
) -> (r: Result<(), RenderError>)
    ensures
        r is Ok <==> (effected_width == original_width && effected_height == original_height
            && matte_width == effected_width && matte_height == effected_height),
        (effected_width != original_width || effected_height != original_height) ==> (r matches Err(
            RenderError::IncompatibleInputs(d),
        ) && d@ == "matte blend: "@ + size_text("effected"@, effected_width, effected_height) + ", "@
            + size_text("original"@, original_width, original_height)),
        (effected_width == original_width && effected_height == original_height && (matte_width
            != effected_width || matte_height != effected_height)) ==> (r matches Err(
            RenderError::IncompatibleInputs(d),
        ) && d@ == "matte blend: "@ + size_text("matte field"@, matte_width, matte_height) + ", "@
            + size_text("carrier"@, effected_width, effected_height)),
{
    check_sizes_match(
        "matte blend: ",
        "effected",
        effected_width,
        effected_height,
        "original",
        original_width,
        original_height,
    )?;
    check_sizes_match(
        "matte blend: ",
        "matte field",
        matte_width,
        matte_height,
        "carrier",
        effected_width,
        effected_height,
    )
}

} // verus!
