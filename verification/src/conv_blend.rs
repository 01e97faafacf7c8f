//! The convolution blend: its settings (an odd kernel size and a
//! non-negative amount), the source span each kernel cell averages, and the
//! checks on a kernel before it is applied.

use vstd::prelude::*;
use crate::error::RenderError;
use crate::text::{decimal_spec, push_decimal};
use crate::float_bits::{f32_bits_finite, f32_bits_negative, is_finite_bits, is_negative_bits};

verus! {

/// Algorithm identifier of the convolution blend.
pub const CONVOLUTION_BLEND_ALGORITHM: &'static str = "image_kernel_convolution_blend_cpu_v1";

/// The kernel side is positive and odd, so the kernel has a centre.
pub open spec fn kernel_size_valid(size: u32) -> bool {
    size > 0 && size % 2 == 1
}

/// Refuses a kernel side that is zero or even.
pub fn validate_kernel_size(size: u32) -> (r: Result<(), RenderError>)
    ensures
        r is Ok <==> kernel_size_valid(size),
        r matches Err(e) ==> e is InvalidConvolutionSettings,
{
    if size == 0 {
        return Err(
            RenderError::InvalidConvolutionSettings(
                String::from_str("kernel-size must be greater than zero"),
            ),
        );
    }
    if size % 2 == 0 {
        return Err(
            RenderError::InvalidConvolutionSettings(
                String::from_str("kernel-size must be odd so the kernel is centered"),
            ),
        );
    }
    Ok(())
}

/// Settings of the convolution blend; `amount` is an `f32` bit pattern
/// (`0` = Source B passthrough, `1` = fully convolved).
#[derive(Debug, Clone, Copy, PartialEq, Eq)]
pub struct ConvolutionBlendSettings {
    pub kernel_size: u32,
    pub amount: u32,
}

impl ConvolutionBlendSettings {
    /// An odd kernel and a finite, non-negative amount.
    pub open spec fn valid(&self) -> bool {
        &&& kernel_size_valid(self.kernel_size)
        &&& f32_bits_finite(self.amount)
        &&& !f32_bits_negative(self.amount)
    }

    /// Refuses an even or empty kernel and an amount that is not finite or is negative.
    pub fn validate(&self) -> (r: Result<(), RenderError>)
        ensures
            r is Ok <==> self.valid(),
            r matches Err(e) ==> e is InvalidConvolutionSettings,
    {
        validate_kernel_size(self.kernel_size)?;
        if !is_finite_bits(self.amount) || is_negative_bits(self.amount) {
            return Err(
                RenderError::InvalidConvolutionSettings(
                    String::from_str("amount must be finite and non-negative"),
                ),
            );
        }
        Ok(())
    }
}

/// The source span `[start, end)` kernel cell `cell` of `size` averages along
/// an axis `extent` pixels long: it starts at `cell · extent / size`, ends at
/// `(cell + 1) · extent / size` but at least one pixel after its start, and is
/// clipped to the axis.
pub open spec fn kernel_cell_span_spec(cell: int, extent: int, size: int) -> (int, int) {
    let start = cell * extent / size;
    let next = (cell + 1) * extent / size;
    let end = if next > start + 1 { next } else { start + 1 };
    (start, if end < extent { end } else { extent })
}

/// The source span kernel cell `cell` averages along one axis.
pub fn kernel_cell_span(cell: u32, extent: u32, size: u32) -> (r: (u32, u32))
    requires
        cell < size,
    ensures
        r.0 as int == kernel_cell_span_spec(cell as int, extent as int, size as int).0,
        r.1 as int == kernel_cell_span_spec(cell as int, extent as int, size as int).1,
{
    proof {
        let c = cell as int;
        let e = extent as int;
        let z = size as int;
        assert(c * e / z <= e && (c + 1) * e / z <= e && 0 <= c * e / z) by (nonlinear_arith)
            requires
                0 <= c < z,
                e >= 0,
        ;
        assert(c * e <= u64::MAX && (c + 1) * e <= u64::MAX && 0 <= (c + 1) * e / z) by (nonlinear_arith)
            requires
                0 <= c < z,
                z <= u32::MAX,
                0 <= e <= u32::MAX,
        ;
    }
    let start = (cell as u64 * extent as u64 / size as u64) as u32;
    let next = ((cell as u64 + 1) * extent as u64 / size as u64) as u32;
    let end: u64 = if (next as u64) > start as u64 + 1 { next as u64 } else { start as u64 + 1 };
    let clipped = if end < extent as u64 { end as u32 } else { extent };
    (start, clipped)
}

/// Every kernel cell averages at least one source pixel, inside the source,
/// however small the source; and when the source is at least as long as the
/// kernel the cells follow one another with no gap or overlap.
pub proof fn law_kernel_cells_cover_the_source(cell: int, extent: int, size: int)
    requires
        0 <= cell < size,
        extent >= 1,
    ensures
        0 <= kernel_cell_span_spec(cell, extent, size).0 < kernel_cell_span_spec(cell, extent, size).1
            <= extent,
        cell == 0 ==> kernel_cell_span_spec(cell, extent, size).0 == 0,
        cell == size - 1 ==> kernel_cell_span_spec(cell, extent, size).1 == extent,
        extent >= size && cell + 1 < size ==> kernel_cell_span_spec(cell, extent, size).1
            == kernel_cell_span_spec(cell + 1, extent, size).0,
{
    let start = cell * extent / size;
    let next = (cell + 1) * extent / size;
    assert(0 <= start < extent) by (nonlinear_arith)
        requires
            0 <= cell < size,
            extent >= 1,
            start == cell * extent / size,
    ;
    assert(next <= extent) by (nonlinear_arith)
        requires
            0 <= cell < size,
            extent >= 1,
            next == (cell + 1) * extent / size,
    ;
    if cell == size - 1 {
        assert(next == extent) by (nonlinear_arith)
            requires
                cell + 1 == size,
                size > 0,
                next == (cell + 1) * extent / size,
        ;
    }
    if extent >= size {
        assert(next >= start + 1) by (nonlinear_arith)
            requires
                extent >= size,
                size > 0,
                cell >= 0,
                start == cell * extent / size,
                next == (cell + 1) * extent / size,
        ;
    }
}

/// The text "kernel has `len` weights but size `size` requires `size²`".
pub open spec fn kernel_length_text(len: nat, size: nat) -> Seq<char> {
    "kernel has "@ + decimal_spec(len) + " weights but size "@ + decimal_spec(size) + " requires "@
        + decimal_spec(size * size)
}

/// Checks a kernel and an amount before a convolution: an odd kernel side,
/// one weight per tap, and a finite, non-negative amount, in that order.
pub fn check_convolution(kernel_size: u32, weight_count: usize, amount: u32) -> (r: Result<(), RenderError>)
    requires
        kernel_size * kernel_size <= u32::MAX,
    ensures
        r is Ok <==> kernel_size_valid(kernel_size) && weight_count == kernel_size * kernel_size
            && f32_bits_finite(amount) && !f32_bits_negative(amount),
        r matches Err(e) ==> e is InvalidConvolutionSettings,
        kernel_size_valid(kernel_size) && weight_count != kernel_size * kernel_size ==> (r matches Err(
            RenderError::InvalidConvolutionSettings(d),
        ) && d@ == kernel_length_text(weight_count as nat, kernel_size as nat)),
{
    validate_kernel_size(kernel_size)?;
    let taps = kernel_size * kernel_size;
    if weight_count != taps as usize {
        let mut d = String::from_str("kernel has ");
        push_decimal(&mut d, weight_count as u64);
        d.append(" weights but size ");
        push_decimal(&mut d, kernel_size as u64);
        d.append(" requires ");
        push_decimal(&mut d, taps as u64);
        return Err(RenderError::InvalidConvolutionSettings(d));
    }
    if !is_finite_bits(amount) || is_negative_bits(amount) {
        return Err(
            RenderError::InvalidConvolutionSettings(
                String::from_str("amount must be finite and non-negative"),
            ),
        );
    }
    Ok(())
}

} // verus!
