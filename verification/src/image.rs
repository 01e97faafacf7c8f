//! Row-major image and flow grids whose channel values are carried as the
//! IEEE-754 bit patterns of 32-bit floats, so that layout, validation and
//! serialization can be reasoned about exactly.

use vstd::prelude::*;
use crate::error::RenderError;
use crate::text::{decimal_spec, expected_got, push_decimal};

verus! {

/// The pixel count of a `width` × `height` grid, refused when a side is zero
/// or the product does not fit in `usize`.
pub fn pixel_count(width: u32, height: u32) -> (r: Result<usize, RenderError>)
    ensures
        r matches Ok(n) ==> n == width * height && width > 0 && height > 0,
        r is Ok <==> (width > 0 && height > 0 && width * height <= usize::MAX),
        r matches Err(e) ==> e is InvalidImageBuffer,
{
    if width == 0 || height == 0 {
        return Err(
            RenderError::InvalidImageBuffer(
                String::from_str("width and height must be greater than zero"),
            ),
        );
    }
    match (width as usize).checked_mul(height as usize) {
        Some(n) => Ok(n),
        None => Err(
            RenderError::InvalidImageBuffer(String::from_str("image dimensions are too large")),
        ),
    }
}

/// An RGBA image, row-major, each channel the bit pattern of an `f32`.
#[derive(Debug, PartialEq, Eq)]
pub struct ImageBufferBits {
    pub width: u32,
    pub height: u32,
    pub pixels: Vec<[u32; 4]>,
}

impl ImageBufferBits {
    /// Both sides are positive and there is exactly one pixel per grid cell.
    pub open spec fn wf(&self) -> bool {
        &&& self.width > 0
        &&& self.height > 0
        &&& self.pixels@.len() == self.width * self.height
    }

    /// Wraps `pixels` as a `width` × `height` image, refusing empty sides and a
    /// pixel count that does not match the grid.
    pub fn new(width: u32, height: u32, pixels: Vec<[u32; 4]>) -> (r: Result<Self, RenderError>)
        ensures
            r is Ok <==> (width > 0 && height > 0 && pixels@.len() == width * height),
            r matches Ok(img) ==> img.wf() && img.width == width && img.height == height
                && img.pixels@ == pixels@,
            r matches Err(e) ==> e is InvalidImageBuffer,
    {
        let ghost len = pixels.len();
        assert(len == pixels@.len());
        let expected = pixel_count(width, height)?;
        if pixels.len() != expected {
            return Err(
                RenderError::InvalidImageBuffer(
                    expected_got(expected as u64, "pixels", pixels.len() as u64),
                ),
            );
        }
        Ok(ImageBufferBits { width, height, pixels })
    }

    /// The pixel at column `x`, row `y`, or `None` outside the grid.
    pub fn pixel(&self, x: u32, y: u32) -> (r: Option<[u32; 4]>)
        requires
            self.wf(),
        ensures
            x < self.width && y < self.height ==> r == Some(
                self.pixels@[y * self.width + x],
            ),
            !(x < self.width && y < self.height) ==> r is None,
    {
        if x >= self.width || y >= self.height {
            return None;
        }
        proof {
            lemma_grid_index(x as int, y as int, self.width as int, self.height as int);
        }
        let ghost len = self.pixels.len();
        assert(len == self.pixels@.len());
        let index = y as usize * self.width as usize + x as usize;
        Some(self.pixels[index])
    }
}

/// A row-major motion-vector field, each component the bit pattern of an `f32`.
#[derive(Debug, PartialEq, Eq)]
pub struct FlowFieldBits {
    pub width: u32,
    pub height: u32,
    pub vectors: Vec<[u32; 2]>,
}

impl FlowFieldBits {
    /// Both sides are positive and there is exactly one vector per grid cell.
    pub open spec fn wf(&self) -> bool {
        &&& self.width > 0
        &&& self.height > 0
        &&& self.vectors@.len() == self.width * self.height
    }

    /// Wraps `vectors` as a `width` × `height` field, refusing empty sides and a
    /// vector count that does not match the grid.
    pub fn new(width: u32, height: u32, vectors: Vec<[u32; 2]>) -> (r: Result<Self, RenderError>)
        ensures
            r is Ok <==> (width > 0 && height > 0 && vectors@.len() == width * height),
            r matches Ok(f) ==> f.wf() && f.width == width && f.height == height
                && f.vectors@ == vectors@,
            r matches Err(e) ==> e is InvalidFlowField,
    {
        let ghost len = vectors.len();
        assert(len == vectors@.len());
        if width == 0 || height == 0 {
            return Err(
                RenderError::InvalidFlowField(
                    String::from_str("width and height must be greater than zero"),
                ),
            );
        }
        let expected = match (width as usize).checked_mul(height as usize) {
            Some(n) => n,
            None => {
                return Err(
                    RenderError::InvalidFlowField(
                        String::from_str("flow dimensions are too large"),
                    ),
                );
            },
        };
        if vectors.len() != expected {
            return Err(
                RenderError::InvalidFlowField(
                    expected_got(expected as u64, "vectors", vectors.len() as u64),
                ),
            );
        }
        Ok(FlowFieldBits { width, height, vectors })
    }

    /// The vector at column `x`, row `y`, or `None` outside the grid.
    pub fn vector(&self, x: u32, y: u32) -> (r: Option<[u32; 2]>)
        requires
            self.wf(),
        ensures
            x < self.width && y < self.height ==> r == Some(
                self.vectors@[y * self.width + x],
            ),
            !(x < self.width && y < self.height) ==> r is None,
    {
        if x >= self.width || y >= self.height {
            return None;
        }
        proof {
            lemma_grid_index(x as int, y as int, self.width as int, self.height as int);
        }
        let ghost len = self.vectors.len();
        assert(len == self.vectors@.len());
        let index = y as usize * self.width as usize + x as usize;
        Some(self.vectors[index])
    }
}

/// A cell of a `w` × `h` grid has a row-major index below `w * h`.
pub proof fn lemma_grid_index(x: int, y: int, w: int, h: int)
    requires
        0 <= x < w,
        0 <= y < h,
    ensures
        0 <= y * w + x < w * h,
        y * w <= y * w + x,
{
    assert(y * w + x < w * h) by (nonlinear_arith)
        requires
            0 <= x < w,
            0 <= y < h,
    ;
    assert(0 <= y * w) by (nonlinear_arith)
        requires
            0 <= y,
            0 <= w,
    ;
}

/// The text "`label` is `width`x`height`".
pub open spec fn size_text(label: Seq<char>, width: u32, height: u32) -> Seq<char> {
    label + " is "@ + decimal_spec(width as nat) + "x"@ + decimal_spec(height as nat)
}

fn push_size(s: &mut String, label: &str, width: u32, height: u32)
    ensures
        final(s)@ == old(s)@ + size_text(label@, width, height),
{
    s.append(label);
    s.append(" is ");
    push_decimal(s, width as u64);
    s.append("x");
    push_decimal(s, height as u64);
}

/// Checks that two frames have one size, refusing a mismatch with the text
/// "`prefix``first` is WxH, `second` is WxH".
pub fn check_sizes_match(
    prefix: &str,
    first: &str,
    first_width: u32,
    first_height: u32,
    second: &str,
    second_width: u32,
    second_height: u32,
) -> (r: Result<(), RenderError>)
    ensures
        r is Ok <==> first_width == second_width && first_height == second_height,
        !(first_width == second_width && first_height == second_height) ==> (r matches Err(
            RenderError::IncompatibleInputs(d),
        ) && d@ == prefix@ + size_text(first@, first_width, first_height) + ", "@ + size_text(
            second@,
            second_width,
            second_height,
        )),
{
    if first_width == second_width && first_height == second_height {
        return Ok(());
    }
    let mut d = String::from_str(prefix);
    push_size(&mut d, first, first_width, first_height);
    d.append(", ");
    push_size(&mut d, second, second_width, second_height);
    Err(RenderError::IncompatibleInputs(d))
}

} // verus!
