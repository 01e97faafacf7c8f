//! Square stamps painted onto a row-major RGBA canvas in a fixed order, the
//! last writer winning: the paint step shared by the trail cascade, the fluid
//! mosaic and the particle carrier once their float positions are rounded.
//! Each stamp fills its square, clipped to the canvas, with a solid colour or
//! with a footage patch sampled nearest-neighbour at the square's scale.

use vstd::prelude::*;
use crate::image::lemma_grid_index;
use crate::modulation::ONE_F32_BITS;

verus! {

/// A row-major RGB patch of footage; each channel the bit pattern of an `f32`.
#[derive(Debug, Clone, PartialEq, Eq)]
pub struct PatchBits {
    pub width: u32,
    pub height: u32,
    pub pixels: Vec<[u32; 3]>,
}

impl PatchBits {
    /// One pixel per patch cell.
    pub open spec fn wf(&self) -> bool {
        self.pixels@.len() == self.width * self.height
    }
}

/// What a stamp paints: one RGBA colour, or a patch (painted opaque).
#[derive(Debug, Clone, PartialEq, Eq)]
pub enum StampFill {
    Solid([u32; 4]),
    Patch(PatchBits),
}

/// A `size` × `size` square with its top-left corner at (`left`, `top`).
#[derive(Debug, Clone, PartialEq, Eq)]
pub struct SquareStamp {
    pub left: i64,
    pub top: i64,
    pub size: u32,
    pub fill: StampFill,
}

/// The stamp's patch, if any, has one pixel per cell, and its square's far
/// edges are representable.
pub open spec fn stamp_wf(s: SquareStamp) -> bool {
    &&& (s.fill matches StampFill::Patch(p) ==> p.wf())
    &&& s.left + s.size <= i64::MAX
    &&& s.top + s.size <= i64::MAX
}

/// Opaque black: the canvas the particle and mosaic renders paint onto.
pub open spec fn opaque_black() -> [u32; 4] {
    [0, 0, 0, ONE_F32_BITS]
}

/// `n` opaque black pixels.
pub fn opaque_black_canvas(n: usize) -> (r: Vec<[u32; 4]>)
    ensures
        r@.len() == n,
        forall|i: int| 0 <= i < n ==> #[trigger] r@[i] == opaque_black(),
{
    let mut r: Vec<[u32; 4]> = Vec::new();
    let mut i: usize = 0;
    while i < n
        invariant
            i <= n,
            r@.len() == i,
            forall|k: int| 0 <= k < i ==> #[trigger] r@[k] == opaque_black(),
        decreases n - i,
    {
        r.push([0, 0, 0, ONE_F32_BITS]);
        i = i + 1;
    }
    r
}

/// Canvas pixel (`x`, `y`) of a row-major canvas `width` pixels wide.
pub open spec fn canvas_at(canvas: Seq<[u32; 4]>, width: int, x: int, y: int) -> [u32; 4] {
    canvas[y * width + x]
}

/// The stamp covers (`x`, `y`) and has something to paint there (an empty
/// patch paints nothing).
pub open spec fn stamp_paints(s: SquareStamp, x: int, y: int) -> bool {
    &&& s.left <= x < s.left + s.size
    &&& s.top <= y < s.top + s.size
    &&& (s.fill matches StampFill::Patch(p) ==> p.width > 0 && p.height > 0)
}

/// The patch texel for offset (`dx`, `dy`) inside a `size` square: each axis
/// scaled by `patch side / size`, rounded down and kept inside the patch.
pub open spec fn patch_texel(p: PatchBits, size: int, dx: int, dy: int) -> [u32; 3] {
    let sx = dx * p.width / size;
    let sy = dy * p.height / size;
    let px = if sx < p.width - 1 { sx } else { p.width - 1 };
    let py = if sy < p.height - 1 { sy } else { p.height - 1 };
    p.pixels@[py * p.width + px]
}

/// The colour the stamp paints at (`x`, `y`).
pub open spec fn stamp_color(s: SquareStamp, x: int, y: int) -> [u32; 4] {
    match s.fill {
        StampFill::Solid(c) => c,
        StampFill::Patch(p) => {
            let t = patch_texel(p, s.size as int, x - s.left, y - s.top);
            [t[0], t[1], t[2], ONE_F32_BITS]
        },
    }
}

/// Pixel (`x`, `y`) after painting `stamps` in order over `base`: the colour
/// of the last stamp that paints there, or `base` when none does.
pub open spec fn painted(stamps: Seq<SquareStamp>, base: [u32; 4], x: int, y: int) -> [u32; 4]
    decreases stamps.len(),
{
    if stamps.len() == 0 {
        base
    } else if stamp_paints(stamps.last(), x, y) {
        stamp_color(stamps.last(), x, y)
    } else {
        painted(stamps.drop_last(), base, x, y)
    }
}

/// Two cells of a `w`-wide grid with the same row-major index are the same cell.
pub proof fn lemma_grid_index_injective(x1: int, y1: int, x2: int, y2: int, w: int)
    requires
        0 <= x1 < w,
        0 <= x2 < w,
        0 <= y1,
        0 <= y2,
        y1 * w + x1 == y2 * w + x2,
    ensures
        x1 == x2,
        y1 == y2,
{
    if y1 < y2 {
        assert(y1 * w + w <= y2 * w) by (nonlinear_arith)
            requires
                y1 < y2,
                0 <= w,
        ;
    } else if y2 < y1 {
        assert(y2 * w + w <= y1 * w) by (nonlinear_arith)
            requires
                y2 < y1,
                0 <= w,
        ;
    }
}

/// The texel of `patch` for offset (`dx`, `dy`) inside a `size` square.
fn sample_patch(patch: &PatchBits, size: u32, dx: u32, dy: u32) -> (r: [u32; 3])
    requires
        patch.wf(),
        patch.width > 0,
        patch.height > 0,
        dx < size,
        dy < size,
    ensures
        r == patch_texel(*patch, size as int, dx as int, dy as int),
{
    let pw = patch.width;
    let ph = patch.height;
    proof {
        assert(dx * pw <= u64::MAX) by (nonlinear_arith)
            requires
                dx < size,
                size <= u32::MAX,
                pw <= u32::MAX,
        ;
        assert(dy * ph <= u64::MAX) by (nonlinear_arith)
            requires
                dy < size,
                size <= u32::MAX,
                ph <= u32::MAX,
        ;
    }
    let sx: u64 = (dx as u64 * pw as u64) / size as u64;
    let sy: u64 = (dy as u64 * ph as u64) / size as u64;
    let px: u32 = if sx < (pw - 1) as u64 {
        sx as u32
    } else {
        pw - 1
    };
    let py: u32 = if sy < (ph - 1) as u64 {
        sy as u32
    } else {
        ph - 1
    };
    proof {
        lemma_grid_index(px as int, py as int, pw as int, ph as int);
    }
    let ghost len = patch.pixels.len();
    assert(len == patch.pixels@.len());
    patch.pixels[py as usize * pw as usize + px as usize]
}

/// The colour the square at (`left`, `top`) of edge `size` filled with `fill`
/// paints at canvas pixel (`x`, `y`), which it covers.
fn fill_pixel(left: i64, top: i64, size: u32, fill: &StampFill, x: i64, y: i64) -> (r: [u32; 4])
    requires
        stamp_wf(SquareStamp { left, top, size, fill: *fill }),
        stamp_paints(SquareStamp { left, top, size, fill: *fill }, x as int, y as int),
    ensures
        r == stamp_color(SquareStamp { left, top, size, fill: *fill }, x as int, y as int),
{
    match fill {
        StampFill::Solid(c) => *c,
        StampFill::Patch(p) => {
            let t = sample_patch(p, size, (x - left) as u32, (y - top) as u32);
            [t[0], t[1], t[2], ONE_F32_BITS]
        },
    }
}

/// Paints the square at (`left`, `top`) of edge `size` filled with `fill`
/// onto `canvas` (`width` × `height`, row-major), clipped to the canvas: every
/// pixel it paints takes its colour, every other pixel stays.
pub fn stamp_fill(
    canvas: &mut Vec<[u32; 4]>,
    width: u32,
    height: u32,
    left: i64,
    top: i64,
    size: u32,
    fill: &StampFill,
)
    requires
        old(canvas)@.len() == width * height,
        stamp_wf(SquareStamp { left, top, size, fill: *fill }),
    ensures
        final(canvas)@.len() == old(canvas)@.len(),
        forall|x: int, y: int|
            0 <= x < width && 0 <= y < height ==> #[trigger] canvas_at(final(canvas)@, width as int, x, y)
                == (if stamp_paints(SquareStamp { left, top, size, fill: *fill }, x, y) {
                stamp_color(SquareStamp { left, top, size, fill: *fill }, x, y)
            } else {
                canvas_at(old(canvas)@, width as int, x, y)
            }),
{
    let ghost stamp = SquareStamp { left, top, size, fill: *fill };
    let ghost before = canvas@;
    let empty_patch = match fill {
        StampFill::Solid(_) => false,
        StampFill::Patch(p) => p.width == 0 || p.height == 0,
    };
    if empty_patch {
        return;
    }
    let w = width as i64;
    let h = height as i64;
    let far_x = left + size as i64;
    let far_y = top + size as i64;
    let x0: i64 = if left > 0 { left } else { 0 };
    let y0: i64 = if top > 0 { top } else { 0 };
    let x1: i64 = if far_x < w { far_x } else { w };
    let y1: i64 = if far_y < h { far_y } else { h };
    let mut y: i64 = y0;
    while y < y1
        invariant
            canvas@.len() == before.len(),
            before.len() == width * height,
            stamp == (SquareStamp { left, top, size, fill: *fill }),
            stamp_wf(stamp),
            !empty_patch,
            empty_patch == (stamp.fill matches StampFill::Patch(p) && (p.width == 0 || p.height == 0)),
            w == width,
            h == height,
            x0 == (if stamp.left > 0 { stamp.left } else { 0 }),
            y0 == (if stamp.top > 0 { stamp.top } else { 0 }),
            x1 == (if stamp.left + stamp.size < width { stamp.left + stamp.size } else { width as int }),
            y1 == (if stamp.top + stamp.size < height { stamp.top + stamp.size } else { height as int }),
            y0 <= y,
            forall|px: int, py: int|
                0 <= px < width && 0 <= py < height ==> #[trigger] canvas_at(canvas@, width as int, px, py)
                    == (if stamp_paints(stamp, px, py) && py < y {
                    stamp_color(stamp, px, py)
                } else {
                    canvas_at(before, width as int, px, py)
                }),
        decreases y1 - y,
    {
        let mut x: i64 = x0;
        while x < x1
            invariant
                canvas@.len() == before.len(),
                before.len() == width * height,
                stamp == (SquareStamp { left, top, size, fill: *fill }),
                stamp_wf(stamp),
                !empty_patch,
                empty_patch == (stamp.fill matches StampFill::Patch(p) && (p.width == 0 || p.height == 0)),
                w == width,
                h == height,
                x0 == (if stamp.left > 0 { stamp.left } else { 0 }),
                x1 == (if stamp.left + stamp.size < width { stamp.left + stamp.size } else { width as int }),
                y0 == (if stamp.top > 0 { stamp.top } else { 0 }),
                y0 <= y < y1,
                y1 == (if stamp.top + stamp.size < height { stamp.top + stamp.size } else { height as int }),
                x0 <= x,
                forall|px: int, py: int|
                    0 <= px < width && 0 <= py < height ==> #[trigger] canvas_at(canvas@, width as int, px, py)
                        == (if stamp_paints(stamp, px, py) && (py < y || (py == y && px < x)) {
                        stamp_color(stamp, px, py)
                    } else {
                        canvas_at(before, width as int, px, py)
                    }),
            decreases x1 - x,
        {
            proof {
                lemma_grid_index(x as int, y as int, width as int, height as int);
            }
            let ghost len = canvas.len();
            assert(len == canvas@.len());
            let index = y as usize * width as usize + x as usize;
            let c = fill_pixel(left, top, size, fill, x, y);
            let ghost prev = canvas@;
            canvas.set(index, c);
            proof {
                assert forall|px: int, py: int|
                    0 <= px < width && 0 <= py < height implies #[trigger] canvas_at(canvas@, width as int, px, py)
                        == (if stamp_paints(stamp, px, py) && (py < y || (py == y && px < x + 1)) {
                        stamp_color(stamp, px, py)
                    } else {
                        canvas_at(before, width as int, px, py)
                    }) by {
                    lemma_grid_index(px, py, width as int, height as int);
                    let before_set = canvas_at(prev, width as int, px, py);
                    if py * width + px == index {
                        lemma_grid_index_injective(px, py, x as int, y as int, width as int);
                    } else {
                        assert(canvas_at(canvas@, width as int, px, py) == before_set);
                    }
                }
            }
            x = x + 1;
        }
        y = y + 1;
    }
}

/// Paints one stamp onto `canvas` (`width` × `height`, row-major), clipped to
/// the canvas: every pixel it paints takes its colour, every other pixel stays.
pub fn stamp_square(canvas: &mut Vec<[u32; 4]>, width: u32, height: u32, stamp: &SquareStamp)
    requires
        old(canvas)@.len() == width * height,
        stamp_wf(*stamp),
    ensures
        final(canvas)@.len() == old(canvas)@.len(),
        forall|x: int, y: int|
            0 <= x < width && 0 <= y < height ==> #[trigger] canvas_at(final(canvas)@, width as int, x, y)
                == (if stamp_paints(*stamp, x, y) {
                stamp_color(*stamp, x, y)
            } else {
                canvas_at(old(canvas)@, width as int, x, y)
            }),
{
    stamp_fill(canvas, width, height, stamp.left, stamp.top, stamp.size, &stamp.fill);
}

/// Paints `stamps` onto `canvas` in order, the last writer winning: every
/// pixel ends as [`painted`] says of its colour before.
pub fn stamp_all(canvas: &mut Vec<[u32; 4]>, width: u32, height: u32, stamps: &Vec<SquareStamp>)
    requires
        old(canvas)@.len() == width * height,
        forall|i: int| 0 <= i < stamps@.len() ==> stamp_wf(#[trigger] stamps@[i]),
    ensures
        final(canvas)@.len() == old(canvas)@.len(),
        forall|x: int, y: int|
            0 <= x < width && 0 <= y < height ==> #[trigger] canvas_at(final(canvas)@, width as int, x, y)
                == painted(stamps@, canvas_at(old(canvas)@, width as int, x, y), x, y),
{
    let ghost before = canvas@;
    let mut i: usize = 0;
    while i < stamps.len()
        invariant
            i <= stamps@.len(),
            canvas@.len() == before.len(),
            before.len() == width * height,
            forall|k: int| 0 <= k < stamps@.len() ==> stamp_wf(#[trigger] stamps@[k]),
            forall|x: int, y: int|
                0 <= x < width && 0 <= y < height ==> #[trigger] canvas_at(canvas@, width as int, x, y)
                    == painted(stamps@.take(i as int), canvas_at(before, width as int, x, y), x, y),
        decreases stamps.len() - i,
    {
        stamp_square(canvas, width, height, &stamps[i]);
        proof {
            let done = stamps@.take(i as int + 1);
            assert(done.drop_last() =~= stamps@.take(i as int));
            assert(done.last() == stamps@[i as int]);
        }
        i = i + 1;
    }
    assert(stamps@.take(stamps@.len() as int) =~= stamps@);
}

/// When exactly one stamp paints a pixel, the pixel takes its colour, in
/// whatever order the stamps come.
pub proof fn lemma_painted_by_the_only_painter(stamps: Seq<SquareStamp>, base: [u32; 4], x: int, y: int, j: int)
    requires
        0 <= j < stamps.len(),
        stamp_paints(stamps[j], x, y),
        forall|i: int| 0 <= i < stamps.len() && i != j ==> !stamp_paints(#[trigger] stamps[i], x, y),
    ensures
        painted(stamps, base, x, y) == stamp_color(stamps[j], x, y),
    decreases stamps.len(),
{
    if j < stamps.len() - 1 {
        let rest = stamps.drop_last();
        assert forall|i: int| 0 <= i < rest.len() && i != j implies !stamp_paints(#[trigger] rest[i], x, y) by {
            assert(rest[i] == stamps[i]);
        }
        assert(!stamp_paints(stamps[stamps.len() - 1], x, y));
        lemma_painted_by_the_only_painter(rest, base, x, y, j);
    }
}

/// A pixel no stamp paints keeps its colour; one that some stamp paints takes
/// the colour of the last such stamp.
pub proof fn lemma_painted_by_last_painter(stamps: Seq<SquareStamp>, base: [u32; 4], x: int, y: int, k: int)
    requires
        0 <= k < stamps.len(),
        stamp_paints(stamps[k], x, y),
        forall|j: int| k < j < stamps.len() ==> !stamp_paints(#[trigger] stamps[j], x, y),
    ensures
        painted(stamps, base, x, y) == stamp_color(stamps[k], x, y),
    decreases stamps.len(),
{
    if k < stamps.len() - 1 {
        let rest = stamps.drop_last();
        assert(!stamp_paints(stamps[stamps.len() - 1], x, y));
        assert forall|j: int| k < j < rest.len() implies !stamp_paints(#[trigger] rest[j], x, y) by {
            assert(rest[j] == stamps[j]);
        }
        lemma_painted_by_last_painter(rest, base, x, y, k);
    }
}

/// A pixel no stamp paints keeps its colour.
pub proof fn lemma_painted_untouched(stamps: Seq<SquareStamp>, base: [u32; 4], x: int, y: int)
    requires
        forall|j: int| 0 <= j < stamps.len() ==> !stamp_paints(#[trigger] stamps[j], x, y),
    ensures
        painted(stamps, base, x, y) == base,
    decreases stamps.len(),
{
    if stamps.len() > 0 {
        let rest = stamps.drop_last();
        assert(!stamp_paints(stamps[stamps.len() - 1], x, y));
        assert forall|j: int| 0 <= j < rest.len() implies !stamp_paints(#[trigger] rest[j], x, y) by {
            assert(rest[j] == stamps[j]);
        }
        lemma_painted_untouched(rest, base, x, y);
    }
}

/// When some stamp paints a pixel, there is a last one that does.
pub proof fn lemma_last_painter_exists(stamps: Seq<SquareStamp>, x: int, y: int, j: int) -> (k: int)
    requires
        0 <= j < stamps.len(),
        stamp_paints(stamps[j], x, y),
    ensures
        j <= k < stamps.len(),
        stamp_paints(stamps[k], x, y),
        forall|m: int| k < m < stamps.len() ==> !stamp_paints(#[trigger] stamps[m], x, y),
    decreases stamps.len(),
{
    let last = stamps.len() - 1;
    if stamp_paints(stamps[last], x, y) {
        last
    } else {
        let rest = stamps.drop_last();
        assert(rest[j] == stamps[j]);
        let k = lemma_last_painter_exists(rest, x, y, j);
        assert forall|m: int| k < m < stamps.len() implies !stamp_paints(#[trigger] stamps[m], x, y) by {
            if m < last {
                assert(rest[m] == stamps[m]);
            }
        }
        k
    }
}

/// Stamping the same stamps again changes nothing: a pixel some stamp paints
/// already shows the last such stamp's colour, and the others keep theirs. So
/// tiles that do not move leave a persistent canvas unchanged frame after frame.
pub proof fn law_restamping_is_idempotent(stamps: Seq<SquareStamp>, base: [u32; 4], x: int, y: int)
    ensures
        painted(stamps, painted(stamps, base, x, y), x, y) == painted(stamps, base, x, y),
    decreases stamps.len(),
{
    if stamps.len() > 0 && !stamp_paints(stamps.last(), x, y) {
        law_restamping_is_idempotent(stamps.drop_last(), base, x, y);
    }
}

} // verus!
