//! The feedback checkpoint format: a 28-byte header (magic, version, width,
//! height, FNV-1a checksum) followed by the unquantized row-major RGBA32F
//! pixels, every value little-endian.

use vstd::prelude::*;
use crate::bytes::{le_u32_byte, le_u32_bytes, le_u64_bytes, u32_at, u64_at, push_le_u32, push_le_u64, le_u32_at, le_u64_at, lemma_u32_at_le_bytes, lemma_u64_at_le_bytes};
use crate::error::RenderError;
use crate::image::ImageBufferBits;
use crate::text::{hex_spec, push_hex, push_decimal, expected_got, path_join, zero_padded_spec, push_zero_padded, push_path_component, string_from_str};

verus! {

pub const FLOW_FEEDBACK_STATE_VERSION: u32 = 1;

/// Bytes before the pixel payload.
pub const FEEDBACK_STATE_HEADER_BYTES: usize = 28;

/// What a checkpoint records about itself.
#[derive(Debug, PartialEq, Eq)]
pub struct FlowFeedbackStateDescriptor {
    pub version: u32,
    pub width: u32,
    pub height: u32,
    pub checksum: String,
}

/// `MGFDBK01`, the first eight bytes of every checkpoint.
pub open spec fn feedback_magic() -> Seq<u8> {
    seq![77u8, 71u8, 70u8, 68u8, 66u8, 75u8, 48u8, 49u8]
}

/// 64-bit FNV-1a of `bytes`.
pub open spec fn fnv1a_spec(bytes: Seq<u8>) -> u64
    decreases bytes.len(),
{
    if bytes.len() == 0 {
        0xcbf2_9ce4_8422_2325u64
    } else {
        (fnv1a_spec(bytes.drop_last()) ^ (bytes.last() as u64)).wrapping_mul(
            0x0000_0100_0000_01b3u64,
        )
    }
}

/// The printed form of a checksum: `fnv1a64:` and sixteen lowercase hex digits.
pub open spec fn checksum_text(checksum: u64) -> Seq<char> {
    "fnv1a64:"@ + hex_spec(checksum as nat, 16)
}

/// The payload bytes of `pixels`: each pixel's four channels, each channel
/// four little-endian bytes.
pub open spec fn pixel_bytes_spec(pixels: Seq<[u32; 4]>) -> Seq<u8> {
    Seq::new(16 * pixels.len(), |k: int| le_u32_byte(pixels[k / 16][(k % 16) / 4], k % 4))
}

/// The pixels stored in a payload of whole 16-byte records.
pub open spec fn pixels_from_bytes(payload: Seq<u8>) -> Seq<[u32; 4]> {
    Seq::new(
        payload.len() / 16,
        |i: int|
            [
                u32_at(payload, 16 * i),
                u32_at(payload, 16 * i + 4),
                u32_at(payload, 16 * i + 8),
                u32_at(payload, 16 * i + 12),
            ],
    )
}

/// The complete checkpoint of a `width` × `height` image with `pixels`.
pub open spec fn feedback_state_bytes(width: u32, height: u32, pixels: Seq<[u32; 4]>) -> Seq<u8> {
    feedback_magic() + le_u32_bytes(FLOW_FEEDBACK_STATE_VERSION) + le_u32_bytes(width)
        + le_u32_bytes(height) + le_u64_bytes(fnv1a_spec(pixel_bytes_spec(pixels)))
        + pixel_bytes_spec(pixels)
}

/// The width a checkpoint header records.
pub open spec fn state_width(bytes: Seq<u8>) -> u32 {
    u32_at(bytes, 12)
}

/// The height a checkpoint header records.
pub open spec fn state_height(bytes: Seq<u8>) -> u32 {
    u32_at(bytes, 16)
}

/// Every check of the reader passes except, possibly, the non-empty image rule.
pub open spec fn feedback_state_sound(bytes: Seq<u8>) -> bool {
    let w = state_width(bytes);
    let h = state_height(bytes);
    &&& bytes.len() >= 28
    &&& bytes.subrange(0, 8) == feedback_magic()
    &&& u32_at(bytes, 8) == FLOW_FEEDBACK_STATE_VERSION
    &&& 28 + 16 * w * h <= usize::MAX
    &&& bytes.len() == 28 + 16 * w * h
    &&& u64_at(bytes, 20) == fnv1a_spec(bytes.subrange(28, bytes.len() as int))
}

/// The bytes are a checkpoint the reader accepts.
pub open spec fn feedback_state_valid(bytes: Seq<u8>) -> bool {
    &&& feedback_state_sound(bytes)
    &&& state_width(bytes) > 0
    &&& state_height(bytes) > 0
}

/// FNV-1a (64-bit) over `bytes`.
pub fn checksum(bytes: &[u8]) -> (r: u64)
    ensures
        r == fnv1a_spec(bytes@),
{
    let mut hash: u64 = 0xcbf2_9ce4_8422_2325u64;
    let mut i: usize = 0;
    while i < bytes.len()
        invariant
            i <= bytes@.len(),
            hash == fnv1a_spec(bytes@.take(i as int)),
        decreases bytes.len() - i,
    {
        assert(bytes@.take(i + 1).drop_last() =~= bytes@.take(i as int));
        hash = (hash ^ (bytes[i] as u64)).wrapping_mul(0x0000_0100_0000_01b3u64);
        i = i + 1;
    }
    assert(bytes@.take(bytes.len() as int) =~= bytes@);
    hash
}

/// The printed form of `checksum`, e.g. `fnv1a64:00000000000004d2`.
pub fn format_checksum(checksum: u64) -> (r: String)
    ensures
        r@ == checksum_text(checksum),
{
    let mut r = String::from_str("fnv1a64:");
    push_hex(&mut r, checksum, 16);
    r
}

/// The payload length of a `width` × `height` checkpoint, refused when it
/// does not fit in `usize`.
pub fn checked_pixel_bytes(width: u32, height: u32) -> (r: Result<usize, RenderError>)
    ensures
        r is Ok <==> 16 * width * height <= usize::MAX,
        r matches Ok(n) ==> n == 16 * width * height,
        r matches Err(e) ==> e is InvalidFlowFeedbackState,
{
    let too_large = RenderError::InvalidFlowFeedbackState(
        String::from_str("feedback state dimensions are too large"),
    );
    match (width as usize).checked_mul(height as usize) {
        Some(count) => {
            assert(count * 16 == 16 * width * height) by (nonlinear_arith)
                requires
                    count == width * height,
            ;
            match count.checked_mul(16) {
                Some(n) => Ok(n),
                None => Err(too_large),
            }
        },
        None => {
            assert(16 * width * height > usize::MAX) by (nonlinear_arith)
                requires
                    width * height > usize::MAX,
                    width * height >= 0,
            ;
            Err(too_large)
        },
    }
}

/// A little-endian `u32` held in exactly four bytes.
pub fn read_u32(bytes: &[u8]) -> (r: Result<u32, RenderError>)
    ensures
        r is Ok <==> bytes@.len() == 4,
        r matches Ok(v) ==> v == u32_at(bytes@, 0),
        r matches Err(e) ==> e is InvalidFlowFeedbackState,
{
    if bytes.len() != 4 {
        return Err(
            RenderError::InvalidFlowFeedbackState(
                String::from_str("expected four bytes for a feedback state u32"),
            ),
        );
    }
    Ok(le_u32_at(bytes, 0))
}

/// A little-endian `u64` held in exactly eight bytes.
pub fn read_u64(bytes: &[u8]) -> (r: Result<u64, RenderError>)
    ensures
        r is Ok <==> bytes@.len() == 8,
        r matches Ok(v) ==> v == u64_at(bytes@, 0),
        r matches Err(e) ==> e is InvalidFlowFeedbackState,
{
    if bytes.len() != 8 {
        return Err(
            RenderError::InvalidFlowFeedbackState(
                String::from_str("expected eight bytes for a feedback state checksum"),
            ),
        );
    }
    Ok(le_u64_at(bytes, 0))
}

proof fn lemma_record_index(i: int, r: int)
    requires
        0 <= r < 16,
        0 <= i,
    ensures
        (16 * i + r) / 16 == i,
        (16 * i + r) % 16 == r,
{
    assert((16 * i + r) / 16 == i && (16 * i + r) % 16 == r) by (nonlinear_arith)
        requires
            0 <= r < 16,
            0 <= i,
    ;
}

proof fn lemma_pixel_bytes_push(p: Seq<[u32; 4]>, px: [u32; 4])
    ensures
        pixel_bytes_spec(p.push(px)) =~= pixel_bytes_spec(p) + le_u32_bytes(px[0]) + le_u32_bytes(
            px[1],
        ) + le_u32_bytes(px[2]) + le_u32_bytes(px[3]),
{
    let n = p.len() as int;
    let lhs = pixel_bytes_spec(p.push(px));
    let rhs = pixel_bytes_spec(p) + le_u32_bytes(px[0]) + le_u32_bytes(px[1]) + le_u32_bytes(
        px[2],
    ) + le_u32_bytes(px[3]);
    assert(lhs.len() == rhs.len());
    assert forall|k: int| 0 <= k < lhs.len() implies lhs[k] == rhs[k] by {
        if k < 16 * n {
            assert(k / 16 < n) by (nonlinear_arith)
                requires
                    0 <= k < 16 * n,
            ;
            assert(0 <= k / 16) by (nonlinear_arith)
                requires
                    0 <= k,
            ;
        } else {
            let r = k - 16 * n;
            lemma_record_index(n, r);
            assert(k == 16 * n + r);
        }
    }
}

/// The payload bytes of `pixels`.
pub fn rgba_le_bytes(pixels: &Vec<[u32; 4]>) -> (r: Vec<u8>)
    requires
        16 * pixels@.len() <= usize::MAX,
    ensures
        r@ == pixel_bytes_spec(pixels@),
{
    let mut out: Vec<u8> = Vec::new();
    let mut i: usize = 0;
    while i < pixels.len()
        invariant
            i <= pixels@.len(),
            out@ == pixel_bytes_spec(pixels@.take(i as int)),
        decreases pixels.len() - i,
    {
        let px = pixels[i];
        push_le_u32(&mut out, px[0]);
        push_le_u32(&mut out, px[1]);
        push_le_u32(&mut out, px[2]);
        push_le_u32(&mut out, px[3]);
        proof {
            lemma_pixel_bytes_push(pixels@.take(i as int), px);
            assert(pixels@.take(i as int).push(px) =~= pixels@.take(i + 1));
        }
        i = i + 1;
    }
    assert(pixels@.take(pixels.len() as int) =~= pixels@);
    out
}

/// The checkpoint of `image` and the descriptor it records; refused when the
/// checkpoint length would not fit in `usize`.
pub fn encode_flow_feedback_state(image: &ImageBufferBits) -> (r: Result<
    (Vec<u8>, FlowFeedbackStateDescriptor),
    RenderError,
>)
    requires
        image.wf(),
    ensures
        r is Ok <==> 28 + 16 * image.width * image.height <= usize::MAX,
        r matches Ok((bytes, d)) ==> {
            &&& bytes@ == feedback_state_bytes(image.width, image.height, image.pixels@)
            &&& d.version == FLOW_FEEDBACK_STATE_VERSION
            &&& d.width == image.width
            &&& d.height == image.height
            &&& d.checksum@ == checksum_text(fnv1a_spec(pixel_bytes_spec(image.pixels@)))
        },
        r matches Err(e) ==> e is InvalidFlowFeedbackState,
{
    let payload_len = checked_pixel_bytes(image.width, image.height)?;
    if payload_len > usize::MAX - FEEDBACK_STATE_HEADER_BYTES {
        return Err(
            RenderError::InvalidFlowFeedbackState(String::from_str("feedback state is too large")),
        );
    }
    assert(16 * image.pixels@.len() == 16 * image.width * image.height) by (nonlinear_arith)
        requires
            image.pixels@.len() == image.width * image.height,
    ;
    let pixel_bytes = rgba_le_bytes(&image.pixels);
    let sum = checksum(pixel_bytes.as_slice());
    let mut bytes: Vec<u8> = Vec::new();
    bytes.push(77u8);
    bytes.push(71u8);
    bytes.push(70u8);
    bytes.push(68u8);
    bytes.push(66u8);
    bytes.push(75u8);
    bytes.push(48u8);
    bytes.push(49u8);
    assert(bytes@ =~= feedback_magic());
    push_le_u32(&mut bytes, FLOW_FEEDBACK_STATE_VERSION);
    push_le_u32(&mut bytes, image.width);
    push_le_u32(&mut bytes, image.height);
    push_le_u64(&mut bytes, sum);
    let mut i: usize = 0;
    let ghost head = bytes@;
    while i < pixel_bytes.len()
        invariant
            i <= pixel_bytes@.len(),
            bytes@ == head + pixel_bytes@.take(i as int),
        decreases pixel_bytes.len() - i,
    {
        bytes.push(pixel_bytes[i]);
        assert(pixel_bytes@.take(i as int).push(pixel_bytes@[i as int]) =~= pixel_bytes@.take(
            i + 1,
        ));
        i = i + 1;
    }
    assert(pixel_bytes@.take(pixel_bytes.len() as int) =~= pixel_bytes@);
    let descriptor = FlowFeedbackStateDescriptor {
        version: FLOW_FEEDBACK_STATE_VERSION,
        width: image.width,
        height: image.height,
        checksum: format_checksum(sum),
    };
    Ok((bytes, descriptor))
}


/// The pixels a payload of `count` whole records holds, read record by record.
fn read_pixel_records(payload: &[u8], count: usize) -> (r: Vec<[u32; 4]>)
    requires
        payload@.len() == 16 * count,
    ensures
        r@ == pixels_from_bytes(payload@),
{
    let mut pixels: Vec<[u32; 4]> = Vec::new();
    let mut i: usize = 0;
    let ghost plen = payload.len();
    assert(plen == payload@.len());
    while i < count
        invariant
            payload@.len() == 16 * count,
            16 * count <= usize::MAX,
            i <= count,
            pixels@.len() == i,
            forall|k: int| 0 <= k < i ==> pixels@[k] == pixels_from_bytes(payload@)[k],
        decreases count - i,
    {
        assert(16 * i + 16 <= 16 * count);
        let o = 16 * i;
        let px = [
            le_u32_at(payload, o),
            le_u32_at(payload, o + 4),
            le_u32_at(payload, o + 8),
            le_u32_at(payload, o + 12),
        ];
        proof {
            assert(payload@.len() / 16 == count) by (nonlinear_arith)
                requires
                    payload@.len() == 16 * count,
            ;
            broadcast use vstd::array::axiom_array_ext_equal;
            assert(px =~= pixels_from_bytes(payload@)[i as int]);
        }
        pixels.push(px);
        i = i + 1;
    }
    proof {
        assert(payload@.len() / 16 == count) by (nonlinear_arith)
            requires
                payload@.len() == 16 * count,
        ;
    }
    assert(pixels@ =~= pixels_from_bytes(payload@));
    pixels
}

/// Reads a checkpoint: checks its length, magic, version, declared size and
/// checksum, then rebuilds the image.
pub fn decode_flow_feedback_state(bytes: &[u8]) -> (r: Result<
    (FlowFeedbackStateDescriptor, ImageBufferBits),
    RenderError,
>)
    ensures
        r is Ok <==> feedback_state_valid(bytes@),
        r matches Ok((d, img)) ==> {
            &&& img.wf()
            &&& img.width == state_width(bytes@)
            &&& img.height == state_height(bytes@)
            &&& img.pixels@ == pixels_from_bytes(bytes@.subrange(28, bytes@.len() as int))
            &&& d.version == FLOW_FEEDBACK_STATE_VERSION
            &&& d.width == img.width
            &&& d.height == img.height
            &&& d.checksum@ == checksum_text(u64_at(bytes@, 20))
        },
        r matches Err(e) ==> (e is InvalidImageBuffer <==> feedback_state_sound(bytes@)),
        r matches Err(e) ==> (e is InvalidFlowFeedbackState <==> !feedback_state_sound(bytes@)),
{
    if bytes.len() < FEEDBACK_STATE_HEADER_BYTES {
        return Err(
            RenderError::InvalidFlowFeedbackState(
                String::from_str("feedback state is shorter than its header"),
            ),
        );
    }
    if !(bytes[0] == 77u8 && bytes[1] == 71u8 && bytes[2] == 70u8 && bytes[3] == 68u8 && bytes[4]
        == 66u8 && bytes[5] == 75u8 && bytes[6] == 48u8 && bytes[7] == 49u8) {
        proof {
            if bytes@.subrange(0, 8) == feedback_magic() {
                assert(bytes@[0] == bytes@.subrange(0, 8)[0]);
                assert(bytes@[1] == bytes@.subrange(0, 8)[1]);
                assert(bytes@[2] == bytes@.subrange(0, 8)[2]);
                assert(bytes@[3] == bytes@.subrange(0, 8)[3]);
                assert(bytes@[4] == bytes@.subrange(0, 8)[4]);
                assert(bytes@[5] == bytes@.subrange(0, 8)[5]);
                assert(bytes@[6] == bytes@.subrange(0, 8)[6]);
                assert(bytes@[7] == bytes@.subrange(0, 8)[7]);
            }
        }
        return Err(
            RenderError::InvalidFlowFeedbackState(
                String::from_str("feedback state has an invalid magic value"),
            ),
        );
    }
    assert(bytes@.subrange(0, 8) =~= feedback_magic());
    let version = le_u32_at(bytes, 8);
    if version != FLOW_FEEDBACK_STATE_VERSION {
        let mut detail = String::from_str("unsupported feedback state version ");
        push_decimal(&mut detail, version as u64);
        return Err(RenderError::InvalidFlowFeedbackState(detail));
    }
    let width = le_u32_at(bytes, 12);
    let height = le_u32_at(bytes, 16);
    let expected_checksum = le_u64_at(bytes, 20);
    let payload_len = checked_pixel_bytes(width, height)?;
    if payload_len > usize::MAX - FEEDBACK_STATE_HEADER_BYTES {
        return Err(
            RenderError::InvalidFlowFeedbackState(String::from_str("feedback state is too large")),
        );
    }
    let expected_len = FEEDBACK_STATE_HEADER_BYTES + payload_len;
    if bytes.len() != expected_len {
        return Err(
            RenderError::InvalidFlowFeedbackState(
                expected_got(expected_len as u64, "bytes", bytes.len() as u64),
            ),
        );
    }
    let payload = &bytes[28..bytes.len()];
    let actual_checksum = checksum(payload);
    if actual_checksum != expected_checksum {
        return Err(
            RenderError::InvalidFlowFeedbackState(
                String::from_str("feedback state checksum does not match its pixel data"),
            ),
        );
    }
    let count = payload_len / 16;
    proof {
        let m = width as int * height as int;
        assert(16 * width * height == 16 * m) by (nonlinear_arith)
            requires
                m == width * height,
        ;
        assert(m >= 0) by (nonlinear_arith)
            requires
                m == width * height,
        ;
        lemma_record_index(m, 0);
    }
    let pixels = read_pixel_records(payload, count);
    let image = ImageBufferBits::new(width, height, pixels)?;
    Ok(
        (
            FlowFeedbackStateDescriptor {
                version,
                width,
                height,
                checksum: format_checksum(actual_checksum),
            },
            image,
        ),
    )
}

proof fn lemma_byte_index(i: int, c: int, j: int)
    requires
        0 <= i,
        0 <= c < 4,
        0 <= j < 4,
    ensures
        (16 * i + 4 * c + j) / 16 == i,
        ((16 * i + 4 * c + j) % 16) / 4 == c,
        (16 * i + 4 * c + j) % 4 == j,
{
    assert((16 * i + 4 * c + j) / 16 == i && (16 * i + 4 * c + j) % 16 == 4 * c + j && (16 * i
        + 4 * c + j) % 4 == j) by (nonlinear_arith)
        requires
            0 <= i,
            0 <= c < 4,
            0 <= j < 4,
    ;
    assert((4 * c + j) / 4 == c) by (nonlinear_arith)
        requires
            0 <= c < 4,
            0 <= j < 4,
    ;
}

/// Reading back the payload of `pixels` gives `pixels`.
pub proof fn lemma_pixel_bytes_round_trip(pixels: Seq<[u32; 4]>)
    ensures
        pixels_from_bytes(pixel_bytes_spec(pixels)) == pixels,
{
    let b = pixel_bytes_spec(pixels);
    let n = pixels.len() as int;
    assert(b.len() / 16 == n) by (nonlinear_arith)
        requires
            b.len() == 16 * n,
    ;
    assert forall|i: int| 0 <= i < n implies pixels_from_bytes(b)[i] == pixels[i] by {
        assert forall|c: int| 0 <= c < 4 implies u32_at(b, 16 * i + 4 * c) == pixels[i][c] by {
            assert forall|j: int| 0 <= j < 4 implies b.subrange(16 * i + 4 * c, 16 * i + 4 * c
                + 4)[j] == le_u32_bytes(pixels[i][c])[j] by {
                lemma_byte_index(i, c, j);
                assert(16 * i + 4 * c + j < 16 * n) by (nonlinear_arith)
                    requires
                        0 <= i < n,
                        0 <= c < 4,
                        0 <= j < 4,
                ;
            }
            assert(16 * i + 4 * c + 4 <= 16 * n) by (nonlinear_arith)
                requires
                    0 <= i < n,
                    0 <= c < 4,
            ;
            assert(b.subrange(16 * i + 4 * c, 16 * i + 4 * c + 4) =~= le_u32_bytes(
                pixels[i][c],
            ));
            lemma_u32_at_le_bytes(b, 16 * i + 4 * c, pixels[i][c]);
        }
        broadcast use vstd::array::axiom_array_ext_equal;

        assert(pixels_from_bytes(b)[i] =~= pixels[i]);
    }
    assert(pixels_from_bytes(b) =~= pixels);
}

/// Round trip: the checkpoint written for a well-formed image is accepted by
/// the reader, which gives back the same width, height and pixels, and the
/// checksum the writer recorded.
pub proof fn law_feedback_state_round_trip(width: u32, height: u32, pixels: Seq<[u32; 4]>)
    requires
        width > 0,
        height > 0,
        pixels.len() == width * height,
        28 + 16 * width * height <= usize::MAX,
    ensures
        ({
            let bytes = feedback_state_bytes(width, height, pixels);
            &&& feedback_state_valid(bytes)
            &&& state_width(bytes) == width
            &&& state_height(bytes) == height
            &&& pixels_from_bytes(bytes.subrange(28, bytes.len() as int)) == pixels
            &&& u64_at(bytes, 20) == fnv1a_spec(pixel_bytes_spec(pixels))
        }),
{
    let bytes = feedback_state_bytes(width, height, pixels);
    let pb = pixel_bytes_spec(pixels);
    let sum = fnv1a_spec(pb);
    assert(16 * pixels.len() == 16 * width * height) by (nonlinear_arith)
        requires
            pixels.len() == width * height,
    ;
    assert(bytes.len() == 28 + 16 * width * height);
    assert(bytes.subrange(0, 8) =~= feedback_magic());
    assert(bytes.subrange(8, 12) =~= le_u32_bytes(FLOW_FEEDBACK_STATE_VERSION));
    assert(bytes.subrange(12, 16) =~= le_u32_bytes(width));
    assert(bytes.subrange(16, 20) =~= le_u32_bytes(height));
    assert(bytes.subrange(20, 28) =~= le_u64_bytes(sum));
    assert(bytes.subrange(28, bytes.len() as int) =~= pb);
    lemma_u32_at_le_bytes(bytes, 8, FLOW_FEEDBACK_STATE_VERSION);
    lemma_u32_at_le_bytes(bytes, 12, width);
    lemma_u32_at_le_bytes(bytes, 16, height);
    lemma_u64_at_le_bytes(bytes, 20, sum);
    lemma_pixel_bytes_round_trip(pixels);
}


proof fn lemma_fnv_prime_invertible(x: u64)
    ensures
        x.wrapping_mul(0x0000_0100_0000_01b3u64).wrapping_mul(0xce96_5057_aff6_957bu64) == x,
{
    assert(x.wrapping_mul(0x0000_0100_0000_01b3u64).wrapping_mul(0xce96_5057_aff6_957bu64) == x)
        by (bit_vector);
}

proof fn lemma_fnv_step_injective(h1: u64, h2: u64, c1: u8, c2: u8)
    requires
        (h1 ^ (c1 as u64)) != (h2 ^ (c2 as u64)),
    ensures
        (h1 ^ (c1 as u64)).wrapping_mul(0x0000_0100_0000_01b3u64) != (h2 ^ (c2 as u64)).wrapping_mul(
            0x0000_0100_0000_01b3u64,
        ),
{
    lemma_fnv_prime_invertible(h1 ^ (c1 as u64));
    lemma_fnv_prime_invertible(h2 ^ (c2 as u64));
}

/// FNV-1a notices any single changed byte: two inputs that differ in exactly
/// one position never hash alike, so a checkpoint with one damaged byte
/// fails its checksum.
pub proof fn law_fnv1a_detects_single_byte_change(bytes: Seq<u8>, i: int, v: u8)
    requires
        0 <= i < bytes.len(),
        v != bytes[i],
    ensures
        fnv1a_spec(bytes.update(i, v)) != fnv1a_spec(bytes),
    decreases bytes.len(),
{
    let changed = bytes.update(i, v);
    let n = bytes.len() as int;
    if i == n - 1 {
        assert(changed.drop_last() =~= bytes.drop_last());
        let h = fnv1a_spec(bytes.drop_last());
        let old_byte = bytes[i];
        assert((h ^ (v as u64)) != (h ^ (old_byte as u64))) by (bit_vector)
            requires
                v != old_byte,
        ;
        lemma_fnv_step_injective(h, h, v, old_byte);
    } else {
        assert(changed.drop_last() =~= bytes.drop_last().update(i, v));
        law_fnv1a_detects_single_byte_change(bytes.drop_last(), i, v);
        let h1 = fnv1a_spec(changed.drop_last());
        let h2 = fnv1a_spec(bytes.drop_last());
        let c = bytes.last();
        assert(changed.last() == c);
        assert((h1 ^ (c as u64)) != (h2 ^ (c as u64))) by (bit_vector)
            requires
                h1 != h2,
        ;
        lemma_fnv_step_injective(h1, h2, c, c);
    }
}

/// A checkpoint the reader accepts is refused once any one byte of its pixel
/// payload is changed.
pub proof fn law_corrupt_payload_refused(bytes: Seq<u8>, i: int, v: u8)
    requires
        feedback_state_valid(bytes),
        28 <= i < bytes.len(),
        v != bytes[i],
    ensures
        !feedback_state_valid(bytes.update(i, v)),
{
    let changed = bytes.update(i, v);
    let n = bytes.len() as int;
    assert(changed.subrange(28, n) =~= bytes.subrange(28, n).update(i - 28, v));
    law_fnv1a_detects_single_byte_change(bytes.subrange(28, n), i - 28, v);
    assert(u64_at(changed, 20) == u64_at(bytes, 20));
}

/// Where the checkpoint of frame `frame_index` lives under `directory`:
/// `state/feedback_frame_NNNNNN.rgba32f`, the index zero-padded to six digits.
pub open spec fn feedback_state_path_spec(directory: Seq<char>, frame_index: u32) -> Seq<char> {
    path_join(
        path_join(directory, "state"@),
        "feedback_frame_"@ + zero_padded_spec(frame_index as nat, 6) + ".rgba32f"@,
    )
}

/// The checkpoint path of frame `frame_index` under `directory`.
pub fn feedback_state_path(directory: &str, frame_index: u32) -> (r: String)
    ensures
        r@ == feedback_state_path_spec(directory@, frame_index),
{
    let mut path = string_from_str(directory);
    proof {
        reveal_strlit("state");
    }
    push_path_component(&mut path, "state");
    let mut name = String::from_str("feedback_frame_");
    push_zero_padded(&mut name, frame_index as u64, 6);
    name.append(".rgba32f");
    proof {
        reveal_strlit("feedback_frame_");
        assert(name@[0] == 'f');
    }
    push_path_component(&mut path, name.as_str());
    path
}

} // verus!
