//! The single-frame flow cache: a manifest describing the cached field and a
//! frame file holding a 16-byte header (magic, width, height) followed by the
//! row-major vectors, every value little-endian.

use vstd::prelude::*;
use crate::bytes::{le_u32_byte, le_u32_bytes, u32_at, push_le_u32, le_u32_at, lemma_u32_at_le_bytes};
use crate::error::RenderError;
use crate::image::FlowFieldBits;
use crate::text::{str_eq, string_from_str, expected_got, push_decimal, chars_of};

verus! {

pub const FLOW_CACHE_VERSION: u32 = 2;
pub const FRAME_FILE_NAME: &'static str = "frame_000000.flowf32";
pub const FLOW_VECTOR_CONVENTION: &'static str = "backward_sampling_offset";

/// Description of a cached flow field.
#[derive(Debug, PartialEq, Eq)]
pub struct FlowCacheManifest {
    pub version: u32,
    pub kind: String,
    pub algorithm: String,
    pub width: u32,
    pub height: u32,
    pub coordinate_space: String,
    pub vector_units: String,
    pub vector_convention: String,
    pub source_fingerprint: Option<String>,
    pub frames: Vec<FlowCacheFrame>,
}

/// One cached frame and the file, relative to the cache directory, that holds it.
#[derive(Debug, PartialEq, Eq)]
pub struct FlowCacheFrame {
    pub frame_index: u64,
    pub path: String,
}

/// `MGFLW001`, the first eight bytes of every frame file.
pub open spec fn flow_frame_magic() -> Seq<u8> {
    seq![77u8, 71u8, 70u8, 76u8, 87u8, 48u8, 48u8, 49u8]
}

/// The payload bytes of `vectors`: two components per vector, each four
/// little-endian bytes.
pub open spec fn vector_bytes_spec(vectors: Seq<[u32; 2]>) -> Seq<u8> {
    Seq::new(8 * vectors.len(), |k: int| le_u32_byte(vectors[k / 8][(k % 8) / 4], k % 4))
}

/// The vectors stored in a payload of whole 8-byte records.
pub open spec fn vectors_from_bytes(payload: Seq<u8>) -> Seq<[u32; 2]> {
    Seq::new(
        payload.len() / 8,
        |i: int| [u32_at(payload, 8 * i), u32_at(payload, 8 * i + 4)],
    )
}

/// The complete frame file of a `width` × `height` field with `vectors`.
pub open spec fn flow_frame_bytes(width: u32, height: u32, vectors: Seq<[u32; 2]>) -> Seq<u8> {
    flow_frame_magic() + le_u32_bytes(width) + le_u32_bytes(height) + vector_bytes_spec(vectors)
}

/// A frame file the reader accepts for a `width` × `height` manifest.
pub open spec fn flow_frame_valid(bytes: Seq<u8>, width: u32, height: u32) -> bool {
    &&& 16 + 8 * width * height <= usize::MAX
    &&& bytes.len() == 16 + 8 * width * height
    &&& bytes.subrange(0, 8) == flow_frame_magic()
    &&& u32_at(bytes, 8) == width
    &&& u32_at(bytes, 12) == height
    &&& width > 0
    &&& height > 0
}

/// The manifest checks of the reader: a known version (1 or 2), the flow kind,
/// a non-empty grid and exactly one frame.
pub open spec fn manifest_valid(m: FlowCacheManifest) -> bool {
    &&& 1 <= m.version <= FLOW_CACHE_VERSION
    &&& m.kind@ == "flow_field_f32"@
    &&& m.width > 0
    &&& m.height > 0
    &&& m.frames@.len() == 1
}

/// Whether a frame path is absolute on Unix (begins with `/`).
pub open spec fn is_absolute_path(path: Seq<char>) -> bool {
    path.len() > 0 && path[0] == '/'
}

/// The vector count of a `width` × `height` field, refused when it does not
/// fit in `usize`.
pub fn checked_vector_count(width: u32, height: u32) -> (r: Result<usize, RenderError>)
    ensures
        r is Ok <==> width * height <= usize::MAX,
        r matches Ok(n) ==> n == width * height,
        r matches Err(e) ==> e is InvalidFlowCache,
{
    match (width as usize).checked_mul(height as usize) {
        Some(n) => Ok(n),
        None => Err(RenderError::InvalidFlowCache(String::from_str("flow dimensions are too large"))),
    }
}

/// A little-endian `u32` held in exactly four bytes.
pub fn read_u32_le(bytes: &[u8]) -> (r: Result<u32, RenderError>)
    ensures
        r is Ok <==> bytes@.len() == 4,
        r matches Ok(v) ==> v == u32_at(bytes@, 0),
        r matches Err(e) ==> e is InvalidFlowCache,
{
    if bytes.len() != 4 {
        return Err(RenderError::InvalidFlowCache(String::from_str("expected four bytes for u32")));
    }
    Ok(le_u32_at(bytes, 0))
}

/// Checks a manifest as the reader does: version, kind, grid and frame count.
pub fn validate_manifest(manifest: &FlowCacheManifest) -> (r: Result<(), RenderError>)
    ensures
        r is Ok <==> manifest_valid(*manifest),
        r matches Err(e) ==> e is InvalidFlowCache,
{
    if !(1 <= manifest.version && manifest.version <= FLOW_CACHE_VERSION) {
        let mut detail = String::from_str("unsupported flow cache version ");
        push_decimal(&mut detail, manifest.version as u64);
        return Err(RenderError::InvalidFlowCache(detail));
    }
    if !str_eq(manifest.kind.as_str(), "flow_field_f32") {
        let mut detail = String::from_str("unsupported flow cache kind ");
        detail.append(manifest.kind.as_str());
        return Err(RenderError::InvalidFlowCache(detail));
    }
    if manifest.width == 0 || manifest.height == 0 {
        return Err(
            RenderError::InvalidFlowCache(
                String::from_str("width and height must be greater than zero"),
            ),
        );
    }
    if manifest.frames.len() != 1 {
        return Err(
            RenderError::InvalidFlowCache(
                String::from_str("single-frame flow caches must contain exactly one frame"),
            ),
        );
    }
    Ok(())
}

/// The frame path as given, refused when it is absolute.
pub fn relative_cache_path(path: &str) -> (r: Result<String, RenderError>)
    ensures
        r is Ok <==> !is_absolute_path(path@),
        r matches Ok(p) ==> p@ == path@,
        r matches Err(e) ==> e is InvalidFlowCache,
{
    let chars = chars_of(path);
    if chars.len() > 0 && chars[0] == '/' {
        return Err(
            RenderError::InvalidFlowCache(String::from_str("cache frame path must be relative")),
        );
    }
    Ok(string_from_str(path))
}

/// The path, relative to the cache directory, of the frame a manifest
/// describes; the manifest must pass validation and the path must be relative.
pub fn flow_cache_frame_path(manifest: &FlowCacheManifest) -> (r: Result<String, RenderError>)
    ensures
        r is Ok <==> manifest_valid(*manifest) && !is_absolute_path(manifest.frames@[0].path@),
        r matches Ok(p) ==> p@ == manifest.frames@[0].path@,
        r matches Err(e) ==> e is InvalidFlowCache,
{
    validate_manifest(manifest)?;
    relative_cache_path(manifest.frames[0].path.as_str())
}

/// The manifest recorded for a freshly written single-frame cache.
pub fn flow_cache_manifest(
    width: u32,
    height: u32,
    algorithm: String,
    source_fingerprint: Option<String>,
) -> (m: FlowCacheManifest)
    ensures
        m.version == FLOW_CACHE_VERSION,
        m.kind@ == "flow_field_f32"@,
        m.algorithm == algorithm,
        m.width == width,
        m.height == height,
        m.coordinate_space@ == "output_pixel_coordinates"@,
        m.vector_units@ == "pixels_before_amount_scale"@,
        m.vector_convention@ == FLOW_VECTOR_CONVENTION@,
        m.source_fingerprint == source_fingerprint,
        m.frames@.len() == 1,
        m.frames@[0].frame_index == 0,
        m.frames@[0].path@ == FRAME_FILE_NAME@,
{
    let mut frames: Vec<FlowCacheFrame> = Vec::new();
    frames.push(FlowCacheFrame { frame_index: 0, path: String::from_str(FRAME_FILE_NAME) });
    FlowCacheManifest {
        version: FLOW_CACHE_VERSION,
        kind: String::from_str("flow_field_f32"),
        algorithm,
        width,
        height,
        coordinate_space: String::from_str("output_pixel_coordinates"),
        vector_units: String::from_str("pixels_before_amount_scale"),
        vector_convention: String::from_str(FLOW_VECTOR_CONVENTION),
        source_fingerprint,
        frames,
    }
}

proof fn lemma_vector_byte_index(i: int, c: int, j: int)
    requires
        0 <= i,
        0 <= c < 2,
        0 <= j < 4,
    ensures
        (8 * i + 4 * c + j) / 8 == i,
        ((8 * i + 4 * c + j) % 8) / 4 == c,
        (8 * i + 4 * c + j) % 4 == j,
{
    assert((8 * i + 4 * c + j) / 8 == i && (8 * i + 4 * c + j) % 8 == 4 * c + j && (8 * i + 4
        * c + j) % 4 == j) by (nonlinear_arith)
        requires
            0 <= i,
            0 <= c < 2,
            0 <= j < 4,
    ;
    assert((4 * c + j) / 4 == c) by (nonlinear_arith)
        requires
            0 <= c < 2,
            0 <= j < 4,
    ;
}

proof fn lemma_vector_bytes_push(v: Seq<[u32; 2]>, x: [u32; 2])
    ensures
        vector_bytes_spec(v.push(x)) =~= vector_bytes_spec(v) + le_u32_bytes(x[0])
            + le_u32_bytes(x[1]),
{
    let n = v.len() as int;
    let lhs = vector_bytes_spec(v.push(x));
    let rhs = vector_bytes_spec(v) + le_u32_bytes(x[0]) + le_u32_bytes(x[1]);
    assert forall|k: int| 0 <= k < lhs.len() implies lhs[k] == rhs[k] by {
        if k < 8 * n {
            assert(0 <= k / 8 < n) by (nonlinear_arith)
                requires
                    0 <= k < 8 * n,
            ;
        } else {
            let r = k - 8 * n;
            assert((8 * n + r) / 8 == n && (8 * n + r) % 8 == r) by (nonlinear_arith)
                requires
                    0 <= r < 8,
                    0 <= n,
            ;
        }
    }
}

/// The frame file of `flow`; refused when its length would not fit in `usize`.
pub fn encode_flow_frame(flow: &FlowFieldBits) -> (r: Result<Vec<u8>, RenderError>)
    requires
        flow.wf(),
    ensures
        r is Ok <==> 16 + 8 * flow.width * flow.height <= usize::MAX,
        r matches Ok(bytes) ==> bytes@ == flow_frame_bytes(flow.width, flow.height, flow.vectors@),
        r matches Err(e) ==> e is InvalidFlowCache,
{
    let count = match checked_vector_count(flow.width, flow.height) {
        Ok(n) => n,
        Err(e) => {
            assert(16 + 8 * flow.width * flow.height > usize::MAX) by (nonlinear_arith)
                requires
                    flow.width * flow.height > usize::MAX,
                    flow.width * flow.height >= 0,
            ;
            return Err(e);
        },
    };
    let too_large = RenderError::InvalidFlowCache(
        String::from_str("flow frame byte length is too large"),
    );
    let vector_bytes = match count.checked_mul(8) {
        Some(n) => n,
        None => {
            assert(16 + 8 * flow.width * flow.height > usize::MAX) by (nonlinear_arith)
                requires
                    count * 8 > usize::MAX,
                    count == flow.width * flow.height,
            ;
            return Err(too_large);
        },
    };
    assert(vector_bytes == 8 * flow.width * flow.height) by (nonlinear_arith)
        requires
            vector_bytes == count * 8,
            count == flow.width * flow.height,
    ;
    if vector_bytes > usize::MAX - 16 {
        return Err(too_large);
    }
    let mut bytes: Vec<u8> = Vec::new();
    bytes.push(77u8);
    bytes.push(71u8);
    bytes.push(70u8);
    bytes.push(76u8);
    bytes.push(87u8);
    bytes.push(48u8);
    bytes.push(48u8);
    bytes.push(49u8);
    assert(bytes@ =~= flow_frame_magic());
    push_le_u32(&mut bytes, flow.width);
    push_le_u32(&mut bytes, flow.height);
    let ghost head = bytes@;
    let mut i: usize = 0;
    while i < flow.vectors.len()
        invariant
            i <= flow.vectors@.len(),
            bytes@ == head + vector_bytes_spec(flow.vectors@.take(i as int)),
        decreases flow.vectors.len() - i,
    {
        let v = flow.vectors[i];
        push_le_u32(&mut bytes, v[0]);
        push_le_u32(&mut bytes, v[1]);
        proof {
            lemma_vector_bytes_push(flow.vectors@.take(i as int), v);
            assert(flow.vectors@.take(i as int).push(v) =~= flow.vectors@.take(i + 1));
        }
        i = i + 1;
    }
    assert(flow.vectors@.take(flow.vectors.len() as int) =~= flow.vectors@);
    assert(bytes@ =~= flow_frame_bytes(flow.width, flow.height, flow.vectors@));
    Ok(bytes)
}

/// Reads a frame file for a `expected_width` × `expected_height` manifest:
/// checks its length, magic and recorded dimensions, then rebuilds the field.
pub fn decode_flow_frame(bytes: &[u8], expected_width: u32, expected_height: u32) -> (r: Result<
    FlowFieldBits,
    RenderError,
>)
    ensures
        r is Ok <==> flow_frame_valid(bytes@, expected_width, expected_height),
        r matches Ok(f) ==> {
            &&& f.wf()
            &&& f.width == expected_width
            &&& f.height == expected_height
            &&& f.vectors@ == vectors_from_bytes(bytes@.subrange(16, bytes@.len() as int))
        },
        r matches Err(e) ==> (e is InvalidFlowField <==> (flow_frame_valid(
            bytes@,
            expected_width,
            expected_height,
        ) == false && (expected_width == 0 || expected_height == 0) && bytes@.len() == 16
            && bytes@.subrange(0, 8) == flow_frame_magic() && u32_at(bytes@, 8) == expected_width
            && u32_at(bytes@, 12) == expected_height)),
{
    let count = match checked_vector_count(expected_width, expected_height) {
        Ok(n) => n,
        Err(e) => {
            assert(16 + 8 * expected_width * expected_height > usize::MAX) by (nonlinear_arith)
                requires
                    expected_width * expected_height > usize::MAX,
                    expected_width * expected_height >= 0,
            ;
            return Err(e);
        },
    };
    let too_large = RenderError::InvalidFlowCache(
        String::from_str("flow frame byte length is too large"),
    );
    let vector_bytes = match count.checked_mul(8) {
        Some(n) => n,
        None => {
            assert(16 + 8 * expected_width * expected_height > usize::MAX) by (nonlinear_arith)
                requires
                    count * 8 > usize::MAX,
                    count == expected_width * expected_height,
            ;
            return Err(too_large);
        },
    };
    assert(vector_bytes == 8 * expected_width * expected_height) by (nonlinear_arith)
        requires
            vector_bytes == count * 8,
            count == expected_width * expected_height,
    ;
    if vector_bytes > usize::MAX - 16 {
        return Err(too_large);
    }
    let expected_len = 16 + vector_bytes;
    if bytes.len() != expected_len {
        return Err(
            RenderError::InvalidFlowCache(
                expected_got(expected_len as u64, "bytes", bytes.len() as u64),
            ),
        );
    }
    if !(bytes[0] == 77u8 && bytes[1] == 71u8 && bytes[2] == 70u8 && bytes[3] == 76u8 && bytes[4]
        == 87u8 && bytes[5] == 48u8 && bytes[6] == 48u8 && bytes[7] == 49u8) {
        proof {
            if bytes@.subrange(0, 8) == flow_frame_magic() {
                assert(bytes@[0] == bytes@.subrange(0, 8)[0]);
                assert(bytes@[1] == bytes@.subrange(0, 8)[1]);
                assert(bytes@[2] == bytes@.subrange(0, 8)[2]);
                assert(bytes@[3] == bytes@.subrange(0, 8)[3]);
                assert(bytes@[4] == bytes@.subrange(0, 8)[4]);
                assert(bytes@[5] == bytes@.subrange(0, 8)[5]);
                assert(bytes@[6] == bytes@.subrange(0, 8)[6]);
                assert(bytes@[7] == bytes@.subrange(0, 8)[7]);
            }
        }
        return Err(RenderError::InvalidFlowCache(String::from_str("invalid flow frame magic")));
    }
    assert(bytes@.subrange(0, 8) =~= flow_frame_magic());
    let width = le_u32_at(bytes, 8);
    let height = le_u32_at(bytes, 12);
    if width != expected_width || height != expected_height {
        let mut detail = String::from_str("frame dimensions ");
        push_decimal(&mut detail, width as u64);
        detail.append("x");
        push_decimal(&mut detail, height as u64);
        detail.append(" do not match manifest ");
        push_decimal(&mut detail, expected_width as u64);
        detail.append("x");
        push_decimal(&mut detail, expected_height as u64);
        return Err(RenderError::InvalidFlowCache(detail));
    }
    let mut vectors: Vec<[u32; 2]> = Vec::new();
    let ghost payload = bytes@.subrange(16, bytes@.len() as int);
    proof {
        let m = expected_width as int * expected_height as int;
        assert(8 * expected_width * expected_height == 8 * m && m >= 0) by (nonlinear_arith)
            requires
                m == expected_width * expected_height,
        ;
        assert((8 * m) / 8 == m) by (nonlinear_arith)
            requires
                m >= 0,
        ;
    }
    let mut i: usize = 0;
    while i < count
        invariant
            bytes@.len() == 16 + 8 * count,
            16 + 8 * count <= usize::MAX,
            payload == bytes@.subrange(16, bytes@.len() as int),
            payload.len() / 8 == count,
            i <= count,
            vectors@.len() == i,
            forall|k: int| 0 <= k < i ==> vectors@[k] == vectors_from_bytes(payload)[k],
        decreases count - i,
    {
        assert(8 * i + 8 <= 8 * count);
        let o = 16 + 8 * i;
        let v = [le_u32_at(bytes, o), le_u32_at(bytes, o + 4)];
        proof {
            broadcast use vstd::array::axiom_array_ext_equal;

            assert(payload[8 * i] == bytes@[o as int]);
            assert(payload[8 * i + 1] == bytes@[o + 1]);
            assert(payload[8 * i + 2] == bytes@[o + 2]);
            assert(payload[8 * i + 3] == bytes@[o + 3]);
            assert(payload[8 * i + 4] == bytes@[o + 4]);
            assert(payload[8 * i + 5] == bytes@[o + 5]);
            assert(payload[8 * i + 6] == bytes@[o + 6]);
            assert(payload[8 * i + 7] == bytes@[o + 7]);
            assert(v =~= vectors_from_bytes(payload)[i as int]);
        }
        vectors.push(v);
        i = i + 1;
    }
    assert(vectors@ =~= vectors_from_bytes(payload));
    FlowFieldBits::new(width, height, vectors)
}

/// Reading back the payload of `vectors` gives `vectors`.
pub proof fn lemma_vector_bytes_round_trip(vectors: Seq<[u32; 2]>)
    ensures
        vectors_from_bytes(vector_bytes_spec(vectors)) == vectors,
{
    let b = vector_bytes_spec(vectors);
    let n = vectors.len() as int;
    assert(b.len() / 8 == n) by (nonlinear_arith)
        requires
            b.len() == 8 * n,
    ;
    assert forall|i: int| 0 <= i < n implies vectors_from_bytes(b)[i] == vectors[i] by {
        assert forall|c: int| 0 <= c < 2 implies u32_at(b, 8 * i + 4 * c) == vectors[i][c] by {
            assert forall|j: int| 0 <= j < 4 implies b.subrange(8 * i + 4 * c, 8 * i + 4 * c
                + 4)[j] == le_u32_bytes(vectors[i][c])[j] by {
                lemma_vector_byte_index(i, c, j);
                assert(8 * i + 4 * c + j < 8 * n) by (nonlinear_arith)
                    requires
                        0 <= i < n,
                        0 <= c < 2,
                        0 <= j < 4,
                ;
            }
            assert(8 * i + 4 * c + 4 <= 8 * n) by (nonlinear_arith)
                requires
                    0 <= i < n,
                    0 <= c < 2,
            ;
            assert(b.subrange(8 * i + 4 * c, 8 * i + 4 * c + 4) =~= le_u32_bytes(
                vectors[i][c],
            ));
            lemma_u32_at_le_bytes(b, 8 * i + 4 * c, vectors[i][c]);
        }
        broadcast use vstd::array::axiom_array_ext_equal;

        assert(vectors_from_bytes(b)[i] =~= vectors[i]);
    }
    assert(vectors_from_bytes(b) =~= vectors);
}

/// Round trip: the frame file written for a well-formed field is accepted by
/// the reader for the same dimensions and gives back the same vectors; the
/// manifest written alongside passes validation and names that frame file.
pub proof fn law_flow_cache_round_trip(
    width: u32,
    height: u32,
    vectors: Seq<[u32; 2]>,
    manifest: FlowCacheManifest,
)
    requires
        width > 0,
        height > 0,
        vectors.len() == width * height,
        16 + 8 * width * height <= usize::MAX,
        manifest.version == FLOW_CACHE_VERSION,
        manifest.kind@ == "flow_field_f32"@,
        manifest.width == width,
        manifest.height == height,
        manifest.frames@.len() == 1,
        manifest.frames@[0].path@ == FRAME_FILE_NAME@,
    ensures
        ({
            let bytes = flow_frame_bytes(width, height, vectors);
            &&& flow_frame_valid(bytes, manifest.width, manifest.height)
            &&& vectors_from_bytes(bytes.subrange(16, bytes.len() as int)) == vectors
        }),
        manifest_valid(manifest),
        !is_absolute_path(manifest.frames@[0].path@),
{
    let bytes = flow_frame_bytes(width, height, vectors);
    let vb = vector_bytes_spec(vectors);
    assert(8 * vectors.len() == 8 * width * height) by (nonlinear_arith)
        requires
            vectors.len() == width * height,
    ;
    assert(bytes.subrange(0, 8) =~= flow_frame_magic());
    assert(bytes.subrange(8, 12) =~= le_u32_bytes(width));
    assert(bytes.subrange(12, 16) =~= le_u32_bytes(height));
    assert(bytes.subrange(16, bytes.len() as int) =~= vb);
    lemma_u32_at_le_bytes(bytes, 8, width);
    lemma_u32_at_le_bytes(bytes, 12, height);
    lemma_vector_bytes_round_trip(vectors);
    reveal_strlit("frame_000000.flowf32");
}

} // verus!
