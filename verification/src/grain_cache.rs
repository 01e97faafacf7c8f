//! Sidecar caches of the granular mosaic: what each records, how it is built
//! from analysis results, and the checks a cache must pass before reuse.

use vstd::prelude::*;
use crate::error::RenderError;
use crate::float_bits::{f32_bits_in_unit_interval, is_unit_interval_bits};
use crate::granular::{
    PooledGrainDescriptor, GrainDescriptor, GrainColorDescriptor, GrainPool, GrainSelection, div_ceil, div_ceil_spec,
    descriptors_on_grid, color_descriptors_on_grid, luma_descriptors_match_grid,
    color_descriptors_match_grid, GRANULAR_MOSAIC_ALGORITHM, MULTIMODAL_GRAIN_ALGORITHM,
    POOLED_GRAIN_ALGORITHM, POOLED_AV_AUDIO_ALGORITHM,
};
use crate::text::{str_eq, expected_got, push_decimal};

verus! {

pub const GRAIN_CACHE_VERSION: u32 = 1;
pub const GRAIN_DESCRIPTOR_CACHE_FILE_NAME: &'static str = "grain_descriptors.json";
pub const GRAIN_COLOR_DESCRIPTOR_CACHE_FILE_NAME: &'static str = "grain_color_descriptors.json";
pub const GRAIN_SELECTION_CACHE_FILE_NAME: &'static str = "grain_selection.json";
pub const GRAIN_POOL_DESCRIPTOR_CACHE_FILE_NAME: &'static str = "grain_pool_descriptors.json";

/// Luma descriptors of one carrier frame.
#[derive(Debug, PartialEq, Eq)]
pub struct GranularMosaicDescriptorCache {
    pub version: u32,
    pub kind: String,
    pub algorithm: String,
    pub carrier_width: u32,
    pub carrier_height: u32,
    pub grain_size: u32,
    pub carrier_fingerprint: String,
    pub descriptors: Vec<GrainDescriptor>,
}

/// Colour descriptors of one carrier frame, tagged with the multimodal algorithm.
#[derive(Debug, PartialEq, Eq)]
pub struct GranularMosaicColorDescriptorCache {
    pub version: u32,
    pub kind: String,
    pub algorithm: String,
    pub carrier_width: u32,
    pub carrier_height: u32,
    pub grain_size: u32,
    pub carrier_fingerprint: String,
    pub descriptors: Vec<GrainColorDescriptor>,
}

/// A whole-clip grain pool with the fingerprint of the carrier frames it was
/// assembled from.
#[derive(Debug, PartialEq, Eq)]
pub struct GranularMosaicPoolDescriptorCache {
    pub version: u32,
    pub kind: String,
    pub algorithm: String,
    pub grain_size: u32,
    pub frame_width: u32,
    pub frame_height: u32,
    pub frame_count: u32,
    pub audio_dims: usize,
    pub carrier_set_fingerprint: String,
    pub pool: GrainPool,
}

/// A selection map with the inputs it was computed from; `variation` is the
/// bit pattern of an `f32`.
#[derive(Debug, PartialEq, Eq)]
pub struct GranularMosaicSelectionCache {
    pub version: u32,
    pub kind: String,
    pub algorithm: String,
    pub modulator_fingerprint: String,
    pub carrier_fingerprint: String,
    pub carrier_width: u32,
    pub carrier_height: u32,
    pub grain_size: u32,
    pub variation: u32,
    pub seed: u64,
    pub selection: GrainSelection,
}

/// The four cache kinds.
pub open spec fn known_cache_kind(kind: Seq<char>) -> bool {
    ||| kind == "granular_mosaic_grain_descriptors"@
    ||| kind == "granular_mosaic_color_descriptors"@
    ||| kind == "granular_mosaic_pool_descriptors"@
    ||| kind == "granular_mosaic_selection"@
}

/// The three grain algorithms a cache may be tagged with.
pub open spec fn known_cache_algorithm(algorithm: Seq<char>) -> bool {
    ||| algorithm == GRANULAR_MOSAIC_ALGORITHM@
    ||| algorithm == MULTIMODAL_GRAIN_ALGORITHM@
    ||| algorithm == POOLED_GRAIN_ALGORITHM@
}

/// The checks every cache shares.
pub open spec fn cache_common_valid(
    version: u32,
    kind: Seq<char>,
    algorithm: Seq<char>,
    width: u32,
    height: u32,
    grain_size: u32,
) -> bool {
    &&& version == GRAIN_CACHE_VERSION
    &&& known_cache_kind(kind)
    &&& known_cache_algorithm(algorithm)
    &&& width > 0
    &&& height > 0
    &&& grain_size > 0
}

/// The number of grid cells of `grain_size` tiles covering a frame.
pub open spec fn grain_count_spec(width: u32, height: u32, grain_size: u32) -> int {
    div_ceil_spec(width as int, grain_size as int) * div_ceil_spec(height as int, grain_size as int)
}

pub open spec fn descriptor_cache_valid(c: GranularMosaicDescriptorCache) -> bool {
    &&& cache_common_valid(
        c.version,
        c.kind@,
        c.algorithm@,
        c.carrier_width,
        c.carrier_height,
        c.grain_size,
    )
    &&& c.kind@ == "granular_mosaic_grain_descriptors"@
    &&& c.carrier_fingerprint@.len() > 0
    &&& grain_count_spec(c.carrier_width, c.carrier_height, c.grain_size) <= usize::MAX
    &&& descriptors_on_grid(c.descriptors@, c.carrier_width, c.carrier_height, c.grain_size)
}

pub open spec fn color_descriptor_cache_valid(c: GranularMosaicColorDescriptorCache) -> bool {
    &&& cache_common_valid(
        c.version,
        c.kind@,
        c.algorithm@,
        c.carrier_width,
        c.carrier_height,
        c.grain_size,
    )
    &&& c.kind@ == "granular_mosaic_color_descriptors"@
    &&& c.algorithm@ == MULTIMODAL_GRAIN_ALGORITHM@
    &&& c.carrier_fingerprint@.len() > 0
    &&& grain_count_spec(c.carrier_width, c.carrier_height, c.grain_size) <= usize::MAX
    &&& color_descriptors_on_grid(
        c.descriptors@,
        c.carrier_width,
        c.carrier_height,
        c.grain_size,
    )
}

pub open spec fn pool_descriptor_cache_valid(c: GranularMosaicPoolDescriptorCache) -> bool {
    let per_frame = grain_count_spec(c.frame_width, c.frame_height, c.grain_size);
    &&& cache_common_valid(
        c.version,
        c.kind@,
        c.algorithm@,
        c.frame_width,
        c.frame_height,
        c.grain_size,
    )
    &&& c.kind@ == "granular_mosaic_pool_descriptors"@
    &&& c.algorithm@ == POOLED_GRAIN_ALGORITHM@
    &&& c.carrier_set_fingerprint@.len() > 0
    &&& c.frame_count > 0
    &&& c.pool.grain_size == c.grain_size
    &&& c.pool.frame_width == c.frame_width
    &&& c.pool.frame_height == c.frame_height
    &&& c.pool.audio_dims == c.audio_dims
    &&& per_frame <= usize::MAX
    &&& per_frame * c.frame_count <= usize::MAX
    &&& c.pool.grains@.len() == per_frame * c.frame_count
}

pub open spec fn selection_cache_valid(c: GranularMosaicSelectionCache) -> bool {
    let columns = div_ceil_spec(c.carrier_width as int, c.grain_size as int);
    let rows = div_ceil_spec(c.carrier_height as int, c.grain_size as int);
    let expected = grain_count_spec(c.carrier_width, c.carrier_height, c.grain_size);
    &&& cache_common_valid(
        c.version,
        c.kind@,
        c.algorithm@,
        c.carrier_width,
        c.carrier_height,
        c.grain_size,
    )
    &&& c.kind@ == "granular_mosaic_selection"@
    &&& c.modulator_fingerprint@.len() > 0
    &&& c.carrier_fingerprint@.len() > 0
    &&& f32_bits_in_unit_interval(c.variation)
    &&& expected <= usize::MAX
    &&& c.selection.columns == columns
    &&& c.selection.rows == rows
    &&& c.selection.indices@.len() == expected
    &&& forall|i: int|
        0 <= i < c.selection.indices@.len() ==> #[trigger] c.selection.indices@[i] < expected
}

fn cache_error(detail: &str) -> (e: RenderError)
    ensures
        e is InvalidGranularMosaicCache,
{
    RenderError::InvalidGranularMosaicCache(String::from_str(detail))
}

/// The checks every cache shares: version, kind, algorithm tag and a
/// non-empty grid.
pub fn validate_common(
    version: u32,
    kind: &str,
    algorithm: &str,
    carrier_width: u32,
    carrier_height: u32,
    grain_size: u32,
) -> (r: Result<(), RenderError>)
    ensures
        r is Ok <==> cache_common_valid(
            version,
            kind@,
            algorithm@,
            carrier_width,
            carrier_height,
            grain_size,
        ),
        r matches Err(e) ==> e is InvalidGranularMosaicCache,
{
    if version != GRAIN_CACHE_VERSION {
        let mut detail = String::from_str("unsupported cache version ");
        push_decimal(&mut detail, version as u64);
        return Err(RenderError::InvalidGranularMosaicCache(detail));
    }
    if !(str_eq(kind, "granular_mosaic_grain_descriptors") || str_eq(
        kind,
        "granular_mosaic_color_descriptors",
    ) || str_eq(kind, "granular_mosaic_pool_descriptors") || str_eq(
        kind,
        "granular_mosaic_selection",
    )) {
        let mut detail = String::from_str("unsupported cache kind ");
        detail.append(kind);
        return Err(RenderError::InvalidGranularMosaicCache(detail));
    }
    if !str_eq(algorithm, GRANULAR_MOSAIC_ALGORITHM) && !str_eq(
        algorithm,
        MULTIMODAL_GRAIN_ALGORITHM,
    ) && !str_eq(algorithm, POOLED_GRAIN_ALGORITHM) {
        let mut detail = String::from_str("unsupported cache algorithm ");
        detail.append(algorithm);
        return Err(RenderError::InvalidGranularMosaicCache(detail));
    }
    if carrier_width == 0 || carrier_height == 0 || grain_size == 0 {
        return Err(
            cache_error("carrier dimensions and grain size must be greater than zero"),
        );
    }
    Ok(())
}

/// The number of grain tiles covering a `width` × `height` frame, refused when
/// it does not fit in `usize`.
pub fn grain_count(width: u32, height: u32, grain_size: u32) -> (r: Result<usize, RenderError>)
    requires
        grain_size > 0,
    ensures
        r is Ok <==> grain_count_spec(width, height, grain_size) <= usize::MAX,
        r matches Ok(n) ==> n == grain_count_spec(width, height, grain_size),
        r matches Err(e) ==> e is InvalidGranularMosaicCache,
{
    match (div_ceil(width, grain_size) as usize).checked_mul(div_ceil(height, grain_size) as usize) {
        Some(n) => Ok(n),
        None => Err(cache_error("grain grid is too large")),
    }
}

/// Checks a luma descriptor cache before reuse.
pub fn validate_descriptor_cache(cache: &GranularMosaicDescriptorCache) -> (r: Result<
    (),
    RenderError,
>)
    ensures
        r is Ok <==> descriptor_cache_valid(*cache),
        r matches Err(e) ==> e is InvalidGranularMosaicCache,
{
    validate_common(
        cache.version,
        cache.kind.as_str(),
        cache.algorithm.as_str(),
        cache.carrier_width,
        cache.carrier_height,
        cache.grain_size,
    )?;
    if !str_eq(cache.kind.as_str(), "granular_mosaic_grain_descriptors") {
        return Err(cache_error("descriptor cache has the wrong kind"));
    }
    if cache.carrier_fingerprint.as_str().is_empty() {
        return Err(cache_error("carrier fingerprint must not be empty"));
    }
    let expected = grain_count(cache.carrier_width, cache.carrier_height, cache.grain_size)?;
    if cache.descriptors.len() != expected {
        return Err(
            RenderError::InvalidGranularMosaicCache(
                expected_got(expected as u64, "descriptors", cache.descriptors.len() as u64),
            ),
        );
    }
    if !luma_descriptors_match_grid(
        cache.descriptors.as_slice(),
        cache.carrier_width,
        cache.carrier_height,
        cache.grain_size,
    ) {
        return Err(cache_error("descriptor data does not match the carrier grain grid"));
    }
    Ok(())
}

/// Checks a colour descriptor cache before reuse; only the multimodal
/// algorithm tag is accepted.
pub fn validate_color_descriptor_cache(cache: &GranularMosaicColorDescriptorCache) -> (r: Result<
    (),
    RenderError,
>)
    ensures
        r is Ok <==> color_descriptor_cache_valid(*cache),
        r matches Err(e) ==> e is InvalidGranularMosaicCache,
{
    validate_common(
        cache.version,
        cache.kind.as_str(),
        cache.algorithm.as_str(),
        cache.carrier_width,
        cache.carrier_height,
        cache.grain_size,
    )?;
    if !str_eq(cache.kind.as_str(), "granular_mosaic_color_descriptors") {
        return Err(cache_error("color descriptor cache has the wrong kind"));
    }
    if !str_eq(cache.algorithm.as_str(), MULTIMODAL_GRAIN_ALGORITHM) {
        return Err(cache_error("color descriptor cache has the wrong algorithm"));
    }
    if cache.carrier_fingerprint.as_str().is_empty() {
        return Err(cache_error("carrier fingerprint must not be empty"));
    }
    let expected = grain_count(cache.carrier_width, cache.carrier_height, cache.grain_size)?;
    if cache.descriptors.len() != expected {
        return Err(
            RenderError::InvalidGranularMosaicCache(
                expected_got(expected as u64, "descriptors", cache.descriptors.len() as u64),
            ),
        );
    }
    if !color_descriptors_match_grid(
        cache.descriptors.as_slice(),
        cache.carrier_width,
        cache.carrier_height,
        cache.grain_size,
    ) {
        return Err(cache_error("descriptor data does not match the carrier grain grid"));
    }
    Ok(())
}

/// Checks a pool cache before reuse: tags, header against pool, and the grain
/// count of `frame_count` whole frame grids.
pub fn validate_pool_descriptor_cache(cache: &GranularMosaicPoolDescriptorCache) -> (r: Result<
    (),
    RenderError,
>)
    ensures
        r is Ok <==> pool_descriptor_cache_valid(*cache),
        r matches Err(e) ==> e is InvalidGranularMosaicCache,
{
    validate_common(
        cache.version,
        cache.kind.as_str(),
        cache.algorithm.as_str(),
        cache.frame_width,
        cache.frame_height,
        cache.grain_size,
    )?;
    if !str_eq(cache.kind.as_str(), "granular_mosaic_pool_descriptors") {
        return Err(cache_error("pool descriptor cache has the wrong kind"));
    }
    if !str_eq(cache.algorithm.as_str(), POOLED_GRAIN_ALGORITHM) {
        return Err(cache_error("pool descriptor cache has the wrong algorithm"));
    }
    if cache.carrier_set_fingerprint.as_str().is_empty() {
        return Err(cache_error("carrier set fingerprint must not be empty"));
    }
    if cache.frame_count == 0 {
        return Err(cache_error("pool must carry at least one frame"));
    }
    if cache.pool.grain_size != cache.grain_size || cache.pool.frame_width != cache.frame_width
        || cache.pool.frame_height != cache.frame_height || cache.pool.audio_dims
        != cache.audio_dims {
        return Err(cache_error("pool descriptor cache header does not match its pool"));
    }
    let per_frame = grain_count(cache.frame_width, cache.frame_height, cache.grain_size)?;
    let expected = match per_frame.checked_mul(cache.frame_count as usize) {
        Some(n) => n,
        None => {
            return Err(cache_error("grain pool is too large"));
        },
    };
    if cache.pool.grains.len() != expected {
        return Err(
            RenderError::InvalidGranularMosaicCache(
                expected_got(expected as u64, "pool grains", cache.pool.grains.len() as u64),
            ),
        );
    }
    Ok(())
}

/// Checks a selection cache before reuse: tags, fingerprints, a variation in
/// `[0, 1]`, and a selection covering the grid with indices of known grains.
#[verifier::loop_isolation(false)]
pub fn validate_selection_cache(cache: &GranularMosaicSelectionCache) -> (r: Result<
    (),
    RenderError,
>)
    ensures
        r is Ok <==> selection_cache_valid(*cache),
        r matches Err(e) ==> e is InvalidGranularMosaicCache,
{
    validate_common(
        cache.version,
        cache.kind.as_str(),
        cache.algorithm.as_str(),
        cache.carrier_width,
        cache.carrier_height,
        cache.grain_size,
    )?;
    if !str_eq(cache.kind.as_str(), "granular_mosaic_selection") {
        return Err(cache_error("selection cache has the wrong kind"));
    }
    if cache.modulator_fingerprint.as_str().is_empty()
        || cache.carrier_fingerprint.as_str().is_empty() {
        return Err(cache_error("source fingerprints must not be empty"));
    }
    if !is_unit_interval_bits(cache.variation) {
        return Err(cache_error("variation must be a finite value between zero and one"));
    }
    let columns = div_ceil(cache.carrier_width, cache.grain_size);
    let rows = div_ceil(cache.carrier_height, cache.grain_size);
    let expected = grain_count(cache.carrier_width, cache.carrier_height, cache.grain_size)?;
    if cache.selection.columns != columns || cache.selection.rows != rows
        || cache.selection.indices.len() != expected {
        return Err(cache_error("selection data does not match the carrier grain grid"));
    }
    let mut i: usize = 0;
    while i < cache.selection.indices.len()
        invariant
            i <= cache.selection.indices@.len(),
            forall|k: int| 0 <= k < i ==> #[trigger] cache.selection.indices@[k] < expected,
        decreases cache.selection.indices.len() - i,
    {
        if cache.selection.indices[i] as usize >= expected {
            return Err(cache_error("selection data does not match the carrier grain grid"));
        }
        i = i + 1;
    }
    Ok(())
}


/// A copy of `v`.
pub fn copy_u32s(v: &Vec<u32>) -> (r: Vec<u32>)
    ensures
        r@ == v@,
{
    let mut r: Vec<u32> = Vec::new();
    let mut i: usize = 0;
    while i < v.len()
        invariant
            i <= v@.len(),
            r@ == v@.take(i as int),
        decreases v.len() - i,
    {
        r.push(v[i]);
        assert(v@.take(i as int).push(v@[i as int]) =~= v@.take(i + 1));
        i = i + 1;
    }
    assert(v@.take(v.len() as int) =~= v@);
    r
}

/// A copy of a grain selection.
pub fn copy_selection(s: &GrainSelection) -> (r: GrainSelection)
    ensures
        r.columns == s.columns,
        r.rows == s.rows,
        r.indices@ == s.indices@,
{
    GrainSelection { columns: s.columns, rows: s.rows, indices: copy_u32s(&s.indices) }
}

/// A copy of a grain pool.
pub fn copy_pool(pool: &GrainPool) -> (r: GrainPool)
    ensures
        r.columns == pool.columns,
        r.rows == pool.rows,
        r.grain_size == pool.grain_size,
        r.frame_width == pool.frame_width,
        r.frame_height == pool.frame_height,
        r.audio_dims == pool.audio_dims,
        r.grains@.len() == pool.grains@.len(),
        forall|i: int|
            0 <= i < pool.grains@.len() ==> {
                let a = #[trigger] r.grains@[i];
                let b = pool.grains@[i];
                &&& a.global_index == b.global_index
                &&& a.frame_index == b.frame_index
                &&& a.origin_x == b.origin_x
                &&& a.origin_y == b.origin_y
                &&& a.mean_color == b.mean_color
                &&& a.texture == b.texture
                &&& a.audio@ == b.audio@
            },
{
    let mut grains: Vec<PooledGrainDescriptor> = Vec::new();
    let mut i: usize = 0;
    while i < pool.grains.len()
        invariant
            i <= pool.grains@.len(),
            grains@.len() == i,
            forall|k: int|
                0 <= k < i ==> {
                    let a = #[trigger] grains@[k];
                    let b = pool.grains@[k];
                    &&& a.global_index == b.global_index
                    &&& a.frame_index == b.frame_index
                    &&& a.origin_x == b.origin_x
                    &&& a.origin_y == b.origin_y
                    &&& a.mean_color == b.mean_color
                    &&& a.texture == b.texture
                    &&& a.audio@ == b.audio@
                },
        decreases pool.grains.len() - i,
    {
        let g = &pool.grains[i];
        grains.push(
            PooledGrainDescriptor {
                global_index: g.global_index,
                frame_index: g.frame_index,
                origin_x: g.origin_x,
                origin_y: g.origin_y,
                mean_color: g.mean_color,
                texture: g.texture,
                audio: copy_u32s(&g.audio),
            },
        );
        i = i + 1;
    }
    GrainPool {
        columns: pool.columns,
        rows: pool.rows,
        grain_size: pool.grain_size,
        frame_width: pool.frame_width,
        frame_height: pool.frame_height,
        audio_dims: pool.audio_dims,
        grains,
    }
}

/// The luma descriptor cache recorded for one carrier, refused when it would
/// not pass the reader's checks.
pub fn grain_descriptor_cache(
    carrier_width: u32,
    carrier_height: u32,
    grain_size: u32,
    carrier_fingerprint: String,
    descriptors: &[GrainDescriptor],
) -> (r: Result<GranularMosaicDescriptorCache, RenderError>)
    ensures
        r matches Ok(c) ==> {
            &&& c.version == GRAIN_CACHE_VERSION
            &&& c.kind@ == "granular_mosaic_grain_descriptors"@
            &&& c.algorithm@ == GRANULAR_MOSAIC_ALGORITHM@
            &&& c.carrier_width == carrier_width
            &&& c.carrier_height == carrier_height
            &&& c.grain_size == grain_size
            &&& c.carrier_fingerprint == carrier_fingerprint
            &&& c.descriptors@ == descriptors@
            &&& descriptor_cache_valid(c)
        },
        r is Ok <==> (grain_size > 0 && carrier_width > 0 && carrier_height > 0
            && carrier_fingerprint@.len() > 0 && grain_count_spec(
            carrier_width,
            carrier_height,
            grain_size,
        ) <= usize::MAX && descriptors_on_grid(
            descriptors@,
            carrier_width,
            carrier_height,
            grain_size,
        )),
        r matches Err(e) ==> e is InvalidGranularMosaicCache,
{
    let mut copied: Vec<GrainDescriptor> = Vec::new();
    let mut i: usize = 0;
    while i < descriptors.len()
        invariant
            i <= descriptors@.len(),
            copied@ == descriptors@.take(i as int),
        decreases descriptors.len() - i,
    {
        copied.push(descriptors[i]);
        assert(descriptors@.take(i as int).push(descriptors@[i as int]) =~= descriptors@.take(
            i + 1,
        ));
        i = i + 1;
    }
    assert(descriptors@.take(descriptors.len() as int) =~= descriptors@);
    let cache = GranularMosaicDescriptorCache {
        version: GRAIN_CACHE_VERSION,
        kind: String::from_str("granular_mosaic_grain_descriptors"),
        algorithm: String::from_str(GRANULAR_MOSAIC_ALGORITHM),
        carrier_width,
        carrier_height,
        grain_size,
        carrier_fingerprint,
        descriptors: copied,
    };
    proof {
        reveal_strlit("granular_mosaic_grain_descriptors");
        reveal_strlit("granular_mosaic_color_descriptors");
        reveal_strlit("granular_mosaic_pool_descriptors");
        reveal_strlit("granular_mosaic_selection");
    }
    validate_descriptor_cache(&cache)?;
    Ok(cache)
}

/// The colour descriptor cache recorded for one carrier, tagged with the
/// multimodal algorithm; refused when it would not pass the reader's checks.
pub fn grain_color_descriptor_cache(
    carrier_width: u32,
    carrier_height: u32,
    grain_size: u32,
    carrier_fingerprint: String,
    descriptors: &[GrainColorDescriptor],
) -> (r: Result<GranularMosaicColorDescriptorCache, RenderError>)
    ensures
        r matches Ok(c) ==> {
            &&& c.version == GRAIN_CACHE_VERSION
            &&& c.kind@ == "granular_mosaic_color_descriptors"@
            &&& c.algorithm@ == MULTIMODAL_GRAIN_ALGORITHM@
            &&& c.carrier_width == carrier_width
            &&& c.carrier_height == carrier_height
            &&& c.grain_size == grain_size
            &&& c.carrier_fingerprint == carrier_fingerprint
            &&& c.descriptors@ == descriptors@
            &&& color_descriptor_cache_valid(c)
        },
        r is Ok <==> (grain_size > 0 && carrier_width > 0 && carrier_height > 0
            && carrier_fingerprint@.len() > 0 && grain_count_spec(
            carrier_width,
            carrier_height,
            grain_size,
        ) <= usize::MAX && color_descriptors_on_grid(
            descriptors@,
            carrier_width,
            carrier_height,
            grain_size,
        )),
        r matches Err(e) ==> e is InvalidGranularMosaicCache,
{
    let mut copied: Vec<GrainColorDescriptor> = Vec::new();
    let mut i: usize = 0;
    while i < descriptors.len()
        invariant
            i <= descriptors@.len(),
            copied@ == descriptors@.take(i as int),
        decreases descriptors.len() - i,
    {
        copied.push(descriptors[i]);
        assert(descriptors@.take(i as int).push(descriptors@[i as int]) =~= descriptors@.take(
            i + 1,
        ));
        i = i + 1;
    }
    assert(descriptors@.take(descriptors.len() as int) =~= descriptors@);
    let cache = GranularMosaicColorDescriptorCache {
        version: GRAIN_CACHE_VERSION,
        kind: String::from_str("granular_mosaic_color_descriptors"),
        algorithm: String::from_str(MULTIMODAL_GRAIN_ALGORITHM),
        carrier_width,
        carrier_height,
        grain_size,
        carrier_fingerprint,
        descriptors: copied,
    };
    proof {
        reveal_strlit("granular_mosaic_color_descriptors");
    }
    validate_color_descriptor_cache(&cache)?;
    Ok(cache)
}

/// The pool cache recorded for a clip of `frame_count` carrier frames,
/// refused when it would not pass the reader's checks.
pub fn grain_pool_descriptor_cache(
    frame_count: u32,
    carrier_set_fingerprint: String,
    pool: &GrainPool,
) -> (r: Result<GranularMosaicPoolDescriptorCache, RenderError>)
    ensures
        r matches Ok(c) ==> {
            &&& c.version == GRAIN_CACHE_VERSION
            &&& c.kind@ == "granular_mosaic_pool_descriptors"@
            &&& c.algorithm@ == POOLED_GRAIN_ALGORITHM@
            &&& c.grain_size == pool.grain_size
            &&& c.frame_width == pool.frame_width
            &&& c.frame_height == pool.frame_height
            &&& c.frame_count == frame_count
            &&& c.audio_dims == pool.audio_dims
            &&& c.carrier_set_fingerprint == carrier_set_fingerprint
            &&& c.pool.grains@.len() == pool.grains@.len()
            &&& pool_descriptor_cache_valid(c)
        },
        r is Ok <==> ({
            let per_frame = grain_count_spec(pool.frame_width, pool.frame_height, pool.grain_size);
            &&& pool.grain_size > 0
            &&& pool.frame_width > 0
            &&& pool.frame_height > 0
            &&& carrier_set_fingerprint@.len() > 0
            &&& frame_count > 0
            &&& per_frame <= usize::MAX
            &&& per_frame * frame_count <= usize::MAX
            &&& pool.grains@.len() == per_frame * frame_count
        }),
        r matches Err(e) ==> e is InvalidGranularMosaicCache,
{
    let cache = GranularMosaicPoolDescriptorCache {
        version: GRAIN_CACHE_VERSION,
        kind: String::from_str("granular_mosaic_pool_descriptors"),
        algorithm: String::from_str(POOLED_GRAIN_ALGORITHM),
        grain_size: pool.grain_size,
        frame_width: pool.frame_width,
        frame_height: pool.frame_height,
        frame_count,
        audio_dims: pool.audio_dims,
        carrier_set_fingerprint,
        pool: copy_pool(pool),
    };
    proof {
        reveal_strlit("granular_mosaic_pool_descriptors");
    }
    validate_pool_descriptor_cache(&cache)?;
    Ok(cache)
}

/// The selection cache recorded for one selection map, refused when it would
/// not pass the reader's checks. `variation` is the bit pattern of an `f32`.
pub fn grain_selection_cache(
    algorithm: &str,
    modulator_fingerprint: String,
    carrier_fingerprint: String,
    carrier_width: u32,
    carrier_height: u32,
    grain_size: u32,
    variation: u32,
    seed: u64,
    selection: &GrainSelection,
) -> (r: Result<GranularMosaicSelectionCache, RenderError>)
    ensures
        r matches Ok(c) ==> {
            &&& c.version == GRAIN_CACHE_VERSION
            &&& c.kind@ == "granular_mosaic_selection"@
            &&& c.algorithm@ == algorithm@
            &&& c.modulator_fingerprint == modulator_fingerprint
            &&& c.carrier_fingerprint == carrier_fingerprint
            &&& c.carrier_width == carrier_width
            &&& c.carrier_height == carrier_height
            &&& c.grain_size == grain_size
            &&& c.variation == variation
            &&& c.seed == seed
            &&& c.selection.columns == selection.columns
            &&& c.selection.rows == selection.rows
            &&& c.selection.indices@ == selection.indices@
            &&& selection_cache_valid(c)
        },
        r is Ok <==> ({
            let columns = div_ceil_spec(carrier_width as int, grain_size as int);
            let rows = div_ceil_spec(carrier_height as int, grain_size as int);
            let expected = grain_count_spec(carrier_width, carrier_height, grain_size);
            &&& known_cache_algorithm(algorithm@)
            &&& grain_size > 0
            &&& carrier_width > 0
            &&& carrier_height > 0
            &&& modulator_fingerprint@.len() > 0
            &&& carrier_fingerprint@.len() > 0
            &&& f32_bits_in_unit_interval(variation)
            &&& expected <= usize::MAX
            &&& selection.columns == columns
            &&& selection.rows == rows
            &&& selection.indices@.len() == expected
            &&& forall|i: int|
                0 <= i < selection.indices@.len() ==> #[trigger] selection.indices@[i] < expected
        }),
        r matches Err(e) ==> e is InvalidGranularMosaicCache,
{
    let cache = GranularMosaicSelectionCache {
        version: GRAIN_CACHE_VERSION,
        kind: String::from_str("granular_mosaic_selection"),
        algorithm: String::from_str(algorithm),
        modulator_fingerprint,
        carrier_fingerprint,
        carrier_width,
        carrier_height,
        grain_size,
        variation,
        seed,
        selection: copy_selection(selection),
    };
    proof {
        reveal_strlit("granular_mosaic_selection");
        assert(cache.selection.indices@ == selection.indices@);
    }
    validate_selection_cache(&cache)?;
    Ok(cache)
}

} // verus!

verus! {

/// The grain algorithm identifiers are pairwise distinct, so a cache tagged
/// for one path never satisfies a request of another: a colour or pool
/// sidecar that checks out carries its own path's identifier, never the luma
/// one, and the pooled video and audio artifacts are told apart.
pub proof fn law_grain_algorithm_ids_are_distinct(
    color: GranularMosaicColorDescriptorCache,
    pool: GranularMosaicPoolDescriptorCache,
)
    ensures
        GRANULAR_MOSAIC_ALGORITHM@ != MULTIMODAL_GRAIN_ALGORITHM@,
        GRANULAR_MOSAIC_ALGORITHM@ != POOLED_GRAIN_ALGORITHM@,
        MULTIMODAL_GRAIN_ALGORITHM@ != POOLED_GRAIN_ALGORITHM@,
        POOLED_GRAIN_ALGORITHM@ != POOLED_AV_AUDIO_ALGORITHM@,
        color_descriptor_cache_valid(color) ==> color.algorithm@ != GRANULAR_MOSAIC_ALGORITHM@,
        pool_descriptor_cache_valid(pool) ==> pool.algorithm@ != GRANULAR_MOSAIC_ALGORITHM@
            && pool.algorithm@ != MULTIMODAL_GRAIN_ALGORITHM@,
{
    reveal_strlit("luma_nearest_grain_cpu_v1");
    reveal_strlit("multimodal_nearest_grain_cpu_v1");
    reveal_strlit("pooled_av_nearest_grain_cpu_v2");
    reveal_strlit("pooled_av_ola_resynthesis_cpu_v1");
    assert(GRANULAR_MOSAIC_ALGORITHM@[0] != MULTIMODAL_GRAIN_ALGORITHM@[0]);
    assert(GRANULAR_MOSAIC_ALGORITHM@[0] != POOLED_GRAIN_ALGORITHM@[0]);
    assert(MULTIMODAL_GRAIN_ALGORITHM@[0] != POOLED_GRAIN_ALGORITHM@[0]);
    assert(POOLED_GRAIN_ALGORITHM@[10] != POOLED_AV_AUDIO_ALGORITHM@[10]);
}

} // verus!
