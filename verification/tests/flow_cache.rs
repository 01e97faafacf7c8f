use morphogen_render::flow_cache::{
    checked_vector_count, decode_flow_frame, encode_flow_frame, flow_cache_frame_path,
    flow_cache_manifest, read_u32_le, relative_cache_path, validate_manifest, FlowCacheFrame,
    FlowCacheManifest, FLOW_CACHE_VERSION, FLOW_VECTOR_CONVENTION, FRAME_FILE_NAME,
};
use morphogen_render::image::FlowFieldBits;

fn flow(width: u32, height: u32, vectors: Vec<[f32; 2]>) -> FlowFieldBits {
    FlowFieldBits::new(width, height, vectors.iter().map(|v| [v[0].to_bits(), v[1].to_bits()]).collect())
        .expect("flow")
}

/// Writes a single-frame cache in memory: the manifest and the frame bytes.
fn write_cache(f: &FlowFieldBits, algorithm: &str, fingerprint: Option<&str>) -> (FlowCacheManifest, Vec<u8>) {
    let manifest =
        flow_cache_manifest(f.width, f.height, algorithm.to_string(), fingerprint.map(str::to_string));
    (manifest, encode_flow_frame(f).expect("frame"))
}

/// Reads a cache back the way the reader does: check the manifest and the
/// frame path, then decode the frame for the manifest's size.
fn read_cache(manifest: &FlowCacheManifest, frame: &[u8]) -> Result<FlowFieldBits, morphogen_render::error::RenderError> {
    let path = flow_cache_frame_path(manifest)?;
    assert_eq!(path, manifest.frames[0].path);
    decode_flow_frame(frame, manifest.width, manifest.height)
}

#[test]
fn flow_cache_round_trips_manifest_and_frame_data() {
    let f = flow(2, 2, vec![[0.0, 1.0], [2.0, 3.0], [-1.0, 0.5], [4.0, -2.0]]);
    let (manifest, frame) = write_cache(&f, "test_algorithm_v1", None);
    let decoded = read_cache(&manifest, &frame).expect("read cache");
    assert_eq!(manifest.algorithm, "test_algorithm_v1");
    assert_eq!(manifest.vector_convention, FLOW_VECTOR_CONVENTION);
    assert_eq!(manifest.source_fingerprint, None);
    assert_eq!(manifest.version, FLOW_CACHE_VERSION);
    assert_eq!(manifest.frames[0].path, FRAME_FILE_NAME);
    assert_eq!(decoded, f);
}

#[test]
fn flow_cache_persists_source_fingerprint() {
    let f = flow(1, 1, vec![[0.0, 0.0]]);
    let (manifest, frame) = write_cache(&f, "lucas_kanade_cpu_v2", Some("fnv1a64:1234"));
    read_cache(&manifest, &frame).expect("read cache");
    assert_eq!(manifest.source_fingerprint.as_deref(), Some("fnv1a64:1234"));
}

#[test]
fn version_one_cache_without_new_metadata_remains_readable() {
    let f = flow(1, 1, vec![[0.25, -0.5]]);
    let frame = encode_flow_frame(&f).expect("write frame");
    let manifest = FlowCacheManifest {
        version: 1,
        kind: "flow_field_f32".to_string(),
        algorithm: "luminance_gradient_cpu_v1".to_string(),
        width: 1,
        height: 1,
        coordinate_space: "output_pixel_coordinates".to_string(),
        vector_units: "pixels_before_amount_scale".to_string(),
        vector_convention: String::new(),
        source_fingerprint: None,
        frames: vec![FlowCacheFrame { frame_index: 0, path: FRAME_FILE_NAME.to_string() }],
    };
    let decoded = read_cache(&manifest, &frame).expect("read cache");
    assert_eq!(manifest.version, 1);
    assert!(manifest.vector_convention.is_empty());
    assert_eq!(decoded, f);
}

#[test]
fn flow_cache_rejects_absolute_frame_paths() {
    let manifest = FlowCacheManifest {
        version: FLOW_CACHE_VERSION,
        kind: "flow_field_f32".to_string(),
        algorithm: "test".to_string(),
        width: 1,
        height: 1,
        coordinate_space: "output_pixel_coordinates".to_string(),
        vector_units: "pixels_before_amount_scale".to_string(),
        vector_convention: FLOW_VECTOR_CONVENTION.to_string(),
        source_fingerprint: None,
        frames: vec![FlowCacheFrame { frame_index: 0, path: "/tmp/frame.flowf32".to_string() }],
    };
    let error = flow_cache_frame_path(&manifest).expect_err("absolute path rejected");
    assert!(error.to_string().contains("must be relative"));
}

fn manifest() -> FlowCacheManifest {
    flow_cache_manifest(3, 2, "a".to_string(), None)
}

#[test]
fn manifest_validation_refuses_each_defect() {
    assert!(validate_manifest(&manifest()).is_ok());
    assert!(validate_manifest(&FlowCacheManifest { version: 0, ..manifest() }).is_err());
    assert!(validate_manifest(&FlowCacheManifest { version: 3, ..manifest() }).is_err());
    assert!(validate_manifest(&FlowCacheManifest { kind: "flow".to_string(), ..manifest() }).is_err());
    assert!(validate_manifest(&FlowCacheManifest { width: 0, ..manifest() }).is_err());
    assert!(validate_manifest(&FlowCacheManifest { height: 0, ..manifest() }).is_err());
    assert!(validate_manifest(&FlowCacheManifest { frames: vec![], ..manifest() }).is_err());
    let two = vec![
        FlowCacheFrame { frame_index: 0, path: "a".to_string() },
        FlowCacheFrame { frame_index: 1, path: "b".to_string() },
    ];
    assert!(validate_manifest(&FlowCacheManifest { frames: two, ..manifest() }).is_err());
    assert_eq!(relative_cache_path("sub/frame").unwrap(), "sub/frame");
    assert!(relative_cache_path("/abs").is_err());
}

#[test]
fn flow_frame_refuses_damage_and_size_mismatch() {
    let f = flow(2, 1, vec![[1.0, 2.0], [3.0, 4.0]]);
    let bytes = encode_flow_frame(&f).unwrap();
    assert_eq!(bytes.len(), 16 + 16);
    assert_eq!(&bytes[0..8], b"MGFLW001");
    assert!(decode_flow_frame(&bytes, 1, 2).is_err());
    assert!(decode_flow_frame(&bytes[..bytes.len() - 1], 2, 1).is_err());
    let mut bad = bytes.clone();
    bad[7] = b'2';
    assert!(decode_flow_frame(&bad, 2, 1).is_err());
    assert_eq!(decode_flow_frame(&bytes, 2, 1).unwrap(), f);
    assert_eq!(read_u32_le(&[2, 1, 0, 0]).unwrap(), 258);
    assert!(read_u32_le(&[]).is_err());
    assert_eq!(checked_vector_count(4, 5).unwrap(), 20);
    assert_eq!(checked_vector_count(4, 0).unwrap(), 0);
}
