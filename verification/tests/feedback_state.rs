use morphogen_render::feedback_state::{
    checked_pixel_bytes, checksum, decode_flow_feedback_state, encode_flow_feedback_state,
    feedback_state_path, format_checksum, read_u32, read_u64, FLOW_FEEDBACK_STATE_VERSION,
};
use morphogen_render::error::RenderError;
use morphogen_render::image::ImageBufferBits;

fn image(width: u32, height: u32, pixels: Vec<[f32; 4]>) -> ImageBufferBits {
    let bits = pixels.iter().map(|p| [p[0].to_bits(), p[1].to_bits(), p[2].to_bits(), p[3].to_bits()]).collect();
    ImageBufferBits::new(width, height, bits).expect("image")
}

#[test]
fn feedback_state_round_trips_exact_float_pixels() {
    let img = image(2, 1, vec![[0.125, 0.25, 0.5, 1.0], [-0.25, 1.5, 0.0, 0.75]]);
    let (bytes, written) = encode_flow_feedback_state(&img).expect("write state");
    let (read, restored) = decode_flow_feedback_state(&bytes).expect("read state");
    assert_eq!(read, written);
    assert_eq!(restored, img);
}

#[test]
fn feedback_state_rejects_corrupt_pixel_data() {
    let img = image(1, 1, vec![[0.0, 0.0, 0.0, 1.0]]);
    let (mut bytes, _) = encode_flow_feedback_state(&img).expect("write state");
    let last = bytes.len() - 1;
    bytes[last] ^= 1;
    assert!(decode_flow_feedback_state(&bytes).is_err());
}

#[test]
fn feedback_state_layout_is_magic_header_then_pixels() {
    let img = image(1, 1, vec![[1.0, 2.0, 3.0, 4.0]]);
    let (bytes, d) = encode_flow_feedback_state(&img).unwrap();
    assert_eq!(bytes.len(), 28 + 16);
    assert_eq!(&bytes[0..8], b"MGFDBK01");
    assert_eq!(u32::from_le_bytes(bytes[8..12].try_into().unwrap()), FLOW_FEEDBACK_STATE_VERSION);
    assert_eq!(u32::from_le_bytes(bytes[12..16].try_into().unwrap()), 1);
    assert_eq!(u32::from_le_bytes(bytes[16..20].try_into().unwrap()), 1);
    let sum = u64::from_le_bytes(bytes[20..28].try_into().unwrap());
    assert_eq!(sum, checksum(&bytes[28..]));
    assert_eq!(d.checksum, format!("fnv1a64:{sum:016x}"));
    assert_eq!(f32::from_le_bytes(bytes[40..44].try_into().unwrap()), 4.0);
}

#[test]
fn feedback_state_refuses_each_kind_of_damage() {
    let img = image(2, 1, vec![[0.5; 4], [0.25; 4]]);
    let (bytes, _) = encode_flow_feedback_state(&img).unwrap();
    // Shorter than the header.
    assert!(decode_flow_feedback_state(&bytes[..27]).is_err());
    // Wrong magic.
    let mut bad = bytes.clone();
    bad[0] = b'X';
    assert!(decode_flow_feedback_state(&bad).is_err());
    // Wrong version.
    let mut bad = bytes.clone();
    bad[8] = 2;
    assert!(decode_flow_feedback_state(&bad).is_err());
    // Declared size does not match the payload.
    let mut bad = bytes.clone();
    bad[12] = 3;
    assert!(decode_flow_feedback_state(&bad).is_err());
    // Truncated payload.
    assert!(decode_flow_feedback_state(&bytes[..bytes.len() - 1]).is_err());
    // Zero width.
    let mut bad = bytes.clone();
    bad[12] = 0;
    assert!(matches!(
        decode_flow_feedback_state(&bad),
        Err(RenderError::InvalidFlowFeedbackState(_))
    ));
}

#[test]
fn checksum_is_fnv1a_64() {
    assert_eq!(checksum(&[]), 0xcbf2_9ce4_8422_2325);
    assert_eq!(checksum(b"a"), 0xaf63_dc4c_8601_ec8c);
    assert_eq!(checksum(b"foobar"), 0x8594_4171_f739_67e8);
    assert_eq!(format_checksum(0xab), "fnv1a64:00000000000000ab");
}

#[test]
fn single_byte_changes_change_the_checksum() {
    let base: Vec<u8> = (0..64u8).collect();
    let sum = checksum(&base);
    for i in 0..base.len() {
        for flip in [1u8, 0x80, 0xff] {
            let mut changed = base.clone();
            changed[i] ^= flip;
            assert_ne!(checksum(&changed), sum);
        }
    }
}

#[test]
fn header_fields_read_little_endian() {
    assert_eq!(read_u32(&[1, 0, 0, 0]).unwrap(), 1);
    assert_eq!(read_u32(&[0x78, 0x56, 0x34, 0x12]).unwrap(), 0x1234_5678);
    assert!(read_u32(&[1, 2, 3]).is_err());
    assert_eq!(read_u64(&[1, 0, 0, 0, 0, 0, 0, 0x80]).unwrap(), 0x8000_0000_0000_0001);
    assert!(read_u64(&[0; 9]).is_err());
    assert_eq!(checked_pixel_bytes(2, 3).unwrap(), 96);
    assert_eq!(checked_pixel_bytes(0, 3).unwrap(), 0);
    assert!(checked_pixel_bytes(u32::MAX, u32::MAX).is_err() || usize::BITS > 64);
}

#[test]
fn feedback_state_path_zero_pads_the_frame_index() {
    assert_eq!(feedback_state_path("out", 7), "out/state/feedback_frame_000007.rgba32f");
    assert_eq!(feedback_state_path("out/", 1234567), "out/state/feedback_frame_1234567.rgba32f");
    assert_eq!(feedback_state_path("", 0), "state/feedback_frame_000000.rgba32f");
}
