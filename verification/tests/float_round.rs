use morphogen_render::float_round::{round_f32_bits_to_i64, u32_to_f32_bits};

#[test]
fn rounding_matches_round_then_cast() {
    let values = [
        0.0f32, -0.0, 0.4999, 0.5, 1.5, 2.5, -0.5, -1.5, -2.4, 1e-40, -1e-40, 3.7, -3.7, 8388607.5,
        16777216.0, 1e18, -1e18, 9.3e18, -9.3e18, 1e30, f32::MAX, f32::MIN, f32::INFINITY,
        f32::NEG_INFINITY, f32::NAN, 123456.78,
    ];
    for v in values {
        assert_eq!(round_f32_bits_to_i64(v.to_bits()), v.round() as i64, "{v}");
    }
    for bits in (0..u32::MAX).step_by(65_521) {
        let v = f32::from_bits(bits);
        assert_eq!(round_f32_bits_to_i64(bits), v.round() as i64, "{bits:#x}");
    }
}

#[test]
fn conversion_matches_the_cast_to_f32() {
    for n in [0u32, 1, 2, 3, 255, 16_777_215, 16_777_216, 16_777_217, 16_777_218, 16_777_219, 33_554_435, u32::MAX, 4_294_967_040, 4_294_967_167, 4_294_967_168] {
        assert_eq!(u32_to_f32_bits(n), (n as f32).to_bits(), "{n}");
    }
    for n in (0..u32::MAX).step_by(9_973) {
        assert_eq!(u32_to_f32_bits(n), (n as f32).to_bits(), "{n}");
    }
}
