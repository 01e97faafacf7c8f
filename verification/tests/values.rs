use morphogen_render::channel_shift::ChannelShiftSettings;
use morphogen_render::coagulate::CoagulationSettings;
use morphogen_render::conv_blend::{check_convolution, kernel_cell_span};
use morphogen_render::cascade::{BlendMode, CascadeFieldType, ScribbleEdge, MAX_NOTCHES};
use morphogen_render::coagulate::CoagulationFlowSource;
use morphogen_render::cpu_reference::StructureMode;
use morphogen_render::error::RenderError;
use morphogen_render::float_bits::{is_finite_bits, is_negative_bits, is_nonpositive_bits, is_positive_bits, is_above_one_bits, is_unit_interval_bits, all_finite_bits};
use morphogen_render::fluid_advect::FluidAdvectSettings;
use morphogen_render::granular::{cooldown_remaining, frame_distance};
use morphogen_render::image::{check_sizes_match, pixel_count, FlowFieldBits, ImageBufferBits};
use morphogen_render::matte::{check_matte_blend, MatteSource};
use morphogen_render::modulation::{target_position, unknown_target, FLOW_FEEDBACK_MODULATION_TARGETS, FLUID_ADVECT_TWO_SOURCE_MODULATION_TARGETS};

#[test]
fn enum_defaults() {
    assert_eq!(ScribbleEdge::default(), ScribbleEdge::NoEdge);
    assert_eq!(BlendMode::default(), BlendMode::Normal);
    assert_eq!(CascadeFieldType::default(), CascadeFieldType::Vortex);
    assert_eq!(StructureMode::default(), StructureMode::SingleScale);
    assert_ne!(CoagulationFlowSource::AFlow, CoagulationFlowSource::Turbulence);
    assert_ne!(MatteSource::ALuma, MatteSource::AEdge);
    assert_eq!(MAX_NOTCHES, 4);
}

#[test]
fn float_bit_predicates_match_f32_comparisons() {
    let values = [
        0.0f32, -0.0, 1.0, -1.0, 0.5, 1.5, 2.0, f32::MIN_POSITIVE, -f32::MIN_POSITIVE,
        f32::from_bits(1), f32::from_bits(0x8000_0001), f32::MAX, f32::MIN, f32::INFINITY,
        f32::NEG_INFINITY, f32::NAN, -f32::NAN, 1.0000001, 0.99999994,
    ];
    for v in values {
        let b = v.to_bits();
        assert_eq!(is_finite_bits(b), v.is_finite(), "{v}");
        assert_eq!(is_positive_bits(b), v > 0.0, "{v}");
        assert_eq!(is_negative_bits(b), v < 0.0, "{v}");
        assert_eq!(is_nonpositive_bits(b), v <= 0.0, "{v}");
        assert_eq!(is_above_one_bits(b), v > 1.0, "{v}");
        assert_eq!(is_unit_interval_bits(b), (0.0..=1.0).contains(&v), "{v}");
    }
    assert!(all_finite_bits(&[1.0f32.to_bits(), 2.0f32.to_bits()]));
    assert!(!all_finite_bits(&[1.0f32.to_bits(), f32::NAN.to_bits()]));
    assert!(all_finite_bits(&[]));
}

#[test]
fn errors_print_their_heading_and_detail() {
    let cases = [
        (RenderError::InvalidImageBuffer("d".into()), "invalid image buffer: d"),
        (RenderError::InvalidFlowCache("d".into()), "invalid flow cache: d"),
        (RenderError::InvalidConvolutionSettings("d".into()), "invalid convolution blend settings: d"),
        (RenderError::IncompatibleInputs("d".into()), "render inputs are incompatible: d"),
        (RenderError::InvalidGeneratorSettings("d".into()), "invalid generator settings: d"),
        (RenderError::InvalidModulationRoute("".into()), "invalid modulation route: "),
    ];
    for (e, text) in cases {
        assert_eq!(e.to_string(), text);
    }
}

#[test]
fn grids_check_their_sizes() {
    assert_eq!(pixel_count(3, 4).unwrap(), 12);
    assert!(matches!(pixel_count(0, 4), Err(RenderError::InvalidImageBuffer(_))));
    let img = ImageBufferBits::new(2, 1, vec![[1, 2, 3, 4], [5, 6, 7, 8]]).unwrap();
    assert_eq!(img.pixel(1, 0), Some([5, 6, 7, 8]));
    assert_eq!(img.pixel(2, 0), None);
    assert_eq!(img.pixel(0, 1), None);
    assert!(ImageBufferBits::new(2, 2, vec![[0; 4]; 3]).is_err());
    match ImageBufferBits::new(2, 2, vec![[0; 4]; 3]) {
        Err(e) => assert_eq!(e.to_string(), "invalid image buffer: expected 4 pixels, got 3"),
        Ok(_) => panic!("expected a size error"),
    }
    let flow = FlowFieldBits::new(1, 2, vec![[1, 2], [3, 4]]).unwrap();
    assert_eq!(flow.vector(0, 1), Some([3, 4]));
    assert_eq!(flow.vector(1, 1), None);
    assert!(matches!(FlowFieldBits::new(0, 2, vec![]), Err(RenderError::InvalidFlowField(_))));
}

#[test]
fn modulation_registries_resolve_or_refuse_targets() {
    assert_eq!(target_position(&FLOW_FEEDBACK_MODULATION_TARGETS, "decay"), Some(3));
    assert_eq!(target_position(&FLOW_FEEDBACK_MODULATION_TARGETS, "structure_mode"), None);
    let e = unknown_target("fluid-advect-two-source", "warp", &FLUID_ADVECT_TWO_SOURCE_MODULATION_TARGETS);
    assert_eq!(
        e.to_string(),
        "invalid modulation route: unknown fluid-advect-two-source modulation target 'warp' (available: advect, reinject)"
    );
    assert_eq!(
        unknown_target("x", "y", &[]).to_string(),
        "invalid modulation route: unknown x modulation target 'y' (available: )"
    );
}

#[test]
fn scheduling_penalty_counts() {
    let last_used = [Some(10u32), None, Some(3)];
    // Used 2 frames ago with a cooldown of 5: 3 frames left.
    assert_eq!(cooldown_remaining(&last_used, 0, 12, 5), 3);
    assert_eq!(cooldown_remaining(&last_used, 0, 10, 5), 0);
    assert_eq!(cooldown_remaining(&last_used, 0, 15, 5), 0);
    assert_eq!(cooldown_remaining(&last_used, 1, 12, 5), 0);
    assert_eq!(cooldown_remaining(&last_used, 7, 12, 5), 0);
    assert_eq!(cooldown_remaining(&last_used, 2, 4, 0), 0);
    assert_eq!(frame_distance(3, 9, 4), 4);
    assert_eq!(frame_distance(9, 7, 4), 2);
    assert_eq!(frame_distance(5, 5, 4), 0);
}

#[test]
fn substeps_default_to_a_clamped_estimate() {
    let explicit = FluidAdvectSettings { substeps: 7, ..FluidAdvectSettings::default() };
    assert_eq!(explicit.effective_substeps(40), 7);
    let auto = FluidAdvectSettings::default();
    assert_eq!(auto.effective_substeps(0), 1);
    assert_eq!(auto.effective_substeps(8), 8);
    assert_eq!(auto.effective_substeps(40), 16);
}

/// The substep estimate a frame asks for: the advect distance over 1.5 pixels
/// per substep, rounded up.
fn substep_estimate(advect: f32) -> u32 {
    (advect / 1.5).ceil() as u32
}

#[test]
fn auto_substeps_track_the_advect_distance() {
    let mut settings = FluidAdvectSettings { substeps: 0, ..FluidAdvectSettings::default() };
    settings.advect = 0.0f32.to_bits();
    assert_eq!(settings.effective_substeps(substep_estimate(0.0)), 1);
    settings.advect = 4.0f32.to_bits();
    assert_eq!(settings.effective_substeps(substep_estimate(4.0)), 3);
    settings.advect = 12.0f32.to_bits();
    assert_eq!(settings.effective_substeps(substep_estimate(12.0)), 8);
    settings.advect = 100.0f32.to_bits();
    assert_eq!(settings.effective_substeps(substep_estimate(100.0)), 16, "auto count is capped");
    settings.substeps = 2;
    assert_eq!(settings.effective_substeps(substep_estimate(100.0)), 2, "explicit count wins");
}

#[test]
fn matte_blend_refuses_mismatched_sizes() {
    assert!(check_matte_blend(4, 4, 4, 4, 4, 4).is_ok());
    match check_matte_blend(4, 4, 4, 4, 2, 2) {
        Err(RenderError::IncompatibleInputs(d)) => {
            assert_eq!(d, "matte blend: matte field is 2x2, carrier is 4x4")
        }
        other => panic!("expected a size refusal, got {other:?}"),
    }
    match check_matte_blend(4, 3, 5, 3, 2, 2) {
        Err(RenderError::IncompatibleInputs(d)) => {
            assert_eq!(d, "matte blend: effected is 4x3, original is 5x3")
        }
        other => panic!("expected a size refusal, got {other:?}"),
    }
}

#[test]
fn kernel_cells_span_the_modulator() {
    // A 10-pixel axis over 3 cells: [0, 3), [3, 6), [6, 10).
    assert_eq!(kernel_cell_span(0, 10, 3), (0, 3));
    assert_eq!(kernel_cell_span(1, 10, 3), (3, 6));
    assert_eq!(kernel_cell_span(2, 10, 3), (6, 10));
    // A 1-pixel axis still feeds every cell.
    for cell in 0..5 {
        assert_eq!(kernel_cell_span(cell, 1, 5), (0, 1));
    }
    // A 2-pixel axis over 5 cells: every span has a pixel and stays inside.
    let spans: Vec<(u32, u32)> = (0..5).map(|c| kernel_cell_span(c, 2, 5)).collect();
    assert_eq!(spans, vec![(0, 1), (0, 1), (0, 1), (1, 2), (1, 2)]);
}

#[test]
fn convolution_checks_the_kernel_before_the_amount() {
    assert!(check_convolution(3, 9, 0.5f32.to_bits()).is_ok());
    match check_convolution(3, 8, 0.5f32.to_bits()) {
        Err(RenderError::InvalidConvolutionSettings(d)) => {
            assert_eq!(d, "kernel has 8 weights but size 3 requires 9")
        }
        other => panic!("expected a kernel refusal, got {other:?}"),
    }
    assert!(matches!(check_convolution(4, 16, 0), Err(RenderError::InvalidConvolutionSettings(_))));
    assert!(check_convolution(3, 9, (-1.0f32).to_bits()).is_err());
    assert!(check_convolution(3, 9, f32::NAN.to_bits()).is_err());
}

#[test]
fn frame_sizes_are_checked_with_both_sizes_named() {
    assert!(check_sizes_match("", "source A", 4, 3, "source B", 4, 3).is_ok());
    match check_sizes_match("", "source A", 4, 3, "source B", 5, 3) {
        Err(RenderError::IncompatibleInputs(d)) => assert_eq!(d, "source A is 4x3, source B is 5x3"),
        other => panic!("expected a size refusal, got {other:?}"),
    }
}

#[test]
fn passthrough_settings_are_the_all_zero_knobs() {
    let shift = ChannelShiftSettings::default();
    assert!(shift.is_passthrough());
    assert!(ChannelShiftSettings { shift_g_y: (-0.0f32).to_bits(), ..shift }.is_passthrough());
    assert!(!ChannelShiftSettings { shift_b_x: 0.5f32.to_bits(), ..shift }.is_passthrough());
    let coag = CoagulationSettings::default();
    assert!(coag.is_passthrough());
    assert!(CoagulationSettings { bias: (-0.0f32).to_bits(), ..coag }.is_passthrough());
    assert!(!CoagulationSettings { randomness: 0.1f32.to_bits(), ..coag }.is_passthrough());
    assert!(!CoagulationSettings { coagulation_strength: f32::NAN.to_bits(), ..coag }.is_passthrough());
}
