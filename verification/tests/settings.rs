use morphogen_render::block_collage::BlockCollageSettings;
use morphogen_render::cascade::{
    BlendMode, CascadeCollageSettings, CascadeFieldType, CascadeShape, CascadeTrailSettings, Notch,
    ScribbleEdge,
};
use morphogen_render::coagulate::CoagulationSettings;
use morphogen_render::conv_blend::{validate_kernel_size, ConvolutionBlendSettings};
use morphogen_render::cpu_reference::{FlowFeedbackSettings, StructureMode};
use morphogen_render::datamosh::{
    validate_codec_engrave_settings, validate_scanline_smear_settings, CodecEngraveSettings,
    ScanlineSmearSettings,
};
use morphogen_render::disperse::DispersionSettings;
use morphogen_render::error::RenderError;
use morphogen_render::field_particles::FieldParticleSettings;
use morphogen_render::fluid_advect::{
    FluidAdvectSettings, FluidAdvectTwoSourceSettings, FLUID_ADVECT_MAX_SUBSTEPS,
};
use morphogen_render::fluid_mosaic::FluidMosaicSettings;
use morphogen_render::generators::GeneratorSettings;
use morphogen_render::granular::GranularMosaicSettings;

fn b(v: f32) -> u32 {
    v.to_bits()
}

#[test]
fn settings_validate_rejects_zero_tile_size() {
    let s = BlockCollageSettings { tile_size: 0, ..Default::default() };
    assert!(s.validate().is_err());
}

#[test]
fn block_collage_threshold_and_cluster_scale_bounds() {
    assert!(BlockCollageSettings::default().validate().is_ok());
    for threshold in [-0.1, 1.1, f32::NAN] {
        let s = BlockCollageSettings { threshold: b(threshold), ..Default::default() };
        assert!(matches!(s.validate(), Err(RenderError::InvalidBlockCollageSettings(_))));
    }
    for scale in [0.0, -0.0, -2.0, f32::NEG_INFINITY] {
        let s = BlockCollageSettings { cluster_scale: b(scale), ..Default::default() };
        assert!(s.validate().is_err());
    }
    // NaN is not `<= 0`, so it passes this check.
    let s = BlockCollageSettings { cluster_scale: b(f32::NAN), ..Default::default() };
    assert!(s.validate().is_ok());
}

#[test]
fn invalid_settings_are_rejected() {
    assert!(ConvolutionBlendSettings { kernel_size: 0, amount: b(1.0) }.validate().is_err());
    assert!(ConvolutionBlendSettings { kernel_size: 2, amount: b(1.0) }.validate().is_err());
    assert!(ConvolutionBlendSettings { kernel_size: 3, amount: b(f32::NAN) }.validate().is_err());
    assert!(ConvolutionBlendSettings { kernel_size: 3, amount: b(-0.5) }.validate().is_err());
    assert!(ConvolutionBlendSettings { kernel_size: 3, amount: b(0.0) }.validate().is_ok());
    assert!(validate_kernel_size(1).is_ok());
    assert!(validate_kernel_size(9).is_ok());
    assert!(matches!(validate_kernel_size(4), Err(RenderError::InvalidConvolutionSettings(_))));
}

#[test]
fn new_knobs_are_validated() {
    for settings in [
        FluidAdvectSettings { substeps: FLUID_ADVECT_MAX_SUBSTEPS + 1, ..FluidAdvectSettings::default() },
        FluidAdvectSettings { reinject_blotch: b(1.5), ..FluidAdvectSettings::default() },
        FluidAdvectSettings { diffuse: b(-0.1), ..FluidAdvectSettings::default() },
        FluidAdvectSettings { warp: b(-1.0), ..FluidAdvectSettings::default() },
    ] {
        assert!(settings.validate().is_err());
    }
    assert!(FluidAdvectSettings::default().validate().is_ok());
    let max = FluidAdvectSettings { substeps: FLUID_ADVECT_MAX_SUBSTEPS, ..FluidAdvectSettings::default() };
    assert!(max.validate().is_ok());
}

#[test]
fn two_source_advection_settings_are_validated() {
    assert!(FluidAdvectTwoSourceSettings::default().validate().is_ok());
    assert!(FluidAdvectTwoSourceSettings { advect: b(f32::INFINITY), reinject: b(0.1) }.validate().is_err());
    assert!(FluidAdvectTwoSourceSettings { advect: b(1.0), reinject: b(1.01) }.validate().is_err());
    assert!(FluidAdvectTwoSourceSettings { advect: b(-3.0), reinject: b(1.0) }.validate().is_ok());
}

#[test]
fn settings_reject_non_positive_grain_size_and_invalid_controls() {
    let mut settings =
        GranularMosaicSettings { grain_size: 0, rearrangement: b(1.0), variation: b(0.0), seed: 0 };
    assert!(settings.validate().is_err());
    settings.grain_size = 8;
    settings.variation = b(1.1);
    assert!(settings.validate().is_err());
    settings.variation = b(1.0);
    assert!(settings.validate().is_ok());
    settings.rearrangement = b(f32::NAN);
    assert!(matches!(settings.validate(), Err(RenderError::InvalidGranularMosaicSettings(_))));
}

#[test]
fn invalid_patch_size_and_mismatched_dims_error() {
    let bad = CoagulationSettings { patch_size: 0, ..CoagulationSettings::default() };
    assert!(matches!(bad.validate(), Err(RenderError::InvalidCoagulationSettings(_))));
    assert!(CoagulationSettings::default().validate().is_ok());
    let nan = CoagulationSettings { edge_dither: b(f32::NAN), ..CoagulationSettings::default() };
    assert!(nan.validate().is_err());
}

#[test]
fn dispersion_and_particle_settings_are_validated() {
    assert!(DispersionSettings::default().validate().is_ok());
    assert!(DispersionSettings { block_size: 0, ..Default::default() }.validate().is_err());
    assert!(DispersionSettings { damping: b(f32::INFINITY), ..Default::default() }.validate().is_err());
    assert!(FieldParticleSettings::default().validate().is_ok());
    assert!(FieldParticleSettings { spacing: 0, ..Default::default() }.validate().is_err());
    assert!(FieldParticleSettings { particle_size: 0, ..Default::default() }.validate().is_err());
    assert!(FieldParticleSettings { detail: b(-0.5), ..Default::default() }.validate().is_err());
    assert!(FieldParticleSettings { detail: b(-0.0), ..Default::default() }.validate().is_ok());
}

#[test]
fn flow_feedback_settings_are_validated() {
    let ok = FlowFeedbackSettings {
        carrier_amount: b(1.0),
        feedback_amount: b(1.0),
        feedback_mix: b(0.5),
        decay: b(0.9),
        iterations: 1,
        structure_mix: b(0.0),
        structure_mode: StructureMode::default(),
    };
    assert!(ok.validate().is_ok());
    assert!(FlowFeedbackSettings { iterations: 2, ..ok }.validate().is_err());
    assert!(FlowFeedbackSettings { feedback_mix: b(1.5), ..ok }.validate().is_err());
    assert!(FlowFeedbackSettings { decay: b(-0.1), ..ok }.validate().is_err());
    assert!(FlowFeedbackSettings { structure_mix: b(-1.0), ..ok }.validate().is_err());
    assert!(matches!(
        FlowFeedbackSettings { carrier_amount: b(f32::NAN), ..ok }.validate(),
        Err(RenderError::InvalidFlowFeedbackSettings(_))
    ));
}

#[test]
fn mosaic_and_trail_settings_are_validated() {
    let mosaic = FluidMosaicSettings::default();
    assert!(mosaic.validate().is_ok());
    assert!(FluidMosaicSettings { color_bins: 1, ..mosaic }.validate().is_err());
    let adaptive = FluidMosaicSettings { adaptive_tiles: true, min_tile_size: 9, ..mosaic };
    match adaptive.validate() {
        Err(e) => assert_eq!(
            e.to_string(),
            "invalid coagulation settings: min_tile_size (9) must be in 1..=tile_size (8)"
        ),
        Ok(()) => panic!("expected a min_tile_size error"),
    }
    // The minimum size only matters with adaptive tiles.
    assert!(FluidMosaicSettings { min_tile_size: 9, ..mosaic }.validate().is_ok());
    let threshold = FluidMosaicSettings { adaptive_tiles: true, subdivide_threshold: b(-1.0), ..mosaic };
    assert!(threshold.validate().is_err());

    let trails = CascadeTrailSettings::default();
    assert_eq!(trails.field, CascadeFieldType::Vortex);
    assert!(trails.validate().is_ok());
    assert!(CascadeTrailSettings { grid_spacing: 0, ..trails }.validate().is_err());
    assert!(CascadeTrailSettings { river_speed: b(f32::NAN), ..trails }.validate().is_err());
    assert!(CascadeTrailSettings { detail: b(-0.25), ..trails }.validate().is_err());
}

#[test]
fn defaults_carry_the_documented_values() {
    let g = GeneratorSettings::default();
    assert_eq!((g.width, g.height, g.seed), (640, 360, 71));
    assert_eq!(f32::from_bits(g.rate), 0.02);
    assert_eq!(f32::from_bits(g.scale), 4.0);
    assert!(g.validate().is_ok());
    let t = CascadeTrailSettings::default();
    assert_eq!(f32::from_bits(t.river_speed), 3.0);
    assert_eq!(f32::from_bits(t.river_turbulence), 0.8);
    let m = FluidMosaicSettings::default();
    assert_eq!(f32::from_bits(m.subdivide_threshold), 0.004);
    assert_eq!(f32::from_bits(m.damping), 0.88);
    let a = FluidAdvectSettings::default();
    assert_eq!(f32::from_bits(a.turbulence_scale), 0.008);
    let s = ScanlineSmearSettings::default();
    assert_eq!(f32::from_bits(s.chroma_burst_rate), 0.018);
    assert!(validate_scanline_smear_settings(s).is_ok());
    let c = CodecEngraveSettings::default();
    assert_eq!(f32::from_bits(c.hatch_frequency), 1.06);
    assert!(validate_codec_engrave_settings(c).is_ok());
    assert_eq!(f32::from_bits(DispersionSettings::default().texture_weight), 0.4);
    assert_eq!(f32::from_bits(FieldParticleSettings::default().turbulence_speed), 0.06);
    assert_eq!(f32::from_bits(BlockCollageSettings::default().cluster_scale), 0.25);
}

fn plain_notch() -> Notch {
    Notch { u0: b(0.0), u1: b(0.1), v0: b(0.0), v1: b(0.1), scrib: false }
}

fn plain_shape(steps: u32) -> CascadeShape {
    CascadeShape {
        cx: b(0.5),
        cy: b(0.5),
        hw: b(0.2),
        hh: b(0.1),
        src_cx: b(0.5),
        src_cy: b(0.5),
        notches: [plain_notch(); 4],
        notch_count: 1,
        outer_scrib: ScribbleEdge::NoEdge,
        dx: b(0.01),
        dy: b(0.0),
        steps,
        base_hue: b(0.3),
        sat: b(0.5),
        val: b(0.8),
        edge_hue: b(0.6),
        scrib_amp: b(0.0),
        hue_spread: b(0.1),
        edge_grow: b(0.0),
    }
}

fn collage(shapes: Vec<CascadeShape>) -> CascadeCollageSettings {
    CascadeCollageSettings {
        background: [b(0.0), b(0.0), b(0.0)],
        shapes,
        scrib_amp_scale: b(1.0),
        morph_rate: b(0.0),
        frame_hue_rate: b(0.0),
        bright_osc: b(0.0),
        edge_width: b(0.01),
        edge_strength: b(1.0),
        edge_sat: b(0.5),
        edge_val: b(0.5),
        face_strength: b(1.0),
        face_sat: b(0.5),
        hue_steps: b(0.0),
        edge_detect: b(0.0),
        block_blend: BlendMode::Normal,
        block_opacity: b(1.0),
        seed: 7,
    }
}

#[test]
fn validate_rejects_empty_and_zero_steps() {
    let empty = CascadeCollageSettings { shapes: vec![], ..Default::default() };
    assert!(empty.validate().is_err());

    let mut zero = CascadeCollageSettings::default();
    zero.shapes[0].steps = 0;
    assert!(zero.validate().is_err());
}

#[test]
fn cascade_collage_default_is_the_documented_composition() {
    let d = CascadeCollageSettings::default();
    assert!(d.validate().is_ok());
    assert_eq!(d.shapes.len(), 8);
    assert_eq!(d.seed, 71);
    assert_eq!(d.hue_steps, 5);
    assert_eq!(d.background, [b(0.118), b(0.047), b(0.157)]);
    assert_eq!(d.edge_width, b(2.5));
    let counts: Vec<u8> = d.shapes.iter().map(|s| s.notch_count).collect();
    assert_eq!(counts, vec![1, 0, 0, 1, 2, 1, 4, 2]);
    let steps: Vec<u32> = d.shapes.iter().map(|s| s.steps).collect();
    assert_eq!(steps, vec![55, 55, 55, 55, 38, 38, 34, 34]);
    assert_eq!(d.shapes[1].outer_scrib, ScribbleEdge::Left);
    assert_eq!(d.shapes[2].outer_scrib, ScribbleEdge::Right);
    assert_eq!(d.shapes[0].notches[0], Notch { u0: b(0.10), u1: b(0.50), v0: b(0.08), v1: b(0.50), scrib: true });
    assert_eq!(d.shapes[0].notches[1], Notch::default());
    assert_eq!(d.shapes[4].hw, b(0.24));
    assert_eq!(d.shapes[7].base_hue, b(0.99));
    assert!(d.shapes.iter().all(|s| s.hue_spread == b(0.14) && s.edge_grow == b(0.06)));
}

#[test]
fn cascade_collage_validate_checks_each_shape() {
    assert!(matches!(
        collage(Vec::new()).validate(),
        Err(RenderError::InvalidCascadeCollageSettings(_))
    ));
    assert!(matches!(
        collage(vec![plain_shape(0)]).validate(),
        Err(RenderError::InvalidCascadeCollageSettings(_))
    ));
    let mut negative_scale = collage(vec![plain_shape(3)]);
    negative_scale.scrib_amp_scale = b(-1.0);
    assert!(negative_scale.validate().is_err());
    let mut flat = plain_shape(3);
    flat.hw = b(0.0);
    assert!(collage(vec![flat]).validate().is_err());
    let mut dim = plain_shape(3);
    dim.val = b(1.5);
    assert!(collage(vec![plain_shape(3), dim]).validate().is_err());
    assert!(collage(vec![plain_shape(3)]).validate().is_ok());
    assert_eq!(plain_shape(3).active_notch_count(), 1);
    let mut many = plain_shape(3);
    many.notch_count = 9;
    assert_eq!(many.active_notch_count(), 4);
}

#[test]
fn dispersion_ownership_settings_carry_the_grouping_knobs() {
    let d = DispersionSettings { block_size: 12, bias: b(0.25), seed: 9, ..DispersionSettings::default() };
    let o = d.ownership_settings();
    assert_eq!(o.patch_size, 12);
    assert_eq!(o.color_weight, d.color_weight);
    assert_eq!(o.texture_weight, d.texture_weight);
    assert_eq!(o.coherence_passes, d.coherence_passes);
    assert_eq!(o.coherence_strength, d.coherence_strength);
    assert_eq!(o.randomness, d.randomness);
    assert_eq!(o.coagulation_strength, d.coagulation_strength);
    assert_eq!(o.bias, b(0.25));
    assert_eq!((o.edge_hardness, o.edge_dither, o.block_jitter), (0, 0, 0));
    assert_eq!(o.seed, 9);
    assert!(o.validate().is_ok());
}
