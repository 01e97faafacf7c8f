use morphogen_render::error::RenderError;
use morphogen_render::generators::{
    GeneratorPreset, GeneratorSettings, OSCILLATOR_GRADIENT_ALGORITHM, OSCILLATOR_PLASMA_ALGORITHM,
    OSCILLATOR_RADIAL_ALGORITHM, OSCILLATOR_SCAN_BARS_ALGORITHM,
};

fn settings() -> GeneratorSettings {
    GeneratorSettings {
        width: 64,
        height: 48,
        rate: 0.05f32.to_bits(),
        phase: 0.0f32.to_bits(),
        scale: 4.0f32.to_bits(),
        seed: 71,
    }
}

#[test]
fn algorithm_ids_are_one_per_preset() {
    assert_eq!(GeneratorPreset::ScanBars.algorithm_id(), OSCILLATOR_SCAN_BARS_ALGORITHM);
    assert_eq!(GeneratorPreset::Radial.algorithm_id(), OSCILLATOR_RADIAL_ALGORITHM);
    assert_eq!(GeneratorPreset::Plasma.algorithm_id(), OSCILLATOR_PLASMA_ALGORITHM);
    assert_eq!(GeneratorPreset::Gradient.algorithm_id(), OSCILLATOR_GRADIENT_ALGORITHM);
}

#[test]
fn algorithm_ids_are_distinct_and_spelled() {
    let ids = [
        GeneratorPreset::ScanBars.algorithm_id(),
        GeneratorPreset::Radial.algorithm_id(),
        GeneratorPreset::Plasma.algorithm_id(),
        GeneratorPreset::Gradient.algorithm_id(),
    ];
    for i in 0..ids.len() {
        for j in 0..ids.len() {
            assert_eq!(ids[i] == ids[j], i == j);
        }
    }
    assert_eq!(GeneratorPreset::Plasma.algorithm_id(), "oscillator_plasma_cpu_v1");
    assert_eq!(GeneratorPreset::default(), GeneratorPreset::ScanBars);
}

#[test]
fn validate_rejects_zero_dimensions_and_non_finite_knobs() {
    let zero_w = GeneratorSettings { width: 0, ..settings() };
    assert!(zero_w.validate().is_err());
    let nan_rate = GeneratorSettings { rate: f32::NAN.to_bits(), ..settings() };
    assert!(nan_rate.validate().is_err());
    let inf_scale = GeneratorSettings { scale: f32::INFINITY.to_bits(), ..settings() };
    assert!(inf_scale.validate().is_err());
    assert!(settings().validate().is_ok());
    assert!(matches!(
        GeneratorSettings { height: 0, ..settings() }.validate(),
        Err(RenderError::InvalidGeneratorSettings(_))
    ));
}
