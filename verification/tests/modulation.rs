use morphogen_render::error::RenderError;
use morphogen_render::route_text::source_clause_text;
use morphogen_render::modulation::{
    assemble_route, parse_route_spec, validate_route_targets, LfoShape, ModulationRoute,
    ModulationSampling, ModulationSource, RouteSpec, SourceSpec,
};

fn number(text: &Option<String>) -> Option<u32> {
    text.as_ref().and_then(|t| t.parse::<f32>().ok()).map(|v| v.to_bits())
}

/// The route grammar end to end: the library parses the clauses, the numbers
/// are read as `f32`, and the library assembles and checks the route.
fn parse_modulation_route(spec: &str) -> Result<ModulationRoute, RenderError> {
    let parsed: RouteSpec = parse_route_spec(spec)?;
    let (rate, phase) = match &parsed.source {
        SourceSpec::Lfo { rate_text, phase_text, .. } => (number(rate_text), number(phase_text)),
        SourceSpec::Media(_) => (None, None),
    };
    let scale = number(&parsed.scale_text);
    let offset = number(&parsed.offset_text);
    assemble_route(parsed, scale, offset, rate, phase)
}

fn f(bits: u32) -> f32 {
    f32::from_bits(bits)
}

fn lfo(shape: LfoShape, rate_hz: f32, phase: f32) -> ModulationSource {
    ModulationSource::Lfo { shape, rate_hz: rate_hz.to_bits(), phase: phase.to_bits() }
}

#[test]
fn parses_full_route_grammar() {
    let route = parse_modulation_route("threshold_high=audio-onset:0.6,0.3").unwrap();
    assert_eq!(route.target, "threshold_high");
    assert_eq!(route.source, ModulationSource::AudioOnset);
    assert_eq!(f(route.scale), 0.6);
    assert_eq!(f(route.offset), 0.3);
}

#[test]
fn parses_defaults_and_negative_parameters() {
    let route = parse_modulation_route("strength=audio-rms").unwrap();
    assert_eq!(f(route.scale), 1.0);
    assert_eq!(f(route.offset), 0.0);

    let route = parse_modulation_route("shift_b_x=flow:-24").unwrap();
    assert_eq!(route.source, ModulationSource::Flow);
    assert_eq!(f(route.scale), -24.0);
    assert_eq!(f(route.offset), 0.0);

    let route = parse_modulation_route(" strength = luma : 2 , -0.5 ").unwrap();
    assert_eq!(route.target, "strength");
    assert_eq!(route.source, ModulationSource::Luma);
    assert_eq!(f(route.scale), 2.0);
    assert_eq!(f(route.offset), -0.5);
}

#[test]
fn parse_rejects_malformed_specs() {
    for spec in [
        "strength",
        "=audio-rms",
        "strength=woble",
        "strength=audio-rms:x",
        "strength=audio-rms:1,y",
        "strength=audio-rms:inf,0",
        "strength=audio-rms@linear",
        "strength=audio-rms:1,0@",
        "strength=audio-rms@hold@",
    ] {
        assert!(parse_modulation_route(spec).is_err(), "expected '{spec}' to be rejected");
    }
}

#[test]
fn parses_named_modulator_prefix() {
    let route = parse_modulation_route("strength=audio-rms:0.5,0.25").unwrap();
    assert_eq!(route.modulator, None);

    let route = parse_modulation_route("strength=drums.audio-rms:0.5,0.25@smooth").unwrap();
    assert_eq!(route.modulator.as_deref(), Some("drums"));
    assert_eq!(route.source, ModulationSource::AudioRms);
    assert_eq!(route.sampling, Some(ModulationSampling::Smooth));

    let route = parse_modulation_route("shift_r_x= cam2 . flow :24").unwrap();
    assert_eq!(route.modulator.as_deref(), Some("cam2"));
    assert_eq!(route.source, ModulationSource::Flow);
    assert_eq!(f(route.scale), 24.0);

    for spec in ["strength=.audio-rms", "strength=drums.wobble", "strength=drums.rms.late"] {
        assert!(parse_modulation_route(spec).is_err(), "expected '{spec}' to be rejected");
    }
}

#[test]
fn parses_per_route_sampling_suffix() {
    let route = parse_modulation_route("strength=audio-rms:0.5,0.25").unwrap();
    assert_eq!(route.sampling, None);

    let route = parse_modulation_route("strength=audio-rms:0.5,0.25@smooth").unwrap();
    assert_eq!(route.sampling, Some(ModulationSampling::Smooth));
    assert_eq!(f(route.scale), 0.5);
    assert_eq!(f(route.offset), 0.25);

    let route = parse_modulation_route("strength=audio-rms@hold").unwrap();
    assert_eq!(route.sampling, Some(ModulationSampling::Hold));
    assert_eq!(f(route.scale), 1.0);

    let route = parse_modulation_route("strength=luma:2 @ smooth").unwrap();
    assert_eq!(route.sampling, Some(ModulationSampling::Smooth));
    assert_eq!(f(route.scale), 2.0);
}

#[test]
fn duplicate_targets_are_rejected() {
    let routes = vec![
        parse_modulation_route("strength=audio-rms").unwrap(),
        parse_modulation_route("strength=luma").unwrap(),
    ];
    assert!(validate_route_targets(&routes).is_err());
    assert!(validate_route_targets(&routes[..1]).is_ok());
}

#[test]
fn duplicate_target_error_names_the_first_repeated_route() {
    let routes = vec![
        parse_modulation_route("a=luma").unwrap(),
        parse_modulation_route("b=luma").unwrap(),
        parse_modulation_route("b=flow").unwrap(),
        parse_modulation_route("a=flow").unwrap(),
    ];
    match validate_route_targets(&routes) {
        Err(e) => assert_eq!(
            e.to_string(),
            "invalid modulation route: target 'b' is driven by more than one route"
        ),
        Ok(()) => panic!("expected a duplicate-target error"),
    }
    assert!(validate_route_targets(&[]).is_ok());
}

#[test]
fn source_flag_requirements_partition_the_sources() {
    for source in [
        ModulationSource::AudioRms,
        ModulationSource::AudioOnset,
        ModulationSource::AudioCentroid,
        ModulationSource::Luma,
        ModulationSource::Flow,
    ] {
        assert_ne!(source.needs_audio(), source.needs_frames());
        assert_eq!(ModulationSource::parse(source.name()), Some(source));
    }
}

#[test]
fn lfo_needs_no_media() {
    let source = lfo(LfoShape::Square, 2.0, 0.0);
    assert!(!source.needs_audio());
    assert!(!source.needs_frames());
    assert_eq!(source.name(), "lfo");
}

#[test]
fn lfo_shape_names_round_trip() {
    for shape in [LfoShape::Sine, LfoShape::Triangle, LfoShape::Square, LfoShape::Saw] {
        assert_eq!(LfoShape::parse(shape.name()), Some(shape));
    }
    assert_eq!(LfoShape::parse("cosine"), None);
    assert_eq!(LfoShape::Triangle.name(), "triangle");
    assert_eq!(ModulationSampling::default_sampling(), ModulationSampling::Hold);
}

#[test]
fn parses_lfo_source_full_grammar_and_defaults() {
    let route = parse_modulation_route("displacement_depth=lfo(sine)").unwrap();
    assert_eq!(route.source, lfo(LfoShape::Sine, 1.0, 0.0));
    assert_eq!(f(route.scale), 1.0);
    assert_eq!(f(route.offset), 0.0);
    assert_eq!(route.modulator, None);

    let route = parse_modulation_route("depth=lfo(saw,0.5,0.25):64,-32@smooth").unwrap();
    assert_eq!(route.source, lfo(LfoShape::Saw, 0.5, 0.25));
    assert_eq!(f(route.scale), 64.0);
    assert_eq!(f(route.offset), -32.0);
    assert_eq!(route.sampling, Some(ModulationSampling::Smooth));

    // The LFO's spelling composes back through the same grammar.
    let spelled = match route.source {
        ModulationSource::Lfo { shape, rate_hz, phase } => source_clause_text(&SourceSpec::Lfo {
            shape,
            rate_text: Some(f(rate_hz).to_string()),
            phase_text: Some(f(phase).to_string()),
            extra_args: false,
        }),
        other => source_clause_text(&SourceSpec::Media(other)),
    };
    let respec = format!("depth={spelled}:64,-32@smooth");
    assert_eq!(respec, "depth=lfo(saw,0.5,0.25):64,-32@smooth");
    let reparsed = parse_modulation_route(&respec).unwrap();
    assert_eq!(reparsed, route);
}

#[test]
fn parses_lfo_source_with_named_modulator_dot_unambiguously() {
    let route = parse_modulation_route("depth=lfo(sine,0.5)").unwrap();
    assert_eq!(route.modulator, None);
    assert_eq!(route.source, lfo(LfoShape::Sine, 0.5, 0.0));
}

#[test]
fn parse_rejects_malformed_lfo_specs() {
    for spec in [
        "depth=lfo(wobble)",
        "depth=lfo(sine,0)",
        "depth=lfo(sine,-1)",
        "depth=lfo(sine,inf)",
        "depth=lfo(sine,1,nan)",
        "depth=lfo(sine,1,2,3)",
        "depth=lfo(sine",
        "depth=wob.lfo(sine)",
    ] {
        assert!(parse_modulation_route(spec).is_err(), "expected '{spec}' to be rejected");
    }
}

#[test]
fn route_spec_keeps_number_texts_trimmed() {
    assert!(parse_route_spec(" d = n . lfo( triangle , 2.5 , 0.75 ) : 3 , 4 @ hold ").is_err());
    let spec = parse_route_spec("d = lfo( triangle , 2.5 , 0.75 ) : 3 , 4 @ hold").unwrap();
    assert_eq!(
        spec.source,
        SourceSpec::Lfo {
            shape: LfoShape::Triangle,
            rate_text: Some("2.5".to_string()),
            phase_text: Some("0.75".to_string()),
            extra_args: false,
        }
    );
    assert_eq!(spec.scale_text.as_deref(), Some("3"));
    assert_eq!(spec.offset_text.as_deref(), Some("4"));
    assert_eq!(spec.sampling, Some(ModulationSampling::Hold));
}

#[test]
fn every_route_error_is_a_route_error() {
    for spec in ["x", "=luma", "x=luma@later", "x=.luma"] {
        assert!(matches!(parse_route_spec(spec), Err(RenderError::InvalidModulationRoute(_))));
    }
    let parsed = parse_route_spec("x=lfo(sine,0)").unwrap();
    let e = assemble_route(parsed, None, None, Some(0.0f32.to_bits()), None);
    assert!(matches!(e, Err(RenderError::InvalidModulationRoute(_))));
}

#[test]
fn spelled_routes_parse_back() {
    for spec in [
        "depth=lfo(sine)",
        "depth=lfo(square,2)",
        "depth=lfo(triangle,0.5,0.25):64,-32@smooth",
        "x=cam.luma:2@hold",
        "x=flow",
        "x=audio-centroid:1.5",
    ] {
        let parsed = parse_route_spec(spec).unwrap();
        let mut respelled = format!("{}=", parsed.target);
        if let Some(m) = &parsed.modulator {
            respelled.push_str(m);
            respelled.push('.');
        }
        respelled.push_str(&source_clause_text(&parsed.source));
        if let Some(s) = &parsed.scale_text {
            respelled.push(':');
            respelled.push_str(s);
            if let Some(o) = &parsed.offset_text {
                respelled.push(',');
                respelled.push_str(o);
            }
        }
        match parsed.sampling {
            Some(ModulationSampling::Hold) => respelled.push_str("@hold"),
            Some(ModulationSampling::Smooth) => respelled.push_str("@smooth"),
            None => {}
        }
        assert_eq!(respelled, spec);
        assert_eq!(parse_route_spec(&respelled).unwrap(), parsed);
    }
    assert_eq!(source_clause_text(&SourceSpec::Media(ModulationSource::AudioRms)), "audio-rms");
}

fn route_error_text(spec: &str) -> String {
    match parse_modulation_route(spec) {
        Err(e) => e.to_string(),
        Ok(_) => panic!("expected '{spec}' to be rejected"),
    }
}

#[test]
fn route_errors_quote_the_route_and_the_offending_text() {
    let grammar = "(expected <target>=[<name>.]<source>[:<scale>[,<offset>]][@hold|@smooth])";
    for (spec, detail) in [
        ("x=luma@ later ", "unknown sampling 'later' (available: hold, smooth)"),
        ("x", "missing '='"),
        (" =luma", "empty target"),
        ("x= .luma", "empty modulator name"),
        ("x=n.lfo(sine)", "a named modulator prefix is not allowed on an lfo source (lfo needs no media)"),
        ("x= woble :2", "unknown source 'woble' (available: audio-rms, audio-onset, audio-centroid, luma, flow, lfo)"),
        ("x=lfo(sine", "malformed lfo(...) source 'lfo(sine'"),
        ("x=lfo( wobble ,1)", "unknown lfo shape 'wobble' (available: sine, triangle, square, saw)"),
        ("x=lfo(sine, abc ,0,1)", "invalid lfo rate_hz 'abc'"),
        ("x=lfo(sine,0,2,3)", "lfo rate_hz must be finite and greater than 0"),
        ("x=lfo(sine,1,p,3)", "invalid lfo phase 'p'"),
        ("x=lfo(sine,1,inf,3)", "lfo phase must be finite"),
        ("x=lfo(sine,1,2,3):abc", "lfo(...) accepts at most shape, rate_hz, phase"),
        ("x=luma: abc ,1", "invalid scale 'abc'"),
        ("x=luma:1,2,3", "invalid offset '2,3'"),
        ("x=luma:inf", "scale and offset must be finite"),
    ] {
        assert_eq!(
            route_error_text(spec),
            format!("invalid modulation route: '{spec}': {detail} {grammar}")
        );
    }
}
