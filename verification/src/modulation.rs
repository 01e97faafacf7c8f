//! The modulation matrix: analysis sources, LFO shapes and sampling modes,
//! the route grammar `<target>=[<name>.]<source>[:<scale>[,<offset>]][@hold|@smooth]`,
//! and the per-effect registries of knobs a route may drive.

use vstd::prelude::*;
use crate::error::RenderError;
use crate::text::{str_eq, chars_of, string_from_range, string_from_str, push_chars};
use crate::float_bits::{f32_bits_finite, f32_bits_positive, is_finite_bits, is_positive_bits};
use crate::scan::{first_from, last_before, trim_spec, starts_with_spec, find_first, find_last, trim_range, range_is, range_starts_with};

verus! {

/// An LFO waveform shape.
#[derive(Debug, Clone, Copy, PartialEq, Eq)]
pub enum LfoShape {
    Sine,
    Triangle,
    Square,
    Saw,
}

/// The command-line spelling of each shape.
pub open spec fn lfo_shape_name(shape: LfoShape) -> Seq<char> {
    match shape {
        LfoShape::Sine => "sine"@,
        LfoShape::Triangle => "triangle"@,
        LfoShape::Square => "square"@,
        LfoShape::Saw => "saw"@,
    }
}

/// The shape spelled `name`, if any.
pub open spec fn lfo_shape_named(name: Seq<char>) -> Option<LfoShape> {
    if name == "sine"@ {
        Some(LfoShape::Sine)
    } else if name == "triangle"@ {
        Some(LfoShape::Triangle)
    } else if name == "square"@ {
        Some(LfoShape::Square)
    } else if name == "saw"@ {
        Some(LfoShape::Saw)
    } else {
        None
    }
}

impl LfoShape {
    /// The command-line spelling (`sine`, `triangle`, `square`, `saw`).
    pub fn name(self) -> (r: &'static str)
        ensures
            r@ == lfo_shape_name(self),
    {
        match self {
            LfoShape::Sine => "sine",
            LfoShape::Triangle => "triangle",
            LfoShape::Square => "square",
            LfoShape::Saw => "saw",
        }
    }

    /// The shape spelled `name`, or `None` for any other text.
    pub fn parse(name: &str) -> (r: Option<Self>)
        ensures
            r == lfo_shape_named(name@),
    {
        if str_eq(name, "sine") {
            Some(LfoShape::Sine)
        } else if str_eq(name, "triangle") {
            Some(LfoShape::Triangle)
        } else if str_eq(name, "square") {
            Some(LfoShape::Square)
        } else if str_eq(name, "saw") {
            Some(LfoShape::Saw)
        } else {
            None
        }
    }
}

/// How a sparse envelope is evaluated at an output frame's time.
#[derive(Debug, Clone, Copy, PartialEq, Eq)]
pub enum ModulationSampling {
    /// Step: the latest sample at or before the frame time.
    Hold,
    /// Linear interpolation between the bracketing samples.
    Smooth,
}

impl ModulationSampling {
    /// The default sampling, `Hold`.
    pub fn default_sampling() -> (r: Self)
        ensures
            r == ModulationSampling::Hold,
    {
        ModulationSampling::Hold
    }
}

/// Which analysis descriptor drives a route. The LFO's rate (cycles per
/// second) and phase (cycles) are the bit patterns of `f32`s.
#[derive(Debug, Clone, Copy, PartialEq, Eq)]
pub enum ModulationSource {
    AudioRms,
    AudioOnset,
    AudioCentroid,
    Luma,
    Flow,
    Lfo { shape: LfoShape, rate_hz: u32, phase: u32 },
}

/// The command-line spelling of each source (`lfo` for every LFO).
pub open spec fn source_name(source: ModulationSource) -> Seq<char> {
    match source {
        ModulationSource::AudioRms => "audio-rms"@,
        ModulationSource::AudioOnset => "audio-onset"@,
        ModulationSource::AudioCentroid => "audio-centroid"@,
        ModulationSource::Luma => "luma"@,
        ModulationSource::Flow => "flow"@,
        ModulationSource::Lfo { .. } => "lfo"@,
    }
}

/// The media source spelled `name`, if any.
pub open spec fn media_source_named(name: Seq<char>) -> Option<ModulationSource> {
    if name == "audio-rms"@ {
        Some(ModulationSource::AudioRms)
    } else if name == "audio-onset"@ {
        Some(ModulationSource::AudioOnset)
    } else if name == "audio-centroid"@ {
        Some(ModulationSource::AudioCentroid)
    } else if name == "luma"@ {
        Some(ModulationSource::Luma)
    } else if name == "flow"@ {
        Some(ModulationSource::Flow)
    } else {
        None
    }
}

/// The source reads the modulator audio.
pub open spec fn source_needs_audio(source: ModulationSource) -> bool {
    source is AudioRms || source is AudioOnset || source is AudioCentroid
}

/// The source reads the modulator frames.
pub open spec fn source_needs_frames(source: ModulationSource) -> bool {
    source is Luma || source is Flow
}

impl ModulationSource {
    /// The command-line spelling (`audio-rms`, `audio-onset`, `audio-centroid`,
    /// `luma`, `flow`, and `lfo` for every LFO).
    pub fn name(self) -> (r: &'static str)
        ensures
            r@ == source_name(self),
    {
        match self {
            ModulationSource::AudioRms => "audio-rms",
            ModulationSource::AudioOnset => "audio-onset",
            ModulationSource::AudioCentroid => "audio-centroid",
            ModulationSource::Luma => "luma",
            ModulationSource::Flow => "flow",
            ModulationSource::Lfo { .. } => "lfo",
        }
    }

    /// The media source spelled `name`; LFOs are not parsed here.
    pub fn parse(name: &str) -> (r: Option<Self>)
        ensures
            r == media_source_named(name@),
    {
        if str_eq(name, "audio-rms") {
            Some(ModulationSource::AudioRms)
        } else if str_eq(name, "audio-onset") {
            Some(ModulationSource::AudioOnset)
        } else if str_eq(name, "audio-centroid") {
            Some(ModulationSource::AudioCentroid)
        } else if str_eq(name, "luma") {
            Some(ModulationSource::Luma)
        } else if str_eq(name, "flow") {
            Some(ModulationSource::Flow)
        } else {
            None
        }
    }

    /// True when the route needs modulator audio.
    pub fn needs_audio(self) -> (r: bool)
        ensures
            r == source_needs_audio(self),
    {
        match self {
            ModulationSource::AudioRms | ModulationSource::AudioOnset
            | ModulationSource::AudioCentroid => true,
            _ => false,
        }
    }

    /// True when the route needs modulator frames.
    pub fn needs_frames(self) -> (r: bool)
        ensures
            r == source_needs_frames(self),
    {
        match self {
            ModulationSource::Luma | ModulationSource::Flow => true,
            _ => false,
        }
    }
}

/// Every media source reads exactly one kind of media, an LFO reads none, and
/// parsing a media source's spelling gives the source back.
pub proof fn law_source_requirements_partition(source: ModulationSource)
    ensures
        !(source is Lfo) ==> (source_needs_audio(source) != source_needs_frames(source)),
        source is Lfo ==> !source_needs_audio(source) && !source_needs_frames(source),
        !(source is Lfo) ==> media_source_named(source_name(source)) == Some(source),
{
    reveal_strlit("audio-rms");
    reveal_strlit("audio-onset");
    reveal_strlit("audio-centroid");
    reveal_strlit("luma");
    reveal_strlit("flow");
    assert("audio-rms"@.len() == 9 && "audio-onset"@.len() == 11 && "audio-centroid"@.len() == 14
        && "luma"@.len() == 4 && "flow"@.len() == 4);
    assert("luma"@[0] != "flow"@[0]);
}

/// Parsing a shape's spelling gives the shape back.
pub proof fn law_lfo_shape_round_trip(shape: LfoShape)
    ensures
        lfo_shape_named(lfo_shape_name(shape)) == Some(shape),
{
    reveal_strlit("sine");
    reveal_strlit("triangle");
    reveal_strlit("square");
    reveal_strlit("saw");
    assert("sine"@.len() == 4 && "triangle"@.len() == 8 && "square"@.len() == 6 && "saw"@.len()
        == 3);
}


/// The source clause of a route as written: a media source, or an LFO shape
/// with the texts of its optional rate and phase, and whether more
/// arguments follow the phase.
pub enum SourceTerms {
    Media(ModulationSource),
    Lfo { shape: LfoShape, rate: Option<Seq<char>>, phase: Option<Seq<char>>, extra: bool },
}

/// The clauses of a route as written, every text trimmed.
pub struct RouteTerms {
    pub target: Seq<char>,
    pub modulator: Option<Seq<char>>,
    pub source: SourceTerms,
    pub scale: Option<Seq<char>>,
    pub offset: Option<Seq<char>>,
    pub sampling: Option<ModulationSampling>,
}

/// The message of a refused route `s`: the route quoted, the `detail`, and
/// the grammar.
pub open spec fn route_message(s: Seq<char>, detail: Seq<char>) -> Seq<char> {
    "'"@ + s + "': "@ + detail
        + " (expected <target>=[<name>.]<source>[:<scale>[,<offset>]][@hold|@smooth])"@
}

/// `before`, the quoted text `x`, and `after`.
pub open spec fn quoting(before: Seq<char>, x: Seq<char>, after: Seq<char>) -> Seq<char> {
    before + x + after
}

/// The sampling mode spelled `name`, if any.
pub open spec fn sampling_named(name: Seq<char>) -> Option<ModulationSampling> {
    if name == "hold"@ {
        Some(ModulationSampling::Hold)
    } else if name == "smooth"@ {
        Some(ModulationSampling::Smooth)
    } else {
        None
    }
}

/// The text before the last `@` and the sampling mode after it; without an
/// `@` the whole text and no mode. An unknown mode is refused, quoting it.
pub open spec fn split_sampling(s: Seq<char>) -> Result<(Seq<char>, Option<ModulationSampling>), Seq<char>> {
    let at = last_before(s, '@', s.len() as int);
    if at < 0 {
        Ok((s, None))
    } else {
        let word = trim_spec(s.subrange(at + 1, s.len() as int));
        match sampling_named(word) {
            Some(m) => Ok((s.subrange(0, at), Some(m))),
            None => Err(quoting("unknown sampling '"@, word, "' (available: hold, smooth)"@)),
        }
    }
}

/// The `lfo(<shape>[,<rate_hz>[,<phase>]])` source clause (already trimmed).
/// Arguments past the phase are recorded, and refused once the rate and
/// phase have been checked.
pub open spec fn lfo_terms(t: Seq<char>) -> Result<SourceTerms, Seq<char>> {
    if !(t.len() >= 5 && starts_with_spec(t, "lfo("@) && t.last() == ')') {
        Err(quoting("malformed lfo(...) source '"@, t, "'"@))
    } else {
        let inner = t.subrange(4, t.len() - 1);
        let c1 = first_from(inner, ',', 0);
        let shape_text = trim_spec(inner.subrange(0, c1));
        match lfo_shape_named(shape_text) {
            None => Err(
                quoting(
                    "unknown lfo shape '"@,
                    shape_text,
                    "' (available: sine, triangle, square, saw)"@,
                ),
            ),
            Some(shape) => if c1 == inner.len() {
                Ok(SourceTerms::Lfo { shape, rate: None, phase: None, extra: false })
            } else {
                let r = inner.subrange(c1 + 1, inner.len() as int);
                let c2 = first_from(r, ',', 0);
                let rate = Some(trim_spec(r.subrange(0, c2)));
                if c2 == r.len() {
                    Ok(SourceTerms::Lfo { shape, rate, phase: None, extra: false })
                } else {
                    let q = r.subrange(c2 + 1, r.len() as int);
                    let c3 = first_from(q, ',', 0);
                    Ok(
                        SourceTerms::Lfo {
                            shape,
                            rate,
                            phase: Some(trim_spec(q.subrange(0, c3))),
                            extra: c3 < q.len(),
                        },
                    )
                }
            },
        }
    }
}

/// The source clause (already trimmed): an LFO or a media source name.
pub open spec fn source_terms(t: Seq<char>) -> Result<SourceTerms, Seq<char>> {
    if starts_with_spec(t, "lfo("@) {
        lfo_terms(t)
    } else {
        match media_source_named(t) {
            Some(m) => Ok(SourceTerms::Media(m)),
            None => Err(
                quoting(
                    "unknown source '"@,
                    t,
                    "' (available: audio-rms, audio-onset, audio-centroid, luma, flow, lfo)"@,
                ),
            ),
        }
    }
}

/// The optional `<name>.` prefix of a source clause: an LFO clause takes no
/// prefix; otherwise the text before the first `.` names the modulator.
pub open spec fn split_modulator(raw: Seq<char>) -> Result<(Option<Seq<char>>, Seq<char>), Seq<char>> {
    if starts_with_spec(trim_spec(raw), "lfo("@) {
        Ok((None, raw))
    } else {
        let dot = first_from(raw, '.', 0);
        if dot == raw.len() {
            Ok((None, raw))
        } else {
            let name = trim_spec(raw.subrange(0, dot));
            let inner = raw.subrange(dot + 1, raw.len() as int);
            if name.len() == 0 {
                Err("empty modulator name"@)
            } else if starts_with_spec(trim_spec(inner), "lfo("@) {
                Err(
                    "a named modulator prefix is not allowed on an lfo source (lfo needs no media)"@,
                )
            } else {
                Ok((Some(name), inner))
            }
        }
    }
}

/// The `<scale>[,<offset>]` clause texts.
pub open spec fn split_params(p: Seq<char>) -> (Option<Seq<char>>, Option<Seq<char>>) {
    let comma = first_from(p, ',', 0);
    if comma == p.len() {
        (Some(trim_spec(p)), None)
    } else {
        (
            Some(trim_spec(p.subrange(0, comma))),
            Some(trim_spec(p.subrange(comma + 1, p.len() as int))),
        )
    }
}

/// The route grammar `<target>=[<name>.]<source>[:<scale>[,<offset>]][@hold|@smooth]`:
/// its clauses, or the detail of the first refusal met.
pub open spec fn route_terms(s: Seq<char>) -> Result<RouteTerms, Seq<char>> {
    match split_sampling(s) {
        Err(d) => Err(d),
        Ok((body, sampling)) => {
            let eq = first_from(body, '=', 0);
            if eq == body.len() {
                Err("missing '='"@)
            } else {
                let target = trim_spec(body.subrange(0, eq));
                let rest = body.subrange(eq + 1, body.len() as int);
                let colon = first_from(rest, ':', 0);
                if target.len() == 0 {
                    Err("empty target"@)
                } else {
                    match split_modulator(rest.subrange(0, colon)) {
                        Err(d) => Err(d),
                        Ok((modulator, src)) => match source_terms(trim_spec(src)) {
                            Err(d) => Err(d),
                            Ok(source) => {
                                let (scale, offset) = if colon == rest.len() {
                                    (None, None)
                                } else {
                                    split_params(rest.subrange(colon + 1, rest.len() as int))
                                };
                                Ok(RouteTerms { target, modulator, source, scale, offset, sampling })
                            },
                        },
                    }
                }
            }
        },
    }
}

/// The view of an optional text.
pub open spec fn opt_text(o: Option<String>) -> Option<Seq<char>> {
    match o {
        Some(s) => Some(s@),
        None => None,
    }
}

/// A parsed source clause: a media source, or an LFO with the texts of its
/// optional rate and phase (numbers are converted by the caller) and
/// whether more arguments follow the phase.
#[derive(Debug, PartialEq, Eq)]
pub enum SourceSpec {
    Media(ModulationSource),
    Lfo { shape: LfoShape, rate_text: Option<String>, phase_text: Option<String>, extra_args: bool },
}

/// A parsed route: every clause of the grammar, numbers still as text.
#[derive(Debug, PartialEq, Eq)]
pub struct RouteSpec {
    /// The route as written.
    pub text: String,
    pub target: String,
    pub modulator: Option<String>,
    pub source: SourceSpec,
    pub scale_text: Option<String>,
    pub offset_text: Option<String>,
    pub sampling: Option<ModulationSampling>,
}

pub open spec fn source_spec_terms(s: SourceSpec) -> SourceTerms {
    match s {
        SourceSpec::Media(m) => SourceTerms::Media(m),
        SourceSpec::Lfo { shape, rate_text, phase_text, extra_args } => SourceTerms::Lfo {
            shape,
            rate: opt_text(rate_text),
            phase: opt_text(phase_text),
            extra: extra_args,
        },
    }
}

pub open spec fn route_spec_terms(r: RouteSpec) -> RouteTerms {
    RouteTerms {
        target: r.target@,
        modulator: opt_text(r.modulator),
        source: source_spec_terms(r.source),
        scale: opt_text(r.scale_text),
        offset: opt_text(r.offset_text),
        sampling: r.sampling,
    }
}

/// The refusal of the route `spec` (its characters) for `detail`.
fn bad_route(spec: &Vec<char>, detail: &str) -> (e: RenderError)
    ensures
        (e matches RenderError::InvalidModulationRoute(d) && d@ == route_message(spec@, detail@)),
{
    let mut d = String::from_str("'");
    push_chars(&mut d, spec);
    d.append("': ");
    d.append(detail);
    d.append(" (expected <target>=[<name>.]<source>[:<scale>[,<offset>]][@hold|@smooth])");
    assert(d@ =~= route_message(spec@, detail@));
    RenderError::InvalidModulationRoute(d)
}

/// `before`, the text `v[lo..hi]`, and `after`.
fn quoted_range(before: &str, v: &Vec<char>, lo: usize, hi: usize, after: &str) -> (r: String)
    requires
        lo <= hi <= v@.len(),
    ensures
        r@ == quoting(before@, v@.subrange(lo as int, hi as int), after@),
{
    let mut d = String::from_str(before);
    let x = string_from_range(v, lo, hi);
    d.append(x.as_str());
    d.append(after);
    d
}

/// `before`, the text `x`, and `after`.
fn quoted_text(before: &str, x: &String, after: &str) -> (r: String)
    ensures
        r@ == quoting(before@, x@, after@),
{
    let mut d = String::from_str(before);
    d.append(x.as_str());
    d.append(after);
    d
}

proof fn lemma_subrange_of_subrange(s: Seq<char>, a: int, b: int, c: int, d: int)
    requires
        0 <= a <= b <= s.len(),
        0 <= c <= d <= b - a,
    ensures
        s.subrange(a, b).subrange(c, d) == s.subrange(a + c, a + d),
{
    assert(s.subrange(a, b).subrange(c, d) =~= s.subrange(a + c, a + d));
}

/// The trimmed text of `v[lo..hi]`.
fn trimmed_string(v: &Vec<char>, lo: usize, hi: usize) -> (r: String)
    requires
        lo <= hi <= v@.len(),
    ensures
        r@ == trim_spec(v@.subrange(lo as int, hi as int)),
{
    let (a, b) = trim_range(v, lo, hi);
    string_from_range(v, a, b)
}

/// The refusal of the route `spec` for the detail of a clause `r` of it.
pub open spec fn route_refused<T>(spec: Seq<char>, r: Result<T, RenderError>, d: Result<SourceTerms, Seq<char>>) -> bool {
    r matches Err(e) ==> d is Err && (e matches RenderError::InvalidModulationRoute(m) && m@
        == route_message(spec, d->Err_0))
}

/// The LFO clause `v[lo..hi]` (already trimmed).
fn parse_lfo_terms(v: &Vec<char>, lo: usize, hi: usize) -> (r: Result<SourceSpec, RenderError>)
    requires
        lo <= hi <= v@.len(),
    ensures
        r is Ok <==> lfo_terms(v@.subrange(lo as int, hi as int)) is Ok,
        r matches Ok(src) ==> Ok::<SourceTerms, Seq<char>>(source_spec_terms(src)) == lfo_terms(
            v@.subrange(lo as int, hi as int),
        ),
        route_refused(v@, r, lfo_terms(v@.subrange(lo as int, hi as int))),
{
    let ghost t = v@.subrange(lo as int, hi as int);
    if !(hi - lo >= 5 && range_starts_with(v, lo, hi, "lfo(") && v[hi - 1] == ')') {
        let d = quoted_range("malformed lfo(...) source '", v, lo, hi, "'");
        return Err(bad_route(v, d.as_str()));
    }
    assert(t.last() == v@[hi - 1]);
    let ilo = lo + 4;
    let ihi = hi - 1;
    let ghost inner = t.subrange(4, t.len() - 1);
    assert(inner =~= v@.subrange(ilo as int, ihi as int));
    let c1 = find_first(v, ilo, ihi, ',');
    proof {
        lemma_subrange_of_subrange(v@, ilo as int, ihi as int, 0, c1 - ilo);
    }
    let shape_text = trimmed_string(v, ilo, c1);
    let shape = match LfoShape::parse(shape_text.as_str()) {
        Some(shape) => shape,
        None => {
            let d = quoted_text(
                "unknown lfo shape '",
                &shape_text,
                "' (available: sine, triangle, square, saw)",
            );
            return Err(bad_route(v, d.as_str()));
        },
    };
    if c1 == ihi {
        return Ok(SourceSpec::Lfo { shape, rate_text: None, phase_text: None, extra_args: false });
    }
    let rlo = c1 + 1;
    let ghost r = inner.subrange(c1 + 1 - ilo, inner.len() as int);
    assert(r =~= v@.subrange(rlo as int, ihi as int));
    let c2 = find_first(v, rlo, ihi, ',');
    proof {
        lemma_subrange_of_subrange(v@, rlo as int, ihi as int, 0, c2 - rlo);
    }
    let rate_text = trimmed_string(v, rlo, c2);
    if c2 == ihi {
        return Ok(
            SourceSpec::Lfo {
                shape,
                rate_text: Some(rate_text),
                phase_text: None,
                extra_args: false,
            },
        );
    }
    let qlo = c2 + 1;
    let ghost q = r.subrange(c2 + 1 - rlo, r.len() as int);
    assert(q =~= v@.subrange(qlo as int, ihi as int));
    let c3 = find_first(v, qlo, ihi, ',');
    proof {
        lemma_subrange_of_subrange(v@, qlo as int, ihi as int, 0, c3 - qlo);
    }
    let phase_text = trimmed_string(v, qlo, c3);
    Ok(
        SourceSpec::Lfo {
            shape,
            rate_text: Some(rate_text),
            phase_text: Some(phase_text),
            extra_args: c3 < ihi,
        },
    )
}

/// The end of the route body and the sampling suffix of `v`.
fn parse_sampling_suffix(v: &Vec<char>) -> (r: Result<(usize, Option<ModulationSampling>), RenderError>)
    ensures
        r is Ok <==> split_sampling(v@) is Ok,
        r matches Ok((end, m)) ==> end <= v@.len() && split_sampling(v@) == Ok::<
            (Seq<char>, Option<ModulationSampling>),
            Seq<char>,
        >((v@.subrange(0, end as int), m)),
        r matches Err(e) ==> split_sampling(v@) is Err && (e matches RenderError::InvalidModulationRoute(
            d,
        ) && d@ == route_message(v@, split_sampling(v@)->Err_0)),
{
    let ghost s = v@;
    assert(s.subrange(0, s.len() as int) =~= s);
    let n = v.len();
    match find_last(v, 0, n, '@') {
        Some(at) => {
            proof {
                lemma_subrange_of_subrange(s, 0, n as int, at + 1, n as int);
            }
            let (a, b) = trim_range(v, at + 1, n);
            if range_is(v, a, b, "hold") {
                Ok((at, Some(ModulationSampling::Hold)))
            } else if range_is(v, a, b, "smooth") {
                Ok((at, Some(ModulationSampling::Smooth)))
            } else {
                let d = quoted_range("unknown sampling '", v, a, b, "' (available: hold, smooth)");
                Err(bad_route(v, d.as_str()))
            }
        },
        None => Ok((n, None)),
    }
}

/// The scale and offset texts of the parameter clause `v[lo..hi]`.
fn parse_param_texts(v: &Vec<char>, lo: usize, hi: usize) -> (r: (Option<String>, Option<String>))
    requires
        lo <= hi <= v@.len(),
    ensures
        (opt_text(r.0), opt_text(r.1)) == split_params(v@.subrange(lo as int, hi as int)),
{
    let ghost p = v@.subrange(lo as int, hi as int);
    let comma = find_first(v, lo, hi, ',');
    if comma == hi {
        (Some(trimmed_string(v, lo, hi)), None)
    } else {
        proof {
            lemma_subrange_of_subrange(v@, lo as int, hi as int, 0, comma - lo);
            lemma_subrange_of_subrange(v@, lo as int, hi as int, comma + 1 - lo, hi - lo);
        }
        (Some(trimmed_string(v, lo, comma)), Some(trimmed_string(v, comma + 1, hi)))
    }
}

/// The optional modulator prefix of the source clause `v[lo..hi]`, and
/// where the source itself begins.
fn parse_modulator_prefix(v: &Vec<char>, lo: usize, hi: usize) -> (r: Result<(Option<String>, usize), RenderError>)
    requires
        lo <= hi <= v@.len(),
    ensures
        r is Ok <==> split_modulator(v@.subrange(lo as int, hi as int)) is Ok,
        r matches Ok((m, src_lo)) ==> lo <= src_lo <= hi && split_modulator(
            v@.subrange(lo as int, hi as int),
        ) == Ok::<(Option<Seq<char>>, Seq<char>), Seq<char>>(
            (opt_text(m), v@.subrange(src_lo as int, hi as int)),
        ),
        r matches Err(e) ==> split_modulator(v@.subrange(lo as int, hi as int)) is Err && (e matches RenderError::InvalidModulationRoute(
            d,
        ) && d@ == route_message(v@, split_modulator(v@.subrange(lo as int, hi as int))->Err_0)),
{
    let ghost raw = v@.subrange(lo as int, hi as int);
    let (tlo, thi) = trim_range(v, lo, hi);
    if range_starts_with(v, tlo, thi, "lfo(") {
        return Ok((None, lo));
    }
    let dot = find_first(v, lo, hi, '.');
    if dot == hi {
        return Ok((None, lo));
    }
    proof {
        lemma_subrange_of_subrange(v@, lo as int, hi as int, 0, dot - lo);
        lemma_subrange_of_subrange(v@, lo as int, hi as int, dot + 1 - lo, hi - lo);
    }
    let name = trimmed_string(v, lo, dot);
    if name.as_str().is_empty() {
        return Err(bad_route(v, "empty modulator name"));
    }
    let (ilo, ihi) = trim_range(v, dot + 1, hi);
    if range_starts_with(v, ilo, ihi, "lfo(") {
        return Err(
            bad_route(
                v,
                "a named modulator prefix is not allowed on an lfo source (lfo needs no media)",
            ),
        );
    }
    Ok((Some(name), dot + 1))
}

/// The source clause `v[lo..hi]` (not yet trimmed): an LFO or a media source.
fn parse_source_terms(v: &Vec<char>, lo: usize, hi: usize) -> (r: Result<SourceSpec, RenderError>)
    requires
        lo <= hi <= v@.len(),
    ensures
        r is Ok <==> source_terms(trim_spec(v@.subrange(lo as int, hi as int))) is Ok,
        r matches Ok(src) ==> Ok::<SourceTerms, Seq<char>>(source_spec_terms(src)) == source_terms(
            trim_spec(v@.subrange(lo as int, hi as int)),
        ),
        route_refused(v@, r, source_terms(trim_spec(v@.subrange(lo as int, hi as int)))),
{
    let (slo, shi) = trim_range(v, lo, hi);
    if range_starts_with(v, slo, shi, "lfo(") {
        parse_lfo_terms(v, slo, shi)
    } else {
        let src_text = string_from_range(v, slo, shi);
        match ModulationSource::parse(src_text.as_str()) {
            Some(m) => Ok(SourceSpec::Media(m)),
            None => {
                let d = quoted_text(
                    "unknown source '",
                    &src_text,
                    "' (available: audio-rms, audio-onset, audio-centroid, luma, flow, lfo)",
                );
                Err(bad_route(v, d.as_str()))
            },
        }
    }
}

/// Parses the route grammar
/// `<target>=[<name>.]<source>[:<scale>[,<offset>]][@hold|@smooth]`.
/// Scale, offset, LFO rate and phase are returned as trimmed text; a refusal
/// quotes the route and says what is wrong with it.
pub fn parse_route_spec(spec: &str) -> (r: Result<RouteSpec, RenderError>)
    ensures
        r is Ok <==> route_terms(spec@) is Ok,
        r matches Ok(rs) ==> Ok::<RouteTerms, Seq<char>>(route_spec_terms(rs)) == route_terms(spec@) && rs.text@ == spec@,
        r matches Err(e) ==> route_terms(spec@) is Err && (e matches RenderError::InvalidModulationRoute(
            d,
        ) && d@ == route_message(spec@, route_terms(spec@)->Err_0)),
{
    let v = chars_of(spec);
    let ghost s = v@;
    let (body_end, sampling) = match parse_sampling_suffix(&v) {
        Ok(x) => x,
        Err(e) => {
            return Err(e);
        },
    };
    let ghost body = s.subrange(0, body_end as int);
    let eq = find_first(&v, 0, body_end, '=');
    if eq == body_end {
        return Err(bad_route(&v, "missing '='"));
    }
    proof {
        lemma_subrange_of_subrange(s, 0, body_end as int, 0, eq as int);
    }
    let target = trimmed_string(&v, 0, eq);
    if target.as_str().is_empty() {
        return Err(bad_route(&v, "empty target"));
    }
    let rest_lo = eq + 1;
    let ghost rest = body.subrange(eq + 1, body.len() as int);
    assert(rest =~= s.subrange(rest_lo as int, body_end as int));
    let colon = find_first(&v, rest_lo, body_end, ':');
    assert(rest.subrange(0, colon - rest_lo) =~= s.subrange(rest_lo as int, colon as int));
    let (modulator, src_lo) = match parse_modulator_prefix(&v, rest_lo, colon) {
        Ok(x) => x,
        Err(e) => {
            return Err(e);
        },
    };
    let source = match parse_source_terms(&v, src_lo, colon) {
        Ok(x) => x,
        Err(e) => {
            return Err(e);
        },
    };
    let (scale_text, offset_text) = if colon == body_end {
        (None, None)
    } else {
        assert(rest.subrange(colon + 1 - rest_lo, rest.len() as int) =~= s.subrange(
            colon + 1,
            body_end as int,
        ));
        parse_param_texts(&v, colon + 1, body_end)
    };
    Ok(
        RouteSpec {
            text: string_from_str(spec),
            target,
            modulator,
            source,
            scale_text,
            offset_text,
            sampling,
        },
    )
}

/// The bit pattern of `1.0f32`: the default scale and LFO rate.
pub const ONE_F32_BITS: u32 = 0x3f80_0000;

/// One patch cable: `settings.<target> = clamp(envelope(t)·scale + offset)`.
/// `scale` and `offset` are `f32` bit patterns.
#[derive(Debug, PartialEq, Eq)]
pub struct ModulationRoute {
    /// Knob name on the effect's settings.
    pub target: String,
    pub source: ModulationSource,
    pub scale: u32,
    pub offset: u32,
    /// Per-route sampling override; `None` inherits the render-level sampling.
    pub sampling: Option<ModulationSampling>,
    /// Named modulator this route reads; `None` reads the default media.
    pub modulator: Option<String>,
}

/// The value of an optional number of a route: `default` where its text is
/// absent, otherwise the bit pattern the text spells (`None` where the text
/// is not a number).
pub open spec fn number_or(text: Option<Seq<char>>, parsed: Option<u32>, default: u32) -> Option<u32> {
    match text {
        None => Some(default),
        Some(_) => parsed,
    }
}

/// The first refusal among an LFO's numbers, in the order they are read:
/// the rate (a number, finite and positive), the phase (a number, finite),
/// then arguments past the phase.
pub open spec fn lfo_refusal(
    rate_text: Option<Seq<char>>,
    phase_text: Option<Seq<char>>,
    extra: bool,
    rate_hz: Option<u32>,
    phase: Option<u32>,
) -> Option<Seq<char>> {
    let rate = number_or(rate_text, rate_hz, ONE_F32_BITS);
    let ph = number_or(phase_text, phase, 0);
    if rate is None {
        Some(quoting("invalid lfo rate_hz '"@, rate_text->0, "'"@))
    } else if !(f32_bits_finite(rate->0) && f32_bits_positive(rate->0)) {
        Some("lfo rate_hz must be finite and greater than 0"@)
    } else if ph is None {
        Some(quoting("invalid lfo phase '"@, phase_text->0, "'"@))
    } else if !f32_bits_finite(ph->0) {
        Some("lfo phase must be finite"@)
    } else if extra {
        Some("lfo(...) accepts at most shape, rate_hz, phase"@)
    } else {
        None
    }
}

/// The first refusal among a parsed route's numbers, in the order they are
/// read: an LFO's numbers, the scale and offset (numbers), then both
/// finite. `None` when the route is accepted.
pub open spec fn route_numbers_refusal(
    t: RouteTerms,
    scale: Option<u32>,
    offset: Option<u32>,
    rate_hz: Option<u32>,
    phase: Option<u32>,
) -> Option<Seq<char>> {
    let source_refusal = match t.source {
        SourceTerms::Media(_) => None,
        SourceTerms::Lfo { rate, phase: phase_text, extra, .. } => lfo_refusal(
            rate,
            phase_text,
            extra,
            rate_hz,
            phase,
        ),
    };
    let sc = number_or(t.scale, scale, ONE_F32_BITS);
    let off = number_or(t.offset, offset, 0);
    if source_refusal is Some {
        source_refusal
    } else if sc is None {
        Some(quoting("invalid scale '"@, t.scale->0, "'"@))
    } else if off is None {
        Some(quoting("invalid offset '"@, t.offset->0, "'"@))
    } else if !(f32_bits_finite(sc->0) && f32_bits_finite(off->0)) {
        Some("scale and offset must be finite"@)
    } else {
        None
    }
}

/// The source a parsed clause stands for once its numbers are known.
pub open spec fn assembled_source(src: SourceTerms, rate_hz: Option<u32>, phase: Option<u32>) -> ModulationSource {
    match src {
        SourceTerms::Media(m) => m,
        SourceTerms::Lfo { shape, rate, phase: phase_text, .. } => ModulationSource::Lfo {
            shape,
            rate_hz: number_or(rate, rate_hz, ONE_F32_BITS)->0,
            phase: number_or(phase_text, phase, 0)->0,
        },
    }
}

/// The number a present text spells, `None` when it spells none; the
/// default when the text is absent.
fn number_value(text: &Option<String>, parsed: Option<u32>, default: u32) -> (r: Option<u32>)
    ensures
        r == number_or(opt_text(*text), parsed, default),
{
    match text {
        None => Some(default),
        Some(_) => parsed,
    }
}

/// Completes a parsed route with its numbers: for each of the scale,
/// offset, LFO rate and phase texts that is present, the bit pattern of the
/// `f32` it spells, or `None` where it spells none. Absent numbers take
/// their defaults (scale and rate `1.0`, offset and phase `0.0`). The
/// numbers are checked in the order the grammar reads them, and the first
/// refusal quotes the route.
pub fn assemble_route(
    spec: RouteSpec,
    scale: Option<u32>,
    offset: Option<u32>,
    rate_hz: Option<u32>,
    phase: Option<u32>,
) -> (r: Result<ModulationRoute, RenderError>)
    ensures
        r is Ok <==> route_numbers_refusal(route_spec_terms(spec), scale, offset, rate_hz, phase) is None,
        r matches Ok(route) ==> {
            let t = route_spec_terms(spec);
            &&& route.target@ == spec.target@
            &&& route.source == assembled_source(t.source, rate_hz, phase)
            &&& route.scale == number_or(t.scale, scale, ONE_F32_BITS)->0
            &&& route.offset == number_or(t.offset, offset, 0)->0
            &&& route.sampling == spec.sampling
            &&& opt_text(route.modulator) == opt_text(spec.modulator)
        },
        r matches Err(e) ==> (e matches RenderError::InvalidModulationRoute(d) && d@ == route_message(
            spec.text@,
            route_numbers_refusal(route_spec_terms(spec), scale, offset, rate_hz, phase)->0,
        )),
{
    let spec_chars = chars_of(spec.text.as_str());
    let source = match &spec.source {
        SourceSpec::Media(m) => *m,
        SourceSpec::Lfo { shape, rate_text, phase_text, extra_args } => {
            let rate = match number_value(rate_text, rate_hz, ONE_F32_BITS) {
                Some(b) => b,
                None => {
                    let d = quoted_text("invalid lfo rate_hz '", rate_text.as_ref().unwrap(), "'");
                    return Err(bad_route(&spec_chars, d.as_str()));
                },
            };
            if !is_finite_bits(rate) || !is_positive_bits(rate) {
                return Err(
                    bad_route(&spec_chars, "lfo rate_hz must be finite and greater than 0"),
                );
            }
            let ph = match number_value(phase_text, phase, 0) {
                Some(b) => b,
                None => {
                    let d = quoted_text("invalid lfo phase '", phase_text.as_ref().unwrap(), "'");
                    return Err(bad_route(&spec_chars, d.as_str()));
                },
            };
            if !is_finite_bits(ph) {
                return Err(bad_route(&spec_chars, "lfo phase must be finite"));
            }
            if *extra_args {
                return Err(bad_route(&spec_chars, "lfo(...) accepts at most shape, rate_hz, phase"));
            }
            ModulationSource::Lfo { shape: *shape, rate_hz: rate, phase: ph }
        },
    };
    let scale_bits = match number_value(&spec.scale_text, scale, ONE_F32_BITS) {
        Some(b) => b,
        None => {
            let d = quoted_text("invalid scale '", spec.scale_text.as_ref().unwrap(), "'");
            return Err(bad_route(&spec_chars, d.as_str()));
        },
    };
    let offset_bits = match number_value(&spec.offset_text, offset, 0) {
        Some(b) => b,
        None => {
            let d = quoted_text("invalid offset '", spec.offset_text.as_ref().unwrap(), "'");
            return Err(bad_route(&spec_chars, d.as_str()));
        },
    };
    if !is_finite_bits(scale_bits) || !is_finite_bits(offset_bits) {
        return Err(bad_route(&spec_chars, "scale and offset must be finite"));
    }
    Ok(
        ModulationRoute {
            target: spec.target,
            source,
            scale: scale_bits,
            offset: offset_bits,
            sampling: spec.sampling,
            modulator: spec.modulator,
        },
    )
}

/// Route `j` drives a target that an earlier route already drives.
pub open spec fn repeats_earlier_target(routes: Seq<ModulationRoute>, j: int) -> bool {
    exists|i: int| 0 <= i < j && #[trigger] routes[i].target@ == routes[j].target@
}

/// The detail of the duplicate-target refusal.
pub open spec fn duplicate_target_detail(target: Seq<char>) -> Seq<char> {
    "target '"@ + target + "' is driven by more than one route"@
}

fn duplicate_target_error(target: &String) -> (e: RenderError)
    ensures
        e matches RenderError::InvalidModulationRoute(d) && d@ == duplicate_target_detail(target@),
{
    let mut d = String::from_str("target '");
    let tv = chars_of(target.as_str());
    push_chars(&mut d, &tv);
    d.append("' is driven by more than one route");
    proof {
        reveal_strlit("target '");
        reveal_strlit("' is driven by more than one route");
    }
    RenderError::InvalidModulationRoute(d)
}

/// Refuses two routes that drive the same target; the error names the first
/// route (in order) whose target an earlier route already drives.
pub fn validate_route_targets(routes: &[ModulationRoute]) -> (r: Result<(), RenderError>)
    ensures
        r is Ok <==> forall|j: int| 0 <= j < routes@.len() ==> !repeats_earlier_target(routes@, j),
        r matches Err(e) ==> exists|j: int|
            0 <= j < routes@.len() && repeats_earlier_target(routes@, j) && (forall|k: int|
                0 <= k < j ==> !repeats_earlier_target(routes@, k)) && (e matches RenderError::InvalidModulationRoute(d)
                && d@ == duplicate_target_detail(routes@[j].target@)),
{
    let mut j: usize = 0;
    while j < routes.len()
        invariant
            j <= routes@.len(),
            forall|k: int| 0 <= k < j ==> !repeats_earlier_target(routes@, k),
        decreases routes.len() - j,
    {
        let mut i: usize = 0;
        while i < j
            invariant
                i <= j < routes@.len(),
                forall|k: int| 0 <= k < j ==> !repeats_earlier_target(routes@, k),
                forall|k: int| 0 <= k < i ==> routes@[k].target@ != routes@[j as int].target@,
            decreases j - i,
        {
            if str_eq(routes[i].target.as_str(), routes[j].target.as_str()) {
                let e = duplicate_target_error(&routes[j].target);
                proof {
                    assert(routes@[i as int].target@ == routes@[j as int].target@);
                    assert(repeats_earlier_target(routes@, j as int));
                }
                return Err(e);
            }
            i = i + 1;
        }
        proof {
            assert(!repeats_earlier_target(routes@, j as int));
        }
        j = j + 1;
    }
    Ok(())
}

/// The retro-static knobs a route may drive.
pub const RETRO_STATIC_MODULATION_TARGETS: [&'static str; 2] = ["strength", "filter"];

/// The pixel-sort knobs a route may drive.
pub const PIXEL_SORT_MODULATION_TARGETS: [&'static str; 4] = [
    "threshold_low",
    "threshold_high",
    "direction",
    "axis",
];

/// The channel-shift knobs a route may drive.
pub const CHANNEL_SHIFT_MODULATION_TARGETS: [&'static str; 6] = [
    "shift_r_x",
    "shift_r_y",
    "shift_g_x",
    "shift_g_y",
    "shift_b_x",
    "shift_b_y",
];

/// The palette-quantize knobs a route may drive.
pub const PALETTE_QUANTIZE_MODULATION_TARGETS: [&'static str; 2] = ["levels", "mode"];

/// The rutt-etra knobs a route may drive.
pub const RUTT_ETRA_MODULATION_TARGETS: [&'static str; 3] = [
    "displacement_depth",
    "line_pitch",
    "line_thickness",
];

/// The flow-feedback knobs a route may drive (the structure mode is excluded).
pub const FLOW_FEEDBACK_MODULATION_TARGETS: [&'static str; 5] = [
    "carrier_amount",
    "feedback_amount",
    "feedback_mix",
    "decay",
    "structure_mix",
];

/// The fluid-advect knobs a route may drive (the seed is excluded).
pub const FLUID_ADVECT_MODULATION_TARGETS: [&'static str; 5] = [
    "advect",
    "turbulence_scale",
    "turbulence_speed",
    "detail",
    "reinject",
];

/// The two-source fluid-advect knobs a route may drive.
pub const FLUID_ADVECT_TWO_SOURCE_MODULATION_TARGETS: [&'static str; 2] = ["advect", "reinject"];

/// The position of `target` in an effect's registry, if it is there.
pub fn target_position(available: &[&str], target: &str) -> (r: Option<usize>)
    ensures
        r matches Some(k) ==> k < available@.len() && available@[k as int]@ == target@ && forall|
            j: int,
        | 0 <= j < k ==> available@[j]@ != target@,
        r is None ==> forall|j: int| 0 <= j < available@.len() ==> available@[j]@ != target@,
{
    let mut i: usize = 0;
    while i < available.len()
        invariant
            i <= available@.len(),
            forall|j: int| 0 <= j < i ==> available@[j]@ != target@,
        decreases available.len() - i,
    {
        if str_eq(available[i], target) {
            return Some(i);
        }
        i = i + 1;
    }
    None
}

/// The knob names of `available` joined by `", "`.
pub open spec fn joined_names(available: Seq<Seq<char>>) -> Seq<char>
    decreases available.len(),
{
    if available.len() == 0 {
        Seq::empty()
    } else if available.len() == 1 {
        available[0]
    } else {
        joined_names(available.drop_last()) + ", "@ + available.last()
    }
}

/// The detail of the refusal of a target that an effect's registry lacks.
pub open spec fn unknown_target_detail(effect: Seq<char>, target: Seq<char>, available: Seq<Seq<char>>) -> Seq<char> {
    "unknown "@ + effect + " modulation target '"@ + target + "' (available: "@ + joined_names(
        available,
    ) + ")"@
}

/// The views of a list of names.
pub open spec fn name_views(names: Seq<&str>) -> Seq<Seq<char>> {
    Seq::new(names.len(), |i: int| names[i]@)
}

/// Appends the names of `available` joined by `", "`.
fn push_joined(out: &mut String, available: &[&str])
    ensures
        final(out)@ == old(out)@ + joined_names(name_views(available@)),
{
    let ghost start = out@;
    let mut i: usize = 0;
    while i < available.len()
        invariant
            i <= available@.len(),
            out@ == start + joined_names(name_views(available@.take(i as int))),
        decreases available.len() - i,
    {
        let ghost before = out@;
        if i > 0 {
            out.append(", ");
        }
        out.append(available[i]);
        proof {
            reveal_strlit(", ");
            let prefix = available@.take(i as int + 1);
            assert(name_views(prefix).drop_last() =~= name_views(available@.take(i as int)));
            assert(name_views(prefix).last() == available@[i as int]@);
            if i == 0 {
                assert(name_views(available@.take(0)) =~= Seq::<Seq<char>>::empty());
                assert(joined_names(name_views(available@.take(0))) =~= Seq::<char>::empty());
                assert(name_views(prefix).len() == 1);
                assert(out@ =~= start + joined_names(name_views(prefix)));
            } else {
                assert(out@ =~= start + joined_names(name_views(prefix)));
            }
        }
        i = i + 1;
    }
    assert(available@.take(available@.len() as int) =~= available@);
}

/// The refusal of `target`, which the `effect` registry `available` lacks.
pub fn unknown_target(effect: &str, target: &str, available: &[&str]) -> (e: RenderError)
    ensures
        e matches RenderError::InvalidModulationRoute(d) && d@ == unknown_target_detail(
            effect@,
            target@,
            name_views(available@),
        ),
{
    let mut d = String::from_str("unknown ");
    d.append(effect);
    d.append(" modulation target '");
    d.append(target);
    d.append("' (available: ");
    push_joined(&mut d, available);
    d.append(")");
    proof {
        reveal_strlit("unknown ");
        reveal_strlit(" modulation target '");
        reveal_strlit("' (available: ");
        reveal_strlit(")");
    }
    RenderError::InvalidModulationRoute(d)
}

} // verus!
