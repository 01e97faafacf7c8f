//! Spelling a route back in the grammar it was parsed from, and the law that
//! parsing a spelled route gives the route back.

use vstd::prelude::*;
use crate::text::is_whitespace_spec;
use crate::modulation::{
    LfoShape, ModulationSampling, ModulationSource, SourceTerms, RouteTerms, lfo_shape_name,
    source_name, sampling_named, split_sampling, split_params, lfo_terms, source_terms,
    split_modulator, route_terms,
    law_source_requirements_partition, law_lfo_shape_round_trip, SourceSpec, source_spec_terms,
};
use crate::scan::{
    first_from, last_before, trim_spec, skip_ws, back_ws, starts_with_spec,
    lemma_first_from_bounds, lemma_last_before_bounds,
};

verus! {

/// No character of `x` is whitespace.
pub open spec fn no_space(x: Seq<char>) -> bool {
    forall|i: int| 0 <= i < x.len() ==> !is_whitespace_spec(#[trigger] x[i])
}

/// No character of `x` is `c`.
pub open spec fn avoids(x: Seq<char>, c: char) -> bool {
    forall|i: int| 0 <= i < x.len() ==> #[trigger] x[i] != c
}

/// Text without whitespace is its own trim.
pub proof fn lemma_trim_no_space(x: Seq<char>)
    requires
        no_space(x),
    ensures
        trim_spec(x) == x,
{
    assert(skip_ws(x, 0) == 0);
    assert(back_ws(x, 0, x.len() as int) == x.len());
    assert(x.subrange(0, x.len() as int) =~= x);
}

/// The first `c` in `s` is at `k` when none comes before `k` and `s[k]` is
/// `c` (or `k` is the end).
pub proof fn lemma_first_at(s: Seq<char>, c: char, k: int)
    requires
        0 <= k <= s.len(),
        forall|j: int| 0 <= j < k ==> s[j] != c,
        k < s.len() ==> s[k] == c,
    ensures
        first_from(s, c, 0) == k,
{
    lemma_first_from_bounds(s, c, 0);
    let f = first_from(s, c, 0);
    if f < k {
        assert(s[f] == c);
    }
    if f > k {
        assert(s[k] != c);
    }
}

/// The last `c` in `s` is at `k` when none comes after `k` and `s[k]` is `c`
/// (or `k` is `-1`).
pub proof fn lemma_last_at(s: Seq<char>, c: char, k: int)
    requires
        -1 <= k < s.len(),
        forall|j: int| k < j < s.len() ==> s[j] != c,
        k >= 0 ==> s[k] == c,
    ensures
        last_before(s, c, s.len() as int) == k,
{
    lemma_last_before_bounds(s, c, s.len() as int);
    let l = last_before(s, c, s.len() as int);
    if l > k {
        assert(s[l] == c);
    }
    if l < k {
        assert(s[k] != c);
    }
}

/// A fixed word of the grammar: no whitespace and none of the grammar's
/// separators.
pub open spec fn fixed_word(x: Seq<char>) -> bool {
    &&& no_space(x)
    &&& avoids(x, ':')
    &&& avoids(x, '@')
    &&& avoids(x, '.')
    &&& avoids(x, ',')
    &&& avoids(x, '=')
    &&& avoids(x, '(')
}

/// The spelling of a sampling mode in the suffix.
pub open spec fn sampling_text(m: ModulationSampling) -> Seq<char> {
    match m {
        ModulationSampling::Hold => "hold"@,
        ModulationSampling::Smooth => "smooth"@,
    }
}

proof fn lemma_word_audio_rms()
    ensures
        fixed_word("audio-rms"@),
{
    reveal_strlit("audio-rms");
}

proof fn lemma_word_audio_onset()
    ensures
        fixed_word("audio-onset"@),
{
    reveal_strlit("audio-onset");
}

proof fn lemma_word_audio_centroid()
    ensures
        fixed_word("audio-centroid"@),
{
    reveal_strlit("audio-centroid");
}

proof fn lemma_word_luma()
    ensures
        fixed_word("luma"@),
{
    reveal_strlit("luma");
}

proof fn lemma_word_flow()
    ensures
        fixed_word("flow"@),
{
    reveal_strlit("flow");
}

/// Every media source is spelled with a fixed word.
pub proof fn lemma_media_words(m: ModulationSource)
    requires
        !(m is Lfo),
    ensures
        fixed_word(source_name(m)),
{
    lemma_word_audio_rms();
    lemma_word_audio_onset();
    lemma_word_audio_centroid();
    lemma_word_luma();
    lemma_word_flow();
}

/// Every LFO shape is spelled with a fixed word.
pub proof fn lemma_shape_words(shape: LfoShape)
    ensures
        fixed_word(lfo_shape_name(shape)),
{
    reveal_strlit("sine");
    reveal_strlit("triangle");
    reveal_strlit("square");
    reveal_strlit("saw");
}

/// Every sampling mode is spelled with a fixed word.
pub proof fn lemma_sampling_words(m: ModulationSampling)
    ensures
        fixed_word(sampling_text(m)),
{
    reveal_strlit("hold");
    reveal_strlit("smooth");
}

/// The text of a route's optional sampling suffix.
pub open spec fn suffix_text(sampling: Option<ModulationSampling>) -> Seq<char> {
    match sampling {
        None => Seq::empty(),
        Some(m) => "@"@ + sampling_text(m),
    }
}

/// The text of a route's optional `:<scale>[,<offset>]` clause.
pub open spec fn params_text(scale: Option<Seq<char>>, offset: Option<Seq<char>>) -> Seq<char> {
    match scale {
        None => Seq::empty(),
        Some(sc) => ":"@ + sc + match offset {
            None => Seq::empty(),
            Some(o) => ","@ + o,
        },
    }
}

/// The parameter clause's texts: the scale without `,` (the first comma
/// ends it), neither with whitespace or `@`.
pub open spec fn params_spellable(scale: Option<Seq<char>>, offset: Option<Seq<char>>) -> bool {
    &&& (scale is None ==> offset is None)
    &&& (scale matches Some(sc) ==> no_space(sc) && avoids(sc, ',') && avoids(sc, '@'))
    &&& (offset matches Some(o) ==> no_space(o) && avoids(o, '@'))
}

proof fn lemma_sampling_round_trip(m: ModulationSampling)
    ensures
        sampling_named(sampling_text(m)) == Some(m),
{
    reveal_strlit("hold");
    reveal_strlit("smooth");
    assert("hold"@.len() != "smooth"@.len());
}

/// The suffix comes off a body without `@`.
proof fn lemma_split_suffix(body: Seq<char>, sampling: Option<ModulationSampling>)
    requires
        avoids(body, '@'),
    ensures
        split_sampling(body + suffix_text(sampling)) == Ok::<(Seq<char>, Option<ModulationSampling>), Seq<char>>((body, sampling)),
{
    let s = body + suffix_text(sampling);
    match sampling {
        None => {
            assert(s =~= body);
            lemma_last_at(s, '@', -1);
        },
        Some(m) => {
            reveal_strlit("@");
            lemma_sampling_words(m);
            let w = sampling_text(m);
            assert(s =~= body + seq!['@'] + w);
            lemma_last_at(s, '@', body.len() as int);
            assert(s.subrange(body.len() as int + 1, s.len() as int) =~= w);
            assert(s.subrange(0, body.len() as int) =~= body);
            lemma_trim_no_space(w);
            lemma_sampling_round_trip(m);
        },
    }
}

/// The parameter clause splits back into its scale and offset texts.
proof fn lemma_split_params_text(sc: Seq<char>, offset: Option<Seq<char>>)
    requires
        params_spellable(Some(sc), offset),
    ensures
        split_params(params_text(Some(sc), offset).drop_first()) == (Some(sc), offset),
{
    reveal_strlit(":");
    reveal_strlit(",");
    let p = params_text(Some(sc), offset).drop_first();
    lemma_trim_no_space(sc);
    match offset {
        None => {
            assert(p =~= sc);
            lemma_first_at(p, ',', p.len() as int);
        },
        Some(o) => {
            assert(p =~= sc + seq![','] + o);
            lemma_first_at(p, ',', sc.len() as int);
            assert(p.subrange(0, sc.len() as int) =~= sc);
            assert(p.subrange(sc.len() as int + 1, p.len() as int) =~= o);
            lemma_trim_no_space(o);
        },
    }
}

/// The text of an LFO's optional `,<rate_hz>[,<phase>]` arguments.
pub open spec fn lfo_tail(rate: Option<Seq<char>>, phase: Option<Seq<char>>) -> Seq<char> {
    match rate {
        None => Seq::empty(),
        Some(r) => ","@ + r + match phase {
            None => Seq::empty(),
            Some(ph) => ","@ + ph,
        },
    }
}

/// The text of a source clause: a media source's name, or
/// `lfo(<shape>[,<rate_hz>[,<phase>]])`.
pub open spec fn source_text(source: SourceTerms) -> Seq<char> {
    match source {
        SourceTerms::Media(m) => source_name(m),
        SourceTerms::Lfo { shape, rate, phase, .. } => "lfo("@ + lfo_shape_name(shape) + lfo_tail(
            rate,
            phase,
        ) + ")"@,
    }
}

/// A number's text inside an LFO clause: no whitespace, and none of `,`,
/// `:` or `@`.
pub open spec fn lfo_number(x: Seq<char>) -> bool {
    no_space(x) && avoids(x, ',') && avoids(x, ':') && avoids(x, '@')
}

/// A source clause the grammar can spell: a media source, or an LFO whose
/// optional numbers are LFO numbers (a phase only after a rate).
pub open spec fn source_spellable(source: SourceTerms) -> bool {
    match source {
        SourceTerms::Media(m) => !(m is Lfo),
        SourceTerms::Lfo { shape, rate, phase, extra } => {
            &&& !extra
            &&& (rate matches Some(r) ==> lfo_number(r))
            &&& (phase matches Some(ph) ==> rate is Some && lfo_number(ph))
        },
    }
}

/// A spellable source clause has no whitespace and none of `:` and `@`.
proof fn lemma_source_text_chars(source: SourceTerms)
    requires
        source_spellable(source),
    ensures
        no_space(source_text(source)),
        avoids(source_text(source), ':'),
        avoids(source_text(source), '@'),
{
    match source {
        SourceTerms::Media(m) => {
            lemma_media_words(m);
        },
        SourceTerms::Lfo { shape, rate, phase, .. } => {
            reveal_strlit("lfo(");
            reveal_strlit(",");
            reveal_strlit(")");
            lemma_shape_words(shape);
            let t = source_text(source);
            let tail = lfo_tail(rate, phase);
            assert(no_space(tail) && avoids(tail, ':') && avoids(tail, '@')) by {
                match rate {
                    None => {},
                    Some(r) => {
                        match phase {
                            None => {
                                assert(tail =~= seq![','] + r);
                            },
                            Some(ph) => {
                                assert(tail =~= seq![','] + r + seq![','] + ph);
                            },
                        }
                    },
                }
            }
            assert(t =~= seq!['l', 'f', 'o', '('] + lfo_shape_name(shape) + tail + seq![')']);
        },
    }
}

/// An LFO clause parses back into its shape and number texts.
proof fn lemma_lfo_round_trip(shape: LfoShape, rate: Option<Seq<char>>, phase: Option<Seq<char>>)
    requires
        source_spellable(SourceTerms::Lfo { shape, rate, phase, extra: false }),
    ensures
        lfo_terms(source_text(SourceTerms::Lfo { shape, rate, phase, extra: false })) == Ok::<
            SourceTerms,
            Seq<char>,
        >(SourceTerms::Lfo { shape, rate, phase, extra: false }),
{
    reveal_strlit("lfo(");
    reveal_strlit(",");
    reveal_strlit(")");
    lemma_shape_words(shape);
    law_lfo_shape_round_trip(shape);
    let name = lfo_shape_name(shape);
    let tail = lfo_tail(rate, phase);
    let t = source_text(SourceTerms::Lfo { shape, rate, phase, extra: false });
    assert(t =~= seq!['l', 'f', 'o', '('] + name + tail + seq![')']);
    assert(t.subrange(0, 4) =~= "lfo("@);
    assert(starts_with_spec(t, "lfo("@));
    let inner = t.subrange(4, t.len() - 1);
    assert(inner =~= name + tail);
    lemma_trim_no_space(name);
    match rate {
        None => {
            assert(inner =~= name);
            lemma_first_at(inner, ',', inner.len() as int);
            assert(inner.subrange(0, inner.len() as int) =~= name);
        },
        Some(r) => {
            lemma_first_at(inner, ',', name.len() as int);
            assert(inner.subrange(0, name.len() as int) =~= name);
            let rs = inner.subrange(name.len() as int + 1, inner.len() as int);
            lemma_trim_no_space(r);
            match phase {
                None => {
                    assert(rs =~= r);
                    lemma_first_at(rs, ',', rs.len() as int);
                    assert(rs.subrange(0, rs.len() as int) =~= r);
                },
                Some(ph) => {
                    assert(rs =~= r + seq![','] + ph);
                    lemma_first_at(rs, ',', r.len() as int);
                    assert(rs.subrange(0, r.len() as int) =~= r);
                    let q = rs.subrange(r.len() as int + 1, rs.len() as int);
                    assert(q =~= ph);
                    lemma_first_at(q, ',', q.len() as int);
                    assert(q.subrange(0, q.len() as int) =~= ph);
                    lemma_trim_no_space(ph);
                },
            }
        },
    }
}

/// A spellable source clause parses back into itself.
proof fn lemma_source_round_trip(source: SourceTerms)
    requires
        source_spellable(source),
    ensures
        source_terms(source_text(source)) == Ok::<SourceTerms, Seq<char>>(source),
{
    reveal_strlit("lfo(");
    match source {
        SourceTerms::Media(m) => {
            lemma_media_words(m);
            law_source_requirements_partition(m);
            let name = source_name(m);
            if starts_with_spec(name, "lfo("@) {
                assert(name[3] == name.subrange(0, 4)[3]);
            }
        },
        SourceTerms::Lfo { shape, rate, phase, .. } => {
            lemma_lfo_round_trip(shape, rate, phase);
            let t = source_text(source);
            assert(t.subrange(0, 4) =~= "lfo("@);
        },
    }
}

/// The text of a route's optional `<name>.` prefix.
pub open spec fn modulator_text(modulator: Option<Seq<char>>) -> Seq<char> {
    match modulator {
        None => Seq::empty(),
        Some(m) => m + "."@,
    }
}

/// A modulator prefix the grammar can spell: a non-empty name without
/// whitespace, `.`, `:`, `@` or `(`, and only before a media source.
pub open spec fn modulator_spellable(modulator: Option<Seq<char>>, source: SourceTerms) -> bool {
    modulator matches Some(m) ==> {
        &&& m.len() > 0
        &&& no_space(m)
        &&& avoids(m, '.')
        &&& avoids(m, ':')
        &&& avoids(m, '@')
        &&& avoids(m, '(')
        &&& source is Media
    }
}

/// The optional prefix splits off a spellable source clause.
proof fn lemma_split_modulator_text(modulator: Option<Seq<char>>, source: SourceTerms)
    requires
        modulator_spellable(modulator, source),
        source_spellable(source),
    ensures
        split_modulator(modulator_text(modulator) + source_text(source)) == Ok::<
            (Option<Seq<char>>, Seq<char>),
            Seq<char>,
        >((modulator, source_text(source))),
{
    reveal_strlit("lfo(");
    reveal_strlit(".");
    lemma_source_text_chars(source);
    let src = source_text(source);
    let raw = modulator_text(modulator) + src;
    match modulator {
        None => {
            assert(raw =~= src);
            lemma_trim_no_space(raw);
            match source {
                SourceTerms::Lfo { .. } => {
                    assert(raw.subrange(0, 4) =~= "lfo("@);
                },
                SourceTerms::Media(m) => {
                    lemma_media_words(m);
                    if starts_with_spec(raw, "lfo("@) {
                        assert(raw[3] == raw.subrange(0, 4)[3]);
                    }
                    lemma_first_at(raw, '.', raw.len() as int);
                },
            }
        },
        Some(m) => {
            let name = source_name(source->Media_0);
            lemma_media_words(source->Media_0);
            assert(raw =~= m + seq!['.'] + name);
            assert(no_space(raw));
            lemma_trim_no_space(raw);
            if starts_with_spec(raw, "lfo("@) {
                assert(raw[3] == raw.subrange(0, 4)[3]);
                assert(raw[3] == '(');
            }
            lemma_first_at(raw, '.', m.len() as int);
            assert(raw.subrange(0, m.len() as int) =~= m);
            lemma_trim_no_space(m);
            let inner = raw.subrange(m.len() as int + 1, raw.len() as int);
            assert(inner =~= name);
            lemma_trim_no_space(name);
            if starts_with_spec(name, "lfo("@) {
                assert(name[3] == name.subrange(0, 4)[3]);
            }
        },
    }
}

/// The text of a route in the grammar
/// `<target>=[<name>.]<source>[:<scale>[,<offset>]][@hold|@smooth]`.
pub open spec fn route_text(t: RouteTerms) -> Seq<char> {
    t.target + "="@ + modulator_text(t.modulator) + source_text(t.source) + params_text(
        t.scale,
        t.offset,
    ) + suffix_text(t.sampling)
}

/// A route the grammar can spell: a non-empty target without whitespace,
/// `=` or `@`, a spellable prefix, source clause and parameters.
pub open spec fn route_spellable(t: RouteTerms) -> bool {
    &&& t.target.len() > 0
    &&& no_space(t.target)
    &&& avoids(t.target, '=')
    &&& avoids(t.target, '@')
    &&& modulator_spellable(t.modulator, t.source)
    &&& source_spellable(t.source)
    &&& params_spellable(t.scale, t.offset)
}

/// Parsing a spelled route gives the route back: every clause the grammar
/// parses — target, named modulator, source (an LFO's shape and number
/// texts included), scale, offset and sampling suffix — survives spelling.
pub proof fn law_route_text_round_trip(t: RouteTerms)
    requires
        route_spellable(t),
    ensures
        route_terms(route_text(t)) == Ok::<RouteTerms, Seq<char>>(t),
{
    reveal_strlit("=");
    reveal_strlit(".");
    reveal_strlit(":");
    reveal_strlit(",");
    reveal_strlit("@");
    lemma_source_text_chars(t.source);
    let modt = modulator_text(t.modulator);
    let src = source_text(t.source);
    let params = params_text(t.scale, t.offset);
    let rest = modt + src + params;
    let body = t.target + seq!['='] + rest;
    assert(route_text(t) =~= body + suffix_text(t.sampling));
    assert(avoids(modt, '@') && avoids(modt, ':')) by {
        if let Some(m) = t.modulator {
            assert(modt =~= m + seq!['.']);
        }
    }
    assert(avoids(params, '@')) by {
        if let Some(sc) = t.scale {
            if let Some(o) = t.offset {
                assert(params =~= seq![':'] + sc + seq![','] + o);
            } else {
                assert(params =~= seq![':'] + sc);
            }
        }
    }
    assert(avoids(body, '@'));
    lemma_split_suffix(body, t.sampling);
    // The target ends at the first `=`.
    lemma_first_at(body, '=', t.target.len() as int);
    assert(body.subrange(0, t.target.len() as int) =~= t.target);
    lemma_trim_no_space(t.target);
    let r = body.subrange(t.target.len() as int + 1, body.len() as int);
    assert(r =~= rest);
    // The source clause ends at the first `:`.
    let colon = first_from(rest, ':', 0);
    let clause = modt + src;
    assert(avoids(clause, ':'));
    if t.scale is Some {
        assert(rest =~= clause + seq![':'] + params.drop_first());
        lemma_first_at(rest, ':', clause.len() as int);
        assert(rest.subrange(clause.len() as int + 1, rest.len() as int) =~= params.drop_first());
        lemma_split_params_text(t.scale->0, t.offset);
    } else {
        assert(rest =~= clause);
        lemma_first_at(rest, ':', rest.len() as int);
    }
    assert(rest.subrange(0, colon) =~= clause);
    lemma_split_modulator_text(t.modulator, t.source);
    lemma_trim_no_space(src);
    lemma_source_round_trip(t.source);
}

/// The source clause of a parsed source, spelled back: a media source's
/// name, or `lfo(<shape>[,<rate_hz>[,<phase>]])` with the number texts as
/// given (a phase is spelled only after a rate).
pub fn source_clause_text(source: &SourceSpec) -> (r: String)
    requires
        source matches SourceSpec::Lfo { rate_text, phase_text, .. } ==> (phase_text is Some
            ==> rate_text is Some),
    ensures
        r@ == source_text(source_spec_terms(*source)),
{
    match source {
        SourceSpec::Media(m) => String::from_str(m.name()),
        SourceSpec::Lfo { shape, rate_text, phase_text, .. } => {
            let mut r = String::from_str("lfo(");
            r.append(shape.name());
            match rate_text {
                None => {},
                Some(rate) => {
                    r.append(",");
                    r.append(rate.as_str());
                    match phase_text {
                        None => {},
                        Some(phase) => {
                            r.append(",");
                            r.append(phase.as_str());
                        },
                    }
                },
            }
            r.append(")");
            proof {
                let tail = lfo_tail(
                    source_spec_terms(*source)->Lfo_rate,
                    source_spec_terms(*source)->Lfo_phase,
                );
                assert(r@ =~= "lfo("@ + lfo_shape_name(*shape) + tail + ")"@);
            }
            r
        },
    }
}

} // verus!
