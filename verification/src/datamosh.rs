//! Datamosh policy: which policy id a configuration records, which output
//! frames are keyframes, and the block motion-vector remix (a seeded
//! shuffle or a magnitude sort of the block grid, expanded back to pixels).

use vstd::prelude::*;
use crate::hashing::{splitmix64, mix64_spec, splitmix_spec, SPLITMIX_INCREMENT};
use crate::float_bits::{
    f32_bits_positive, is_positive_bits, f32_bits_finite, f32_bits_negative, f32_bits_above_one,
    is_finite_bits, is_negative_bits, is_above_one_bits,
};
use crate::error::RenderError;
use crate::granular::{div_ceil, div_ceil_spec};
use crate::image::FlowFieldBits;

verus! {

/// Policy id of the smooth per-pixel bloom/melt.
pub const DATAMOSH_BLOOM_ALGORITHM: &'static str = "flow_reuse_datamosh_bloom_cpu_v1";

/// Policy id of the codec-simulated block datamosh.
pub const DATAMOSH_BLOCK_ALGORITHM: &'static str = "flow_reuse_datamosh_block_cpu_v1";

/// Policy id of the block datamosh with the accumulated intra-block residual.
pub const DATAMOSH_BLOCK_RESIDUAL_ALGORITHM: &'static str =
    "flow_reuse_datamosh_block_residual_cpu_v1";

/// Policy id of the block datamosh with the per-block keep/drop refresh.
pub const DATAMOSH_BLOCK_REFRESH_ALGORITHM: &'static str =
    "flow_reuse_datamosh_block_refresh_cpu_v1";

/// Policy id of the block datamosh with the motion-vector remix.
pub const DATAMOSH_VECTOR_REMIX_ALGORITHM: &'static str =
    "flow_reuse_datamosh_vector_remix_cpu_v1";

/// Policy id of the scanline-smear tier.
pub const DATAMOSH_SCANLINE_SMEAR_ALGORITHM: &'static str =
    "flow_reuse_datamosh_scanline_smear_cpu_v1";

/// Policy id of the codec-engrave tier.
pub const DATAMOSH_CODEC_ENGRAVE_ALGORITHM: &'static str =
    "flow_reuse_datamosh_codec_engrave_cpu_v1";

/// How the block motion-vector grid is remixed before advection.
#[derive(Debug, Clone, Copy, PartialEq, Eq, Structural)]
pub enum VectorRemixMode {
    /// No remix: the block-quantized flow is used unchanged.
    NoRemix,
    /// Block vectors reassigned in descending-magnitude order along the raster scan.
    Sort,
    /// A seeded permutation of the block vectors.
    Shuffle,
}

impl Default for VectorRemixMode {
    fn default() -> (r: Self)
        ensures
            r == VectorRemixMode::NoRemix,
    {
        VectorRemixMode::NoRemix
    }
}

/// Knobs of the scanline-smear tier; every `f32` knob is carried as its bit
/// pattern.
#[derive(Debug, Clone, Copy, PartialEq, Eq)]
pub struct ScanlineSmearSettings {
    pub line_height: u32,
    pub max_shift: u32,
    pub motion_gain: u32,
    pub wave_amplitude: u32,
    pub wave_frequency: u32,
    pub smear_mix: u32,
    pub structure_protect: u32,
    pub chroma_burst_rate: u32,
    pub chroma_burst_size: u32,
    pub seed: u64,
}

/// Knobs of the codec-engrave tier; every `f32` knob is carried as its bit
/// pattern.
#[derive(Debug, Clone, Copy, PartialEq, Eq)]
pub struct CodecEngraveSettings {
    pub block_size: u32,
    pub edge_gain: u32,
    pub hatch_strength: u32,
    pub hatch_frequency: u32,
    pub chroma_offset: u32,
    pub block_step: u32,
    pub foreground_boost: u32,
    pub micro_contrast: u32,
    pub seed: u64,
}

/// The `f32` is finite and not negative.
pub open spec fn finite_nonnegative(bits: u32) -> bool {
    f32_bits_finite(bits) && !f32_bits_negative(bits)
}

/// Positive line height and burst size, every knob finite and not negative,
/// and the three mix rates at most one.
pub open spec fn scanline_smear_valid(s: ScanlineSmearSettings) -> bool {
    &&& s.line_height > 0
    &&& s.chroma_burst_size > 0
    &&& finite_nonnegative(s.max_shift)
    &&& finite_nonnegative(s.motion_gain)
    &&& finite_nonnegative(s.wave_amplitude)
    &&& finite_nonnegative(s.wave_frequency)
    &&& finite_nonnegative(s.smear_mix)
    &&& finite_nonnegative(s.structure_protect)
    &&& finite_nonnegative(s.chroma_burst_rate)
    &&& !f32_bits_above_one(s.smear_mix)
    &&& !f32_bits_above_one(s.structure_protect)
    &&& !f32_bits_above_one(s.chroma_burst_rate)
}

/// A positive block size, every knob finite and not negative, and hatch
/// strength and block step at most one.
pub open spec fn codec_engrave_valid(s: CodecEngraveSettings) -> bool {
    &&& s.block_size > 0
    &&& finite_nonnegative(s.edge_gain)
    &&& finite_nonnegative(s.hatch_strength)
    &&& finite_nonnegative(s.hatch_frequency)
    &&& finite_nonnegative(s.chroma_offset)
    &&& finite_nonnegative(s.block_step)
    &&& finite_nonnegative(s.foreground_boost)
    &&& finite_nonnegative(s.micro_contrast)
    &&& !f32_bits_above_one(s.hatch_strength)
    &&& !f32_bits_above_one(s.block_step)
}

fn datamosh_error(detail: &str) -> (e: RenderError)
    ensures
        (e matches RenderError::InvalidDatamoshSettings(d) && d@ == detail@),
{
    RenderError::InvalidDatamoshSettings(String::from_str(detail))
}

fn is_finite_nonnegative(bits: u32) -> (r: bool)
    ensures
        r == finite_nonnegative(bits),
{
    is_finite_bits(bits) && !is_negative_bits(bits)
}

/// Refuses scanline-smear knobs the tier cannot run.
pub fn validate_scanline_smear_settings(settings: ScanlineSmearSettings) -> (r: Result<(), RenderError>)
    ensures
        r is Ok <==> scanline_smear_valid(settings),
        r matches Err(e) ==> e is InvalidDatamoshSettings,
{
    if settings.line_height == 0 {
        return Err(datamosh_error("line_height must be greater than zero"));
    }
    if settings.chroma_burst_size == 0 {
        return Err(datamosh_error("chroma_burst_size must be greater than zero"));
    }
    if !is_finite_nonnegative(settings.max_shift) {
        return Err(datamosh_error("max_shift must be finite and non-negative"));
    }
    if !is_finite_nonnegative(settings.motion_gain) {
        return Err(datamosh_error("motion_gain must be finite and non-negative"));
    }
    if !is_finite_nonnegative(settings.wave_amplitude) {
        return Err(datamosh_error("wave_amplitude must be finite and non-negative"));
    }
    if !is_finite_nonnegative(settings.wave_frequency) {
        return Err(datamosh_error("wave_frequency must be finite and non-negative"));
    }
    if !is_finite_nonnegative(settings.smear_mix) {
        return Err(datamosh_error("smear_mix must be finite and non-negative"));
    }
    if !is_finite_nonnegative(settings.structure_protect) {
        return Err(datamosh_error("structure_protect must be finite and non-negative"));
    }
    if !is_finite_nonnegative(settings.chroma_burst_rate) {
        return Err(datamosh_error("chroma_burst_rate must be finite and non-negative"));
    }
    if is_above_one_bits(settings.smear_mix) {
        return Err(datamosh_error("smear_mix must be in [0, 1]"));
    }
    if is_above_one_bits(settings.structure_protect) {
        return Err(datamosh_error("structure_protect must be in [0, 1]"));
    }
    if is_above_one_bits(settings.chroma_burst_rate) {
        return Err(datamosh_error("chroma_burst_rate must be in [0, 1]"));
    }
    Ok(())
}

/// Refuses codec-engrave knobs the tier cannot run.
pub fn validate_codec_engrave_settings(settings: CodecEngraveSettings) -> (r: Result<(), RenderError>)
    ensures
        r is Ok <==> codec_engrave_valid(settings),
        r matches Err(e) ==> e is InvalidDatamoshSettings,
{
    if settings.block_size == 0 {
        return Err(datamosh_error("codec engrave block_size must be greater than zero"));
    }
    if !is_finite_nonnegative(settings.edge_gain) {
        return Err(datamosh_error("edge_gain must be finite and non-negative"));
    }
    if !is_finite_nonnegative(settings.hatch_strength) {
        return Err(datamosh_error("hatch_strength must be finite and non-negative"));
    }
    if !is_finite_nonnegative(settings.hatch_frequency) {
        return Err(datamosh_error("hatch_frequency must be finite and non-negative"));
    }
    if !is_finite_nonnegative(settings.chroma_offset) {
        return Err(datamosh_error("chroma_offset must be finite and non-negative"));
    }
    if !is_finite_nonnegative(settings.block_step) {
        return Err(datamosh_error("block_step must be finite and non-negative"));
    }
    if !is_finite_nonnegative(settings.foreground_boost) {
        return Err(datamosh_error("foreground_boost must be finite and non-negative"));
    }
    if !is_finite_nonnegative(settings.micro_contrast) {
        return Err(datamosh_error("micro_contrast must be finite and non-negative"));
    }
    if is_above_one_bits(settings.hatch_strength) {
        return Err(datamosh_error("hatch_strength must be in [0, 1]"));
    }
    if is_above_one_bits(settings.block_step) {
        return Err(datamosh_error("block_step must be in [0, 1]"));
    }
    Ok(())
}

/// The policy id recorded for a configuration: the most specific active
/// policy wins. `residual_gain` and `refresh_threshold` are `f32` bit
/// patterns; a policy is active when its knob compares greater than zero.
pub open spec fn datamosh_algorithm_spec(
    block_size: u32,
    residual_gain: u32,
    refresh_threshold: u32,
    remix_mode: VectorRemixMode,
) -> Seq<char> {
    if block_size < 2 {
        DATAMOSH_BLOOM_ALGORITHM@
    } else if remix_mode != VectorRemixMode::NoRemix {
        DATAMOSH_VECTOR_REMIX_ALGORITHM@
    } else if f32_bits_positive(refresh_threshold) {
        DATAMOSH_BLOCK_REFRESH_ALGORITHM@
    } else if f32_bits_positive(residual_gain) {
        DATAMOSH_BLOCK_RESIDUAL_ALGORITHM@
    } else {
        DATAMOSH_BLOCK_ALGORITHM@
    }
}

/// The datamosh policy id for a block size, residual gain, refresh threshold
/// (both `f32` bit patterns) and remix mode.
pub fn datamosh_algorithm(
    block_size: u32,
    residual_gain: u32,
    refresh_threshold: u32,
    remix_mode: VectorRemixMode,
) -> (r: &'static str)
    ensures
        r@ == datamosh_algorithm_spec(block_size, residual_gain, refresh_threshold, remix_mode),
{
    if block_size < 2 {
        DATAMOSH_BLOOM_ALGORITHM
    } else if !matches!(remix_mode, VectorRemixMode::NoRemix) {
        DATAMOSH_VECTOR_REMIX_ALGORITHM
    } else if is_positive_bits(refresh_threshold) {
        DATAMOSH_BLOCK_REFRESH_ALGORITHM
    } else if is_positive_bits(residual_gain) {
        DATAMOSH_BLOCK_RESIDUAL_ALGORITHM
    } else {
        DATAMOSH_BLOCK_ALGORITHM
    }
}

/// Output frame `index` is a keyframe: frame zero always, and every
/// `keyframe_interval`-th frame when the interval is at least one.
pub open spec fn keyframe_spec(index: int, keyframe_interval: int) -> bool {
    index == 0 || (keyframe_interval >= 1 && index % keyframe_interval == 0)
}

/// Whether output frame `index` snaps back to the carrier frame instead of
/// advecting the held previous output.
pub fn is_datamosh_keyframe(index: usize, keyframe_interval: u32) -> (r: bool)
    ensures
        r == keyframe_spec(index as int, keyframe_interval as int),
{
    index == 0 || (keyframe_interval >= 1 && index % keyframe_interval as usize == 0)
}

/// Frame zero is always a keyframe; an interval of one makes every frame a
/// keyframe; an interval of zero makes frame zero the only keyframe; and an
/// interval `n` makes exactly the multiples of `n` keyframes.
pub proof fn law_keyframe_policy(index: int, n: int)
    requires
        index >= 0,
        n >= 0,
    ensures
        keyframe_spec(0, n),
        keyframe_spec(index, 1),
        keyframe_spec(index, 0) <==> index == 0,
        n >= 1 ==> (keyframe_spec(index, n) <==> index % n == 0),
{
}

/// The identity arrangement `0, 1, …, n-1`.
pub open spec fn identity_order(n: nat) -> Seq<usize> {
    Seq::new(n, |k: int| k as usize)
}

/// `s` with the entries at `a` and `b` exchanged.
pub open spec fn swap_entries(s: Seq<usize>, a: int, b: int) -> Seq<usize> {
    s.update(a, s[b]).update(b, s[a])
}

/// Fisher–Yates over positions `i, i-1, …, 1` of `idx`, each step drawing the
/// next splitmix64 output from `state`.
pub open spec fn fisher_yates(idx: Seq<usize>, state: u64, i: nat) -> Seq<usize>
    decreases i,
{
    if i == 0 {
        idx
    } else {
        let next = state.wrapping_add(SPLITMIX_INCREMENT);
        let j = (mix64_spec(next) as int) % (i as int + 1);
        fisher_yates(swap_entries(idx, i as int, j), next, (i - 1) as nat)
    }
}

/// The seeded shuffle of `0..n`.
pub open spec fn shuffle_spec(n: nat, seed: u64) -> Seq<usize> {
    if n <= 1 {
        identity_order(n)
    } else {
        fisher_yates(identity_order(n), seed, (n - 1) as nat)
    }
}

/// `s` is an arrangement of `0..n`: every entry below `n`, none repeated.
pub open spec fn is_arrangement(s: Seq<usize>, n: nat) -> bool {
    &&& s.len() == n
    &&& forall|k: int| 0 <= k < n ==> #[trigger] s[k] < n
    &&& forall|a: int, b: int| 0 <= a < b < n ==> #[trigger] s[a] != #[trigger] s[b]
}

/// An arrangement of `0..n` holds every index of `0..n`: it is a permutation.
pub proof fn lemma_arrangement_covers(s: Seq<usize>, n: nat, v: int)
    requires
        is_arrangement(s, n),
        0 <= v < n,
    ensures
        exists|k: int| 0 <= k < n && s[k] == v,
{
    let t = Seq::new(n, |i: int| s[i] as int);
    assert forall|i: int, j: int| 0 <= i < t.len() && 0 <= j < t.len() && i != j implies t[i] != t[j] by {
        if i < j {
            assert(s[i] != s[j]);
        } else {
            assert(s[j] != s[i]);
        }
    }
    assert(t.no_duplicates());
    t.unique_seq_to_set();
    vstd::seq_lib::seq_to_set_is_finite(t);
    let range = vstd::set_lib::set_int_range(0, n as int);
    vstd::set_lib::lemma_int_range(0, n as int);
    assert forall|x: int| t.to_set().contains(x) implies range.contains(x) by {
        let i = choose|i: int| 0 <= i < t.len() && t[i] == x;
        assert(s[i] < n);
    }
    vstd::set_lib::lemma_subset_equality(t.to_set(), range);
    assert(range.contains(v));
    assert(t.to_set().contains(v));
    let k = choose|k: int| 0 <= k < t.len() && t[k] == v;
    assert(s[k] == v);
}

proof fn lemma_swap_keeps_arrangement(s: Seq<usize>, n: nat, a: int, b: int)
    requires
        is_arrangement(s, n),
        0 <= a < n,
        0 <= b < n,
    ensures
        is_arrangement(swap_entries(s, a, b), n),
{
    let t = swap_entries(s, a, b);
    assert forall|x: int, y: int| 0 <= x < y < n implies #[trigger] t[x] != #[trigger] t[y] by {
        let sx = if x == b {
            a
        } else if x == a {
            b
        } else {
            x
        };
        let sy = if y == b {
            a
        } else if y == a {
            b
        } else {
            y
        };
        assert(t[x] == s[sx]);
        assert(t[y] == s[sy]);
        assert(sx != sy);
        if sx < sy {
            assert(s[sx] != s[sy]);
        } else {
            assert(s[sy] != s[sx]);
        }
    }
    assert forall|k: int| 0 <= k < n implies #[trigger] t[k] < n by {
        if k == b {
            assert(t[k] == s[a]);
        } else if k == a {
            assert(t[k] == s[b]);
        }
    }
}

proof fn lemma_fisher_yates_arrangement(idx: Seq<usize>, state: u64, i: nat, n: nat)
    requires
        is_arrangement(idx, n),
        i < n,
    ensures
        is_arrangement(fisher_yates(idx, state, i), n),
    decreases i,
{
    if i > 0 {
        let next = state.wrapping_add(SPLITMIX_INCREMENT);
        let j = (mix64_spec(next) as int) % (i as int + 1);
        lemma_swap_keeps_arrangement(idx, n, i as int, j);
        lemma_fisher_yates_arrangement(swap_entries(idx, i as int, j), next, (i - 1) as nat, n);
    }
}

/// A seeded shuffle is an arrangement of `0..n`: it moves motion between
/// blocks and neither drops nor duplicates any block.
pub proof fn law_shuffle_is_arrangement(n: nat, seed: u64)
    requires
        n <= usize::MAX,
    ensures
        is_arrangement(shuffle_spec(n, seed), n),
{
    let id = identity_order(n);
    assert forall|a: int, b: int| 0 <= a < b < n implies #[trigger] id[a] != #[trigger] id[b] by {
        assert(id[a] == a as usize && id[b] == b as usize);
    }
    assert(is_arrangement(id, n));
    if n > 1 {
        lemma_fisher_yates_arrangement(identity_order(n), seed, (n - 1) as nat, n);
    }
}

/// Shuffling the prefix `0..=i` never touches what lies beyond it: every
/// swap partner is drawn from `0..=i`, so the entries after position `i`
/// come out as they went in, and the length is kept.
pub proof fn law_shuffle_keeps_the_settled_tail(idx: Seq<usize>, state: u64, i: nat)
    requires
        i < idx.len(),
    ensures
        fisher_yates(idx, state, i).len() == idx.len(),
        forall|k: int| i < k < idx.len() ==> #[trigger] fisher_yates(idx, state, i)[k] == idx[k],
    decreases i,
{
    if i > 0 {
        let next = state.wrapping_add(SPLITMIX_INCREMENT);
        let j = (mix64_spec(next) as int) % (i as int + 1);
        let t = swap_entries(idx, i as int, j);
        assert(0 <= j <= i);
        law_shuffle_keeps_the_settled_tail(t, next, (i - 1) as nat);
        assert forall|k: int| i < k < idx.len() implies #[trigger] fisher_yates(idx, state, i)[k] == idx[k] by {
            assert(fisher_yates(idx, state, i) == fisher_yates(t, next, (i - 1) as nat));
            assert(t[k] == idx[k]);
        }
    }
}

/// Position `i` of a shuffle of the prefix `0..=i` receives the prefix entry
/// picked by the next splitmix64 output of `state`, reduced into `0..=i`:
/// every position of the prefix can be picked, and nothing beyond it.
pub proof fn law_shuffle_picks_within_the_prefix(idx: Seq<usize>, state: u64, i: nat)
    requires
        i < idx.len(),
    ensures
        0 <= (splitmix_spec(state) as int) % (i as int + 1) <= i,
        fisher_yates(idx, state, i)[i as int] == idx[(splitmix_spec(state) as int) % (i as int + 1)],
{
    let next = state.wrapping_add(SPLITMIX_INCREMENT);
    let j = (mix64_spec(next) as int) % (i as int + 1);
    assert(splitmix_spec(state) == mix64_spec(next));
    if i > 0 {
        let t = swap_entries(idx, i as int, j);
        law_shuffle_keeps_the_settled_tail(t, next, (i - 1) as nat);
        assert(fisher_yates(idx, state, i) == fisher_yates(t, next, (i - 1) as nat));
        assert(fisher_yates(t, next, (i - 1) as nat)[i as int] == t[i as int]);
    } else {
        assert(j == 0);
    }
}

/// The last block of a seeded shuffle of `n >= 2` blocks receives block
/// `splitmix64(seed) % n`, the seed's first draw reduced into `0..n`.
pub proof fn law_shuffle_last_block(n: nat, seed: u64)
    requires
        2 <= n <= usize::MAX,
    ensures
        shuffle_spec(n, seed)[n - 1] == (splitmix_spec(seed) as int) % (n as int),
{
    law_shuffle_picks_within_the_prefix(identity_order(n), seed, (n - 1) as nat);
}

/// The seeded Fisher–Yates shuffle of `0..n`: `r[i]` is the block whose
/// vector raster block `i` receives.
pub fn shuffle_order(n: usize, seed: u64) -> (r: Vec<usize>)
    ensures
        r@ == shuffle_spec(n as nat, seed),
        is_arrangement(r@, n as nat),
{
    let mut idx: Vec<usize> = Vec::new();
    let mut k: usize = 0;
    while k < n
        invariant
            k <= n,
            idx@ == identity_order(k as nat),
        decreases n - k,
    {
        idx.push(k);
        k = k + 1;
        assert(idx@ =~= identity_order(k as nat));
    }
    proof {
        law_shuffle_is_arrangement(n as nat, seed);
    }
    if n <= 1 {
        return idx;
    }
    let mut state = seed;
    let mut i: usize = n - 1;
    while i > 0
        invariant
            i < n,
            idx@.len() == n,
            fisher_yates(idx@, state, i as nat) == shuffle_spec(n as nat, seed),
        decreases i,
    {
        let ghost before = idx@;
        let draw = splitmix64(&mut state);
        let j = (draw % (i as u64 + 1)) as usize;
        assert(j == (mix64_spec(state) as int) % (i as int + 1));
        let a = idx[i];
        let b = idx[j];
        idx.set(i, b);
        idx.set(j, a);
        assert(idx@ =~= swap_entries(before, i as int, j as int));
        i = i - 1;
    }
    idx
}

/// Block `a` ranks before block `b`: a larger magnitude key first, ties in
/// raster order.
pub open spec fn ranks_before(keys: Seq<u64>, a: int, b: int) -> bool {
    keys[a] > keys[b] || (keys[a] == keys[b] && a < b)
}

/// Every entry of `s` ranks before every later entry.
pub open spec fn ranked(keys: Seq<u64>, s: Seq<usize>) -> bool {
    forall|p: int, q: int|
        0 <= p < q < s.len() ==> ranks_before(keys, #[trigger] s[p] as int, #[trigger] s[q] as int)
}

/// Every entry of `s` lies in `[lo, hi)`.
pub open spec fn entries_within(s: Seq<usize>, lo: int, hi: int) -> bool {
    forall|k: int| 0 <= k < s.len() ==> lo <= #[trigger] s[k] < hi
}

proof fn lemma_ranks_before_transitive(keys: Seq<u64>, a: int, b: int, c: int)
    requires
        ranks_before(keys, a, b),
        ranks_before(keys, b, c),
    ensures
        ranks_before(keys, a, c),
{
}

/// Merges two ranked runs into one ranked run.
fn merge_ranked(keys: &Vec<u64>, a: Vec<usize>, b: Vec<usize>, lo: usize, mid: usize, hi: usize) -> (r: Vec<usize>)
    requires
        lo <= mid <= hi <= keys@.len(),
        ranked(keys@, a@),
        ranked(keys@, b@),
        entries_within(a@, lo as int, mid as int),
        entries_within(b@, mid as int, hi as int),
        a@.len() == mid - lo,
        b@.len() == hi - mid,
    ensures
        ranked(keys@, r@),
        entries_within(r@, lo as int, hi as int),
        r@.len() == hi - lo,
{
    let mut r: Vec<usize> = Vec::new();
    let mut i: usize = 0;
    let mut j: usize = 0;
    while i < a.len() || j < b.len()
        invariant
            lo <= mid <= hi <= keys@.len(),
            ranked(keys@, a@),
            ranked(keys@, b@),
            entries_within(a@, lo as int, mid as int),
            entries_within(b@, mid as int, hi as int),
            a@.len() == mid - lo,
            b@.len() == hi - mid,
            i <= a@.len(),
            j <= b@.len(),
            r@.len() == i + j,
            ranked(keys@, r@),
            entries_within(r@, lo as int, hi as int),
            forall|p: int, k: int|
                0 <= p < r@.len() && i <= k < a@.len() ==> ranks_before(
                    keys@,
                    #[trigger] r@[p] as int,
                    #[trigger] a@[k] as int,
                ),
            forall|p: int, k: int|
                0 <= p < r@.len() && j <= k < b@.len() ==> ranks_before(
                    keys@,
                    #[trigger] r@[p] as int,
                    #[trigger] b@[k] as int,
                ),
        decreases a@.len() + b@.len() - i - j,
    {
        let take_a = if i < a.len() && j < b.len() {
            let x = a[i];
            let y = b[j];
            keys[x] > keys[y] || (keys[x] == keys[y] && x < y)
        } else {
            i < a.len()
        };
        let ghost old_r = r@;
        if take_a {
            let x = a[i];
            r.push(x);
            proof {
                assert forall|p: int, k: int|
                    0 <= p < r@.len() && i + 1 <= k < a@.len() implies ranks_before(
                    keys@,
                    #[trigger] r@[p] as int,
                    #[trigger] a@[k] as int,
                ) by {
                    if p < old_r.len() {
                        assert(old_r[p] == r@[p]);
                    }
                }
                assert forall|p: int, k: int|
                    0 <= p < r@.len() && j <= k < b@.len() implies ranks_before(
                    keys@,
                    #[trigger] r@[p] as int,
                    #[trigger] b@[k] as int,
                ) by {
                    if p < old_r.len() {
                        assert(old_r[p] == r@[p]);
                    } else if k > j {
                        lemma_ranks_before_transitive(keys@, x as int, b@[j as int] as int, b@[k] as int);
                    }
                }
                assert forall|p: int, q: int| 0 <= p < q < r@.len() implies ranks_before(
                    keys@,
                    #[trigger] r@[p] as int,
                    #[trigger] r@[q] as int,
                ) by {
                    assert(old_r[p] == r@[p]);
                    if q < old_r.len() {
                        assert(old_r[q] == r@[q]);
                    }
                }
            }
            i = i + 1;
        } else {
            let y = b[j];
            r.push(y);
            proof {
                assert forall|p: int, k: int|
                    0 <= p < r@.len() && i <= k < a@.len() implies ranks_before(
                    keys@,
                    #[trigger] r@[p] as int,
                    #[trigger] a@[k] as int,
                ) by {
                    if p < old_r.len() {
                        assert(old_r[p] == r@[p]);
                    } else {
                        assert(ranks_before(keys@, y as int, a@[i as int] as int));
                        if k > i {
                            lemma_ranks_before_transitive(keys@, y as int, a@[i as int] as int, a@[k] as int);
                        }
                    }
                }
                assert forall|p: int, k: int|
                    0 <= p < r@.len() && j + 1 <= k < b@.len() implies ranks_before(
                    keys@,
                    #[trigger] r@[p] as int,
                    #[trigger] b@[k] as int,
                ) by {
                    if p < old_r.len() {
                        assert(old_r[p] == r@[p]);
                    }
                }
                assert forall|p: int, q: int| 0 <= p < q < r@.len() implies ranks_before(
                    keys@,
                    #[trigger] r@[p] as int,
                    #[trigger] r@[q] as int,
                ) by {
                    assert(old_r[p] == r@[p]);
                    if q < old_r.len() {
                        assert(old_r[q] == r@[q]);
                    }
                }
            }
            j = j + 1;
        }
    }
    r
}

/// The ranked arrangement of the blocks `lo..hi`.
fn rank_range(keys: &Vec<u64>, lo: usize, hi: usize) -> (r: Vec<usize>)
    requires
        lo <= hi <= keys@.len(),
    ensures
        ranked(keys@, r@),
        entries_within(r@, lo as int, hi as int),
        r@.len() == hi - lo,
    decreases hi - lo,
{
    if hi - lo <= 1 {
        let mut r: Vec<usize> = Vec::new();
        if hi > lo {
            r.push(lo);
        }
        return r;
    }
    let mid = lo + (hi - lo) / 2;
    let a = rank_range(keys, lo, mid);
    let b = rank_range(keys, mid, hi);
    merge_ranked(keys, a, b, lo, mid, hi)
}

/// The blocks `0..n` in descending order of their magnitude keys, ties in
/// raster order: `r[i]` is the block whose vector raster block `i` receives.
/// A key is any integer whose order is the order of the block magnitudes.
pub fn magnitude_order(keys: &Vec<u64>) -> (r: Vec<usize>)
    ensures
        is_arrangement(r@, keys@.len()),
        ranked(keys@, r@),
{
    let r = rank_range(keys, 0, keys.len());
    proof {
        assert forall|a: int, b: int| 0 <= a < b < keys@.len() implies #[trigger] r@[a] != #[trigger] r@[b] by {
            assert(ranks_before(keys@, r@[a] as int, r@[b] as int));
        }
    }
    r
}

/// The order a remix rearranges `n` blocks by: none (each block keeps its
/// vector) for [`VectorRemixMode::NoRemix`], descending key with ties in raster
/// order for [`VectorRemixMode::Sort`], the seeded shuffle for
/// [`VectorRemixMode::Shuffle`].
pub fn remix_order(mode: VectorRemixMode, keys: &Vec<u64>, seed: u64) -> (r: Vec<usize>)
    ensures
        is_arrangement(r@, keys@.len()),
        mode == VectorRemixMode::NoRemix ==> r@ == identity_order(keys@.len()),
        mode == VectorRemixMode::Sort ==> ranked(keys@, r@),
        mode == VectorRemixMode::Shuffle ==> r@ == shuffle_spec(keys@.len(), seed),
{
    match mode {
        VectorRemixMode::NoRemix => {
            let n = keys.len();
            let mut r: Vec<usize> = Vec::new();
            let mut k: usize = 0;
            while k < n
                invariant
                    k <= n,
                    n == keys@.len(),
                    r@ == identity_order(k as nat),
                decreases n - k,
            {
                r.push(k);
                k = k + 1;
                assert(r@ =~= identity_order(k as nat));
            }
            r
        },
        VectorRemixMode::Sort => magnitude_order(keys),
        VectorRemixMode::Shuffle => shuffle_order(keys.len(), seed),
    }
}

/// `r[i]` is `grid[order[i]]`.
pub open spec fn permuted(grid: Seq<[u32; 2]>, order: Seq<usize>) -> Seq<[u32; 2]> {
    Seq::new(order.len(), |i: int| grid[order[i] as int])
}

/// The block vectors rearranged by `order`: raster block `i` takes the
/// vector of block `order[i]`.
pub fn permute_block_vectors(grid: &Vec<[u32; 2]>, order: &Vec<usize>) -> (r: Vec<[u32; 2]>)
    requires
        forall|i: int| 0 <= i < order@.len() ==> #[trigger] order@[i] < grid@.len(),
    ensures
        r@ == permuted(grid@, order@),
{
    let mut r: Vec<[u32; 2]> = Vec::new();
    let mut i: usize = 0;
    while i < order.len()
        invariant
            i <= order@.len(),
            forall|k: int| 0 <= k < order@.len() ==> #[trigger] order@[k] < grid@.len(),
            r@ == permuted(grid@, order@).take(i as int),
        decreases order.len() - i,
    {
        r.push(grid[order[i]]);
        i = i + 1;
        assert(r@ =~= permuted(grid@, order@).take(i as int));
    }
    assert(r@ =~= permuted(grid@, order@));
    r
}

/// The vector that pixel `(x, y)` takes from the block grid of `block_size`
/// blocks, `columns` blocks per row.
pub open spec fn block_vector_at(
    grid: Seq<[u32; 2]>,
    columns: int,
    block_size: int,
    x: int,
    y: int,
) -> [u32; 2] {
    grid[(y / block_size) * columns + x / block_size]
}

proof fn lemma_block_index(x: int, y: int, w: int, h: int, bs: int, cols: int, rows: int)
    requires
        0 <= x < w,
        0 <= y < h,
        bs > 0,
        cols == div_ceil_spec(w, bs),
        rows == div_ceil_spec(h, bs),
    ensures
        0 <= (y / bs) * cols,
        0 <= (y / bs) * cols + x / bs < cols * rows,
{
    assert(0 <= x / bs < cols) by (nonlinear_arith)
        requires
            0 <= x < w,
            bs > 0,
            cols == w / bs + if w % bs != 0 {
                1int
            } else {
                0int
            },
    ;
    assert(0 <= y / bs < rows) by (nonlinear_arith)
        requires
            0 <= y < h,
            bs > 0,
            rows == h / bs + if h % bs != 0 {
                1int
            } else {
                0int
            },
    ;
    assert(0 <= (y / bs) * cols && (y / bs) * cols + x / bs < cols * rows) by (nonlinear_arith)
        requires
            0 <= x / bs < cols,
            0 <= y / bs < rows,
    ;
}

/// Expands a block grid back to a `width` × `height` flow field: every pixel
/// takes the vector of the block that covers it.
pub fn expand_block_vectors(width: u32, height: u32, block_size: u32, grid: &Vec<[u32; 2]>) -> (r:
    FlowFieldBits)
    requires
        width > 0,
        height > 0,
        width * height <= usize::MAX,
        block_size > 0,
        grid@.len() == div_ceil_spec(width as int, block_size as int) * div_ceil_spec(
            height as int,
            block_size as int,
        ),
    ensures
        r.wf(),
        r.width == width,
        r.height == height,
        forall|x: int, y: int|
            0 <= x < width && 0 <= y < height ==> #[trigger] r.vectors@[y * width + x]
                == block_vector_at(
                grid@,
                div_ceil_spec(width as int, block_size as int),
                block_size as int,
                x,
                y,
            ),
{
    let columns = div_ceil(width, block_size);
    let ghost rows = div_ceil_spec(height as int, block_size as int);
    let grid_len = grid.len();
    let mut vectors: Vec<[u32; 2]> = Vec::new();
    let mut y: u32 = 0;
    while y < height
        invariant
            y <= height,
            width > 0,
            block_size > 0,
            columns == div_ceil_spec(width as int, block_size as int),
            grid@.len() == columns * rows,
            grid_len == grid@.len(),
            rows == div_ceil_spec(height as int, block_size as int),
            vectors@.len() == y * width,
            forall|px: int, py: int|
                0 <= px < width && 0 <= py < y ==> #[trigger] vectors@[py * width + px]
                    == block_vector_at(grid@, columns as int, block_size as int, px, py),
        decreases height - y,
    {
        let mut x: u32 = 0;
        while x < width
            invariant
                x <= width,
                y < height,
                width > 0,
                block_size > 0,
                columns == div_ceil_spec(width as int, block_size as int),
                grid@.len() == columns * rows,
                grid_len == grid@.len(),
                rows == div_ceil_spec(height as int, block_size as int),
                vectors@.len() == y * width + x,
                forall|px: int, py: int|
                    (0 <= px < width && 0 <= py < y) || (0 <= px < x && py == y) ==> #[trigger] vectors@[py
                        * width + px] == block_vector_at(
                        grid@,
                        columns as int,
                        block_size as int,
                        px,
                        py,
                    ),
            decreases width - x,
        {
            proof {
                lemma_block_index(
                    x as int,
                    y as int,
                    width as int,
                    height as int,
                    block_size as int,
                    columns as int,
                    rows,
                );
            }
            let index = (y / block_size) as usize * columns as usize + (x / block_size) as usize;
            let v = grid[index];
            let ghost old_vectors = vectors@;
            vectors.push(v);
            proof {
                assert forall|px: int, py: int|
                    (0 <= px < width && 0 <= py < y) || (0 <= px < x + 1 && py == y) implies #[trigger] vectors@[py
                    * width + px] == block_vector_at(
                    grid@,
                    columns as int,
                    block_size as int,
                    px,
                    py,
                ) by {
                    if py < y {
                        assert(py * width + px < y * width) by (nonlinear_arith)
                            requires
                                0 <= px < width,
                                0 <= py < y,
                        ;
                        assert(vectors@[py * width + px] == old_vectors[py * width + px]);
                    } else if px < x {
                        assert(vectors@[py * width + px] == old_vectors[py * width + px]);
                    }
                }
            }
            x = x + 1;
        }
        proof {
            assert((y + 1) * width == y * width + width) by (nonlinear_arith);
            assert forall|px: int, py: int|
                0 <= px < width && 0 <= py < y + 1 implies #[trigger] vectors@[py * width + px]
                == block_vector_at(grid@, columns as int, block_size as int, px, py) by {
                if py == y {
                    assert((0 <= px < width && py == y));
                }
            }
        }
        y = y + 1;
    }
    proof {
        assert(height * width == width * height) by (nonlinear_arith);
    }
    FlowFieldBits { width, height, vectors }
}

impl Default for ScanlineSmearSettings {
    /// The documented defaults; the `f32` knobs are the bit patterns of
    /// `max_shift` 96.0, `motion_gain` 18.0, `wave_amplitude` 10.0, `wave_frequency` 0.37,
    /// `smear_mix` 0.92, `structure_protect` 0.72, `chroma_burst_rate` 0.018.
    fn default() -> (r: Self)
        ensures
            r == (ScanlineSmearSettings {
                line_height: 2,
                max_shift: 0x42c0_0000,
                motion_gain: 0x4190_0000,
                wave_amplitude: 0x4120_0000,
                wave_frequency: 0x3ebd_70a4,
                smear_mix: 0x3f6b_851f,
                structure_protect: 0x3f38_51ec,
                chroma_burst_rate: 0x3c93_74bc,
                chroma_burst_size: 18,
                seed: 0,
            }),
    {
        ScanlineSmearSettings {
            line_height: 2,
            max_shift: 0x42c0_0000,
            motion_gain: 0x4190_0000,
            wave_amplitude: 0x4120_0000,
            wave_frequency: 0x3ebd_70a4,
            smear_mix: 0x3f6b_851f,
            structure_protect: 0x3f38_51ec,
            chroma_burst_rate: 0x3c93_74bc,
            chroma_burst_size: 18,
            seed: 0,
        }
    }
}

impl Default for CodecEngraveSettings {
    /// The documented defaults; the `f32` knobs are the bit patterns of
    /// `edge_gain` 10.0, `hatch_strength` 0.86, `hatch_frequency` 1.06, `chroma_offset` 2.8,
    /// `block_step` 0.3, `foreground_boost` 0.12, `micro_contrast` 1.1.
    fn default() -> (r: Self)
        ensures
            r == (CodecEngraveSettings {
                block_size: 4,
                edge_gain: 0x4120_0000,
                hatch_strength: 0x3f5c_28f6,
                hatch_frequency: 0x3f87_ae14,
                chroma_offset: 0x4033_3333,
                block_step: 0x3e99_999a,
                foreground_boost: 0x3df5_c28f,
                micro_contrast: 0x3f8c_cccd,
                seed: 0,
            }),
    {
        CodecEngraveSettings {
            block_size: 4,
            edge_gain: 0x4120_0000,
            hatch_strength: 0x3f5c_28f6,
            hatch_frequency: 0x3f87_ae14,
            chroma_offset: 0x4033_3333,
            block_step: 0x3e99_999a,
            foreground_boost: 0x3df5_c28f,
            micro_contrast: 0x3f8c_cccd,
            seed: 0,
        }
    }
}

} // verus!
