//! Scanning character sequences: first and last occurrences, whitespace
//! trimming, and literal comparisons over ranges of a character vector.

use vstd::prelude::*;
use crate::text::{is_whitespace, is_whitespace_spec};

verus! {

/// Index of the first `c` in `s` at or after `i`, or `s.len()` when there is none.
pub open spec fn first_from(s: Seq<char>, c: char, i: int) -> int
    decreases s.len() - i,
{
    if i < 0 || i >= s.len() {
        s.len() as int
    } else if s[i] == c {
        i
    } else {
        first_from(s, c, i + 1)
    }
}

/// Index of the last `c` in `s` before `j`, or `-1` when there is none.
pub open spec fn last_before(s: Seq<char>, c: char, j: int) -> int
    decreases j,
{
    if j <= 0 || j > s.len() {
        -1
    } else if s[j - 1] == c {
        j - 1
    } else {
        last_before(s, c, j - 1)
    }
}

/// Index of the first non-whitespace character of `s` at or after `i`.
pub open spec fn skip_ws(s: Seq<char>, i: int) -> int
    decreases s.len() - i,
{
    if 0 <= i < s.len() && is_whitespace_spec(s[i]) {
        skip_ws(s, i + 1)
    } else {
        i
    }
}

/// End of `s[lo..j]` once trailing whitespace is removed.
pub open spec fn back_ws(s: Seq<char>, lo: int, j: int) -> int
    decreases j - lo,
{
    if lo < j <= s.len() && is_whitespace_spec(s[j - 1]) {
        back_ws(s, lo, j - 1)
    } else {
        j
    }
}

/// `s` without leading and trailing whitespace (`str::trim`).
pub open spec fn trim_spec(s: Seq<char>) -> Seq<char> {
    let a = skip_ws(s, 0);
    s.subrange(a, back_ws(s, a, s.len() as int))
}

/// `s` begins with `prefix`.
pub open spec fn starts_with_spec(s: Seq<char>, prefix: Seq<char>) -> bool {
    prefix.len() <= s.len() && s.subrange(0, prefix.len() as int) == prefix
}

pub proof fn lemma_first_from_bounds(s: Seq<char>, c: char, i: int)
    requires
        0 <= i <= s.len(),
    ensures
        i <= first_from(s, c, i) <= s.len(),
        first_from(s, c, i) < s.len() ==> s[first_from(s, c, i)] == c,
        forall|k: int| i <= k < first_from(s, c, i) ==> s[k] != c,
    decreases s.len() - i,
{
    if i < s.len() && s[i] != c {
        lemma_first_from_bounds(s, c, i + 1);
    }
}

pub proof fn lemma_last_before_bounds(s: Seq<char>, c: char, j: int)
    requires
        0 <= j <= s.len(),
    ensures
        -1 <= last_before(s, c, j) < j,
        last_before(s, c, j) >= 0 ==> s[last_before(s, c, j)] == c,
        forall|k: int| last_before(s, c, j) < k < j ==> s[k] != c,
    decreases j,
{
    if j > 0 && s[j - 1] != c {
        lemma_last_before_bounds(s, c, j - 1);
    }
}

pub proof fn lemma_skip_ws_bounds(s: Seq<char>, i: int)
    requires
        0 <= i <= s.len(),
    ensures
        i <= skip_ws(s, i) <= s.len(),
    decreases s.len() - i,
{
    if i < s.len() && is_whitespace_spec(s[i]) {
        lemma_skip_ws_bounds(s, i + 1);
    }
}

pub proof fn lemma_back_ws_bounds(s: Seq<char>, lo: int, j: int)
    requires
        0 <= lo <= j <= s.len(),
    ensures
        lo <= back_ws(s, lo, j) <= j,
    decreases j - lo,
{
    if lo < j && is_whitespace_spec(s[j - 1]) {
        lemma_back_ws_bounds(s, lo, j - 1);
    }
}

/// Absolute index of the first `c` in `v[lo..hi]`, or `hi` when there is none.
pub fn find_first(v: &Vec<char>, lo: usize, hi: usize, c: char) -> (r: usize)
    requires
        lo <= hi <= v@.len(),
    ensures
        r - lo == first_from(v@.subrange(lo as int, hi as int), c, 0),
        lo <= r <= hi,
{
    let ghost s = v@.subrange(lo as int, hi as int);
    let mut i = lo;
    while i < hi && v[i] != c
        invariant
            lo <= i <= hi <= v@.len(),
            s == v@.subrange(lo as int, hi as int),
            first_from(s, c, i - lo) == first_from(s, c, 0),
        decreases hi - i,
    {
        assert(s[i - lo] == v@[i as int]);
        i = i + 1;
    }
    proof {
        if i < hi {
            assert(s[i - lo] == v@[i as int]);
        }
    }
    i
}

/// Absolute index of the last `c` in `v[lo..hi]`, if any.
pub fn find_last(v: &Vec<char>, lo: usize, hi: usize, c: char) -> (r: Option<usize>)
    requires
        lo <= hi <= v@.len(),
    ensures
        ({
            let s = v@.subrange(lo as int, hi as int);
            &&& r is None ==> last_before(s, c, s.len() as int) == -1
            &&& r matches Some(k) ==> lo <= k < hi && k - lo == last_before(s, c, s.len() as int)
        }),
{
    let ghost s = v@.subrange(lo as int, hi as int);
    let mut j = hi;
    while j > lo && v[j - 1] != c
        invariant
            lo <= j <= hi <= v@.len(),
            s == v@.subrange(lo as int, hi as int),
            last_before(s, c, j - lo) == last_before(s, c, s.len() as int),
        decreases j - lo,
    {
        assert(s[j - 1 - lo] == v@[j - 1]);
        j = j - 1;
    }
    if j > lo {
        assert(s[j - 1 - lo] == v@[j - 1]);
        Some(j - 1)
    } else {
        None
    }
}

/// The bounds of `v[lo..hi]` once leading and trailing whitespace is removed.
pub fn trim_range(v: &Vec<char>, lo: usize, hi: usize) -> (r: (usize, usize))
    requires
        lo <= hi <= v@.len(),
    ensures
        lo <= r.0 <= r.1 <= hi,
        v@.subrange(r.0 as int, r.1 as int) == trim_spec(v@.subrange(lo as int, hi as int)),
{
    let ghost s = v@.subrange(lo as int, hi as int);
    let mut a = lo;
    while a < hi && is_whitespace(v[a])
        invariant
            lo <= a <= hi <= v@.len(),
            s == v@.subrange(lo as int, hi as int),
            skip_ws(s, a - lo) == skip_ws(s, 0),
        decreases hi - a,
    {
        assert(s[a - lo] == v@[a as int]);
        a = a + 1;
    }
    proof {
        if a < hi {
            assert(s[a - lo] == v@[a as int]);
        }
    }
    let mut b = hi;
    while b > a && is_whitespace(v[b - 1])
        invariant
            lo <= a <= b <= hi <= v@.len(),
            s == v@.subrange(lo as int, hi as int),
            a - lo == skip_ws(s, 0),
            back_ws(s, a - lo, b - lo) == back_ws(s, a - lo, s.len() as int),
        decreases b - a,
    {
        assert(s[b - 1 - lo] == v@[b - 1]);
        b = b - 1;
    }
    proof {
        if b > a {
            assert(s[b - 1 - lo] == v@[b - 1]);
        }
        assert(v@.subrange(a as int, b as int) =~= s.subrange(a - lo, b - lo));
    }
    (a, b)
}

/// Whether `v[lo..hi]` spells exactly `lit`.
pub fn range_is(v: &Vec<char>, lo: usize, hi: usize, lit: &str) -> (r: bool)
    requires
        lo <= hi <= v@.len(),
    ensures
        r == (v@.subrange(lo as int, hi as int) == lit@),
{
    let n = lit.unicode_len();
    if hi - lo != n {
        return false;
    }
    let mut i: usize = 0;
    while i < n
        invariant
            n == lit@.len(),
            hi - lo == n,
            lo <= hi <= v@.len(),
            i <= n,
            forall|k: int| 0 <= k < i ==> v@[lo + k] == lit@[k],
        decreases n - i,
    {
        if v[lo + i] != lit.get_char(i) {
            assert(v@.subrange(lo as int, hi as int)[i as int] != lit@[i as int]);
            return false;
        }
        i = i + 1;
    }
    assert(v@.subrange(lo as int, hi as int) =~= lit@);
    true
}

/// Whether `v[lo..hi]` begins with `lit`.
pub fn range_starts_with(v: &Vec<char>, lo: usize, hi: usize, lit: &str) -> (r: bool)
    requires
        lo <= hi <= v@.len(),
    ensures
        r == starts_with_spec(v@.subrange(lo as int, hi as int), lit@),
{
    let n = lit.unicode_len();
    if n > hi - lo {
        return false;
    }
    let r = range_is(v, lo, lo + n, lit);
    assert(v@.subrange(lo as int, hi as int).subrange(0, n as int) =~= v@.subrange(
        lo as int,
        lo + n,
    ));
    r
}

} // verus!
