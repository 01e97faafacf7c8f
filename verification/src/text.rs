//! Character-level text helpers shared by the formats and the route grammar.

use vstd::prelude::*;

verus! {

/// Appends one character to `s`. Trusted: it calls std's `String::push`,
/// and claims what that function's documentation states, that the string
/// afterwards holds its former characters followed by `c`.
#[verifier::external_body]
pub(crate) fn push_char(s: &mut String, c: char)
    ensures
        final(s)@ == old(s)@.push(c),
{
    s.push(c);
}

/// Appends every character of `tail` to `s`.
pub fn push_chars(s: &mut String, tail: &Vec<char>)
    ensures
        final(s)@ == old(s)@ + tail@,
{
    let mut i: usize = 0;
    while i < tail.len()
        invariant
            i <= tail.len(),
            s@ == old(s)@ + tail@.take(i as int),
        decreases tail.len() - i,
    {
        push_char(s, tail[i]);
        assert(tail@.take(i as int).push(tail@[i as int]) =~= tail@.take(i + 1));
        i = i + 1;
    }
    assert(tail@.take(tail.len() as int) =~= tail@);
}

/// The characters of `s`, in order.
pub fn chars_of(s: &str) -> (v: Vec<char>)
    ensures
        v@ == s@,
{
    let n = s.unicode_len();
    let mut v: Vec<char> = Vec::new();
    let mut i: usize = 0;
    while i < n
        invariant
            n == s@.len(),
            i <= n,
            v@ == s@.take(i as int),
        decreases n - i,
    {
        let c = s.get_char(i);
        v.push(c);
        assert(s@.take(i as int).push(c) =~= s@.take(i + 1));
        i = i + 1;
    }
    assert(s@.take(n as int) =~= s@);
    v
}

/// A new `String` holding `v[lo..hi]`.
pub fn string_from_range(v: &Vec<char>, lo: usize, hi: usize) -> (r: String)
    requires
        lo <= hi <= v.len(),
    ensures
        r@ == v@.subrange(lo as int, hi as int),
{
    let mut r = String::new();
    let mut i: usize = lo;
    while i < hi
        invariant
            lo <= i <= hi <= v.len(),
            r@ == v@.subrange(lo as int, i as int),
        decreases hi - i,
    {
        push_char(&mut r, v[i]);
        assert(v@.subrange(lo as int, i as int).push(v@[i as int]) =~= v@.subrange(
            lo as int,
            i + 1,
        ));
        i = i + 1;
    }
    r
}

/// A new `String` holding exactly the characters of `s`.
pub fn string_from_str(s: &str) -> (r: String)
    ensures
        r@ == s@,
{
    let v = chars_of(s);
    string_from_range(&v, 0, v.len())
}

/// Whether two texts hold the same characters.
pub fn str_eq(a: &str, b: &str) -> (r: bool)
    ensures
        r == (a@ == b@),
{
    let n = a.unicode_len();
    let m = b.unicode_len();
    if n != m {
        return false;
    }
    let mut i: usize = 0;
    while i < n
        invariant
            n == a@.len(),
            m == b@.len(),
            n == m,
            i <= n,
            a@.take(i as int) == b@.take(i as int),
        decreases n - i,
    {
        if a.get_char(i) != b.get_char(i) {
            assert(a@[i as int] != b@[i as int]);
            return false;
        }
        assert(a@.take(i + 1) =~= a@.take(i as int).push(a@[i as int]));
        assert(b@.take(i + 1) =~= b@.take(i as int).push(b@[i as int]));
        i = i + 1;
    }
    assert(a@ =~= a@.take(n as int));
    assert(b@ =~= b@.take(n as int));
    true
}

/// Unicode `White_Space`, the set that `str::trim` removes.
pub open spec fn is_whitespace_spec(c: char) -> bool {
    ||| c == '\t'
    ||| c == '\n'
    ||| c == '\u{0B}'
    ||| c == '\u{0C}'
    ||| c == '\r'
    ||| c == ' '
    ||| c == '\u{85}'
    ||| c == '\u{A0}'
    ||| c == '\u{1680}'
    ||| ('\u{2000}' <= c && c <= '\u{200A}')
    ||| c == '\u{2028}'
    ||| c == '\u{2029}'
    ||| c == '\u{202F}'
    ||| c == '\u{205F}'
    ||| c == '\u{3000}'
}

pub fn is_whitespace(c: char) -> (r: bool)
    ensures
        r == is_whitespace_spec(c),
{
    c == '\t' || c == '\n' || c == '\u{0B}' || c == '\u{0C}' || c == '\r' || c == ' ' || c
        == '\u{85}' || c == '\u{A0}' || c == '\u{1680}' || ('\u{2000}' <= c && c <= '\u{200A}')
        || c == '\u{2028}' || c == '\u{2029}' || c == '\u{202F}' || c == '\u{205F}' || c
        == '\u{3000}'
}

/// The ASCII digit of `d` (`0 <= d < 10`).
pub open spec fn decimal_digit(d: nat) -> char {
    if d == 0 {
        '0'
    } else if d == 1 {
        '1'
    } else if d == 2 {
        '2'
    } else if d == 3 {
        '3'
    } else if d == 4 {
        '4'
    } else if d == 5 {
        '5'
    } else if d == 6 {
        '6'
    } else if d == 7 {
        '7'
    } else if d == 8 {
        '8'
    } else {
        '9'
    }
}

/// The shortest decimal spelling of `n`.
pub open spec fn decimal_spec(n: nat) -> Seq<char>
    decreases n,
{
    if n < 10 {
        seq![decimal_digit(n)]
    } else {
        decimal_spec(n / 10).push(decimal_digit(n % 10))
    }
}

/// The lowercase hexadecimal digit of `d` (`0 <= d < 16`).
pub open spec fn hex_digit(d: nat) -> char {
    if d < 10 {
        decimal_digit(d)
    } else if d == 10 {
        'a'
    } else if d == 11 {
        'b'
    } else if d == 12 {
        'c'
    } else if d == 13 {
        'd'
    } else if d == 14 {
        'e'
    } else {
        'f'
    }
}

/// The last `k` lowercase hexadecimal digits of `n`, most significant first.
pub open spec fn hex_spec(n: nat, k: nat) -> Seq<char>
    decreases k,
{
    if k == 0 {
        Seq::empty()
    } else {
        hex_spec(n / 16, (k - 1) as nat).push(hex_digit(n % 16))
    }
}

/// `k` copies of `'0'`.
pub open spec fn zeros(k: nat) -> Seq<char> {
    Seq::new(k, |i: int| '0')
}

/// The decimal spelling of `n`, left-padded with zeros to at least `width` digits.
pub open spec fn zero_padded_spec(n: nat, width: nat) -> Seq<char> {
    let digits = decimal_spec(n);
    if digits.len() < width {
        zeros((width - digits.len()) as nat) + digits
    } else {
        digits
    }
}

fn digit_char(d: u64) -> (c: char)
    requires
        d < 10,
    ensures
        c == decimal_digit(d as nat),
{
    if d == 0 {
        '0'
    } else if d == 1 {
        '1'
    } else if d == 2 {
        '2'
    } else if d == 3 {
        '3'
    } else if d == 4 {
        '4'
    } else if d == 5 {
        '5'
    } else if d == 6 {
        '6'
    } else if d == 7 {
        '7'
    } else if d == 8 {
        '8'
    } else {
        '9'
    }
}

fn hex_char(d: u64) -> (c: char)
    requires
        d < 16,
    ensures
        c == hex_digit(d as nat),
{
    if d < 10 {
        digit_char(d)
    } else if d == 10 {
        'a'
    } else if d == 11 {
        'b'
    } else if d == 12 {
        'c'
    } else if d == 13 {
        'd'
    } else if d == 14 {
        'e'
    } else {
        'f'
    }
}

/// Appends the decimal spelling of `n`.
pub fn push_decimal(s: &mut String, n: u64)
    ensures
        final(s)@ == old(s)@ + decimal_spec(n as nat),
    decreases n,
{
    if n >= 10 {
        push_decimal(s, n / 10);
    }
    push_char(s, digit_char(n % 10));
    assert(decimal_spec(n as nat) =~= if n < 10 {
        seq![decimal_digit(n as nat)]
    } else {
        decimal_spec((n / 10) as nat).push(decimal_digit((n % 10) as nat))
    });
}

spec fn pow10(k: nat) -> nat
    decreases k,
{
    if k == 0 {
        1
    } else {
        10 * pow10((k - 1) as nat)
    }
}

proof fn lemma_decimal_len_bound(n: nat, k: nat)
    requires
        n < pow10(k),
        k >= 1,
    ensures
        decimal_spec(n).len() <= k,
    decreases k,
{
    if n >= 10 {
        assert(k >= 2) by {
            if k == 1 {
                assert(pow10(1) == 10 * pow10(0));
            }
        }
        assert(n / 10 < pow10((k - 1) as nat)) by (nonlinear_arith)
            requires
                n < pow10(k),
                pow10(k) == 10 * pow10((k - 1) as nat),
        ;
        lemma_decimal_len_bound(n / 10, (k - 1) as nat);
    }
}

/// The number of characters in the decimal spelling of `n`.
pub fn decimal_len(n: u64) -> (r: usize)
    ensures
        r == decimal_spec(n as nat).len(),
        1 <= r <= 20,
{
    proof {
        reveal_with_fuel(pow10, 21);
        assert(pow10(20) == 100000000000000000000);
        lemma_decimal_len_bound(n as nat, 20);
    }
    let mut r: usize = 1;
    let mut m: u64 = n;
    while m >= 10
        invariant
            1 <= r,
            r + decimal_spec(m as nat).len() - 1 == decimal_spec(n as nat).len(),
            decimal_spec(n as nat).len() <= 20,
        decreases m,
    {
        assert(decimal_spec(m as nat).len() == decimal_spec((m / 10) as nat).len() + 1);
        m = m / 10;
        r = r + 1;
    }
    r
}

/// Appends the last `k` lowercase hexadecimal digits of `n`.
pub fn push_hex(s: &mut String, n: u64, k: u32)
    ensures
        final(s)@ == old(s)@ + hex_spec(n as nat, k as nat),
    decreases k,
{
    if k > 0 {
        push_hex(s, n / 16, k - 1);
        push_char(s, hex_char(n % 16));
        assert(hex_spec(n as nat, k as nat) == hex_spec((n / 16) as nat, (k - 1) as nat).push(
            hex_digit((n % 16) as nat),
        ));
    } else {
        assert(hex_spec(n as nat, 0) =~= Seq::<char>::empty());
        assert(old(s)@ + hex_spec(n as nat, 0) =~= old(s)@);
    }
}

/// Appends the decimal spelling of `n` left-padded with zeros to `width` digits.
pub fn push_zero_padded(s: &mut String, n: u64, width: usize)
    ensures
        final(s)@ == old(s)@ + zero_padded_spec(n as nat, width as nat),
{
    let len = decimal_len(n);
    let ghost start = s@;
    if len < width {
        let mut i: usize = 0;
        while i < width - len
            invariant
                len < width,
                i <= width - len,
                s@ == start + zeros(i as nat),
            decreases width - len - i,
        {
            push_char(s, '0');
            assert(zeros(i as nat).push('0') =~= zeros((i + 1) as nat));
            i = i + 1;
        }
    }
    push_decimal(s, n);
    assert(s@ =~= start + zero_padded_spec(n as nat, width as nat));
}

} // verus!

verus! {

/// The text "expected `expected` `noun`, got `got`".
pub fn expected_got(expected: u64, noun: &str, got: u64) -> (r: String)
    ensures
        r@ == "expected "@ + decimal_spec(expected as nat) + " "@ + noun@ + ", got "@
            + decimal_spec(got as nat),
{
    let mut r = String::from_str("expected ");
    push_decimal(&mut r, expected);
    r.append(" ");
    r.append(noun);
    r.append(", got ");
    push_decimal(&mut r, got);
    r
}

} // verus!

verus! {

/// `Path::join` on Unix for a relative `child`: an empty base gives the child,
/// a base ending in `/` is extended directly, any other base gets a `/` first.
pub open spec fn path_join(base: Seq<char>, child: Seq<char>) -> Seq<char> {
    if base.len() == 0 {
        child
    } else if base.last() == '/' {
        base + child
    } else {
        base + seq!['/'] + child
    }
}

/// Appends the relative path `child` to the path held in `base`.
pub fn push_path_component(base: &mut String, child: &str)
    requires
        child@.len() == 0 || child@[0] != '/',
    ensures
        final(base)@ == path_join(old(base)@, child@),
{
    let chars = chars_of(base.as_str());
    if chars.len() == 0 {
        base.append(child);
        assert(base@ =~= path_join(old(base)@, child@));
    } else if chars[chars.len() - 1] == '/' {
        base.append(child);
    } else {
        push_char(base, '/');
        base.append(child);
    }
}

} // verus!
