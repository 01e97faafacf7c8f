//! Rounding between integers and `f32` values held as bit patterns: an `f32`
//! rounded to the nearest integer (halves away from zero) and cast to `i64`
//! (saturating, NaN to zero), and a `u32` cast to the nearest `f32` (ties to
//! even).

use vstd::prelude::*;

verus! {

/// `2^k`.
pub open spec fn two_pow(k: nat) -> nat
    decreases k,
{
    if k == 0 {
        1
    } else {
        2 * two_pow((k - 1) as nat)
    }
}

/// The largest `e` with `2^e <= n` (zero for `n < 2`).
pub open spec fn floor_log2(n: nat) -> nat
    decreases n,
{
    if n < 2 {
        0
    } else {
        1 + floor_log2(n / 2)
    }
}

/// The exponent field of an `f32` pattern.
pub open spec fn f32_exponent_field(b: u32) -> int {
    (b as int / 0x80_0000) % 256
}

/// The fraction field of an `f32` pattern.
pub open spec fn f32_fraction_field(b: u32) -> int {
    b as int % 0x80_0000
}

/// The sign bit of an `f32` pattern is set.
pub open spec fn f32_sign_set(b: u32) -> bool {
    b >= 0x8000_0000
}

/// The significand `m` of a finite pattern: its magnitude is `m · 2^(k − 150)`
/// with `k` its scale.
pub open spec fn f32_significand(b: u32) -> int {
    if f32_exponent_field(b) == 0 {
        f32_fraction_field(b)
    } else {
        f32_fraction_field(b) + 0x80_0000
    }
}

/// The scale `k` of a finite pattern (subnormals share the scale of the
/// smallest normals).
pub open spec fn f32_scale(b: u32) -> int {
    if f32_exponent_field(b) == 0 {
        1
    } else {
        f32_exponent_field(b)
    }
}

/// The magnitude of a finite `f32`, `m · 2^(k − 150)`, rounded to the nearest
/// integer, halves away from zero: `⌊(2m + 2^s) / 2^(s + 1)⌋` for `s = 150 − k`.
pub open spec fn f32_rounded_magnitude(b: u32) -> int {
    let m = f32_significand(b);
    let k = f32_scale(b);
    if k >= 150 {
        m * two_pow((k - 150) as nat)
    } else {
        (2 * m + two_pow((150 - k) as nat)) / (two_pow((151 - k) as nat) as int)
    }
}

/// `v.round() as i64` for the `f32` `v` with pattern `b`: the nearest integer,
/// halves away from zero, saturated to the `i64` range; NaN gives `0`.
pub open spec fn f32_round_to_i64(b: u32) -> int {
    if f32_exponent_field(b) == 255 {
        if f32_fraction_field(b) != 0 {
            0
        } else if f32_sign_set(b) {
            i64::MIN as int
        } else {
            i64::MAX as int
        }
    } else {
        let r = f32_rounded_magnitude(b);
        if f32_sign_set(b) {
            if -r < i64::MIN {
                i64::MIN as int
            } else {
                -r
            }
        } else {
            if r > i64::MAX {
                i64::MAX as int
            } else {
                r
            }
        }
    }
}

/// The pattern `b` stands for the non-negative integer `v` exactly.
pub open spec fn f32_bits_is_integer(b: u32, v: int) -> bool {
    let m = f32_significand(b);
    let k = f32_scale(b);
    &&& !f32_sign_set(b)
    &&& f32_exponent_field(b) < 255
    &&& if k >= 150 {
        m * two_pow((k - 150) as nat) == v
    } else {
        m == v * two_pow((150 - k) as nat)
    }
}

/// `n` rounded to the nearest `f32`: exact below `2^24`, otherwise rounded to
/// 24 significant bits, ties to the even significand.
pub open spec fn u32_nearest_f32(n: nat) -> nat {
    let e = floor_log2(n);
    if e <= 23 {
        n
    } else {
        let ps = two_pow((e - 23) as nat);
        let q = n / ps;
        let rem = n % ps;
        let h = ps / 2;
        if rem > h || (rem == h && q % 2 == 1) {
            (q + 1) * ps
        } else {
            q * ps
        }
    }
}

pub proof fn lemma_two_pow_positive(k: nat)
    ensures
        two_pow(k) >= 1,
    decreases k,
{
    if k > 0 {
        lemma_two_pow_positive((k - 1) as nat);
    }
}

pub proof fn lemma_two_pow_add(a: nat, b: nat)
    ensures
        two_pow(a + b) == two_pow(a) * two_pow(b),
    decreases a,
{
    if a == 0 {
        assert(two_pow(0) == 1);
        assert(a + b == b);
    } else {
        let c = (a - 1) as nat;
        lemma_two_pow_add(c, b);
        assert(two_pow(a) == 2 * two_pow(c));
        assert(((a + b) - 1) as nat == c + b);
        assert(two_pow(a + b) == 2 * two_pow(c + b));
        let x = two_pow(c);
        let y = two_pow(b);
        assert(2 * (x * y) == (2 * x) * y) by (nonlinear_arith);
    }
}

pub proof fn lemma_two_pow_monotone(a: nat, b: nat)
    requires
        a <= b,
    ensures
        two_pow(a) <= two_pow(b),
{
    lemma_two_pow_add(a, (b - a) as nat);
    lemma_two_pow_positive((b - a) as nat);
    lemma_two_pow_positive(a);
    assert(two_pow(a) * two_pow((b - a) as nat) >= two_pow(a)) by (nonlinear_arith)
        requires
            two_pow((b - a) as nat) >= 1,
            two_pow(a) >= 1,
    ;
}

/// `2^floor_log2(n) <= n < 2^(floor_log2(n) + 1)` for `n >= 1`.
pub proof fn lemma_floor_log2_bounds(n: nat)
    requires
        n >= 1,
    ensures
        two_pow(floor_log2(n)) <= n < two_pow(floor_log2(n) + 1),
    decreases n,
{
    if n >= 2 {
        lemma_floor_log2_bounds(n / 2);
    }
}

/// The exponent `e` with `2^e <= n < 2^(e + 1)` is `floor_log2(n)`.
pub proof fn lemma_floor_log2_unique(n: nat, e: nat)
    requires
        two_pow(e) <= n < two_pow(e + 1),
    ensures
        floor_log2(n) == e,
{
    lemma_two_pow_positive(e);
    lemma_floor_log2_bounds(n);
    let f = floor_log2(n);
    if f < e {
        lemma_two_pow_monotone(f + 1, e);
    } else if f > e {
        lemma_two_pow_monotone(e + 1, f);
    }
}

/// The powers of two the conversions use.
pub proof fn lemma_two_pow_constants()
    ensures
        two_pow(23) == 0x80_0000,
        two_pow(24) == 0x100_0000,
        two_pow(25) == 0x200_0000,
        two_pow(31) == 0x8000_0000,
        two_pow(32) == 0x1_0000_0000,
        two_pow(39) == 0x80_0000_0000,
        two_pow(40) == 0x100_0000_0000,
        two_pow(63) == 0x8000_0000_0000_0000,
{
    reveal_with_fuel(two_pow, 9);
    assert(two_pow(7) == 128);
    assert(two_pow(8) == 256);
    lemma_two_pow_add(8, 7);
    assert(two_pow(15) == 0x8000);
    lemma_two_pow_add(8, 8);
    assert(two_pow(16) == 0x1_0000);
    lemma_two_pow_add(16, 7);
    assert(two_pow(23) == 0x80_0000);
    lemma_two_pow_add(16, 8);
    assert(two_pow(24) == 0x100_0000);
    lemma_two_pow_add(16, 9);
    assert(two_pow(9) == 512);
    assert(two_pow(25) == 0x200_0000);
    lemma_two_pow_add(16, 16);
    assert(two_pow(32) == 0x1_0000_0000);
    lemma_two_pow_add(32, 7);
    assert(two_pow(39) == 0x80_0000_0000);
    lemma_two_pow_add(32, 8);
    assert(two_pow(40) == 0x100_0000_0000);
    lemma_two_pow_add(16, 15);
    assert(two_pow(31) == 0x8000_0000);
    lemma_two_pow_add(32, 31);
    assert(two_pow(63) == 0x8000_0000_0000_0000);
}

/// `2^k` as a `u64`, for `k < 64`.
fn two_pow_u64(k: u64) -> (r: u64)
    requires
        k < 64,
    ensures
        r == two_pow(k as nat),
{
    let mut p: u64 = 1;
    let mut i: u64 = 0;
    proof {
        lemma_two_pow_constants();
    }
    while i < k
        invariant
            i <= k < 64,
            p == two_pow(i as nat),
            two_pow(63) == 0x8000_0000_0000_0000,
        decreases k - i,
    {
        proof {
            lemma_two_pow_monotone(i as nat + 1, 63);
        }
        p = p * 2;
        i = i + 1;
    }
    p
}

/// `v.round() as i64` for the `f32` `v` with bit pattern `b`.
pub fn round_f32_bits_to_i64(b: u32) -> (r: i64)
    ensures
        r == f32_round_to_i64(b),
{
    let e = (b / 0x80_0000) % 256;
    let frac = b % 0x80_0000;
    let neg = b >= 0x8000_0000;
    if e == 255 {
        if frac != 0 {
            return 0;
        }
        return if neg {
            i64::MIN
        } else {
            i64::MAX
        };
    }
    let m: u64 = if e == 0 {
        frac as u64
    } else {
        frac as u64 + 0x80_0000
    };
    let k: u64 = if e == 0 {
        1
    } else {
        e as u64
    };
    assert(m == f32_significand(b) && k == f32_scale(b));
    assert(m < 0x100_0000);
    let mag: u64;
    if k >= 150 {
        let s = k - 150;
        if s >= 40 {
            proof {
                lemma_two_pow_monotone(40, s as nat);
                lemma_two_pow_constants();
                assert(m * two_pow(s as nat) >= 0x80_0000 * 0x100_0000_0000) by (nonlinear_arith)
                    requires
                        m >= 0x80_0000,
                        two_pow(s as nat) >= 0x100_0000_0000,
                ;
            }
            return if neg {
                i64::MIN
            } else {
                i64::MAX
            };
        }
        let p = two_pow_u64(s);
        proof {
            lemma_two_pow_monotone(s as nat, 39);
            lemma_two_pow_constants();
            assert(m * p < 0x100_0000 * 0x80_0000_0000) by (nonlinear_arith)
                requires
                    m < 0x100_0000,
                    p <= 0x80_0000_0000,
            ;
        }
        mag = m * p;
    } else {
        let s = 150 - k;
        if s >= 25 {
            proof {
                lemma_two_pow_monotone(25, s as nat);
                lemma_two_pow_constants();
                assert(two_pow((151 - k) as nat) == 2 * two_pow(s as nat));
                let q = two_pow((151 - k) as nat) as int;
                assert(0 <= 2 * m + two_pow(s as nat) < q);
                assert((2 * m + two_pow(s as nat)) / q == 0) by (nonlinear_arith)
                    requires
                        0 <= 2 * m + two_pow(s as nat) < q,
                ;
            }
            mag = 0;
        } else {
            let p = two_pow_u64(s);
            proof {
                lemma_two_pow_monotone(s as nat, 24);
                lemma_two_pow_constants();
                assert(two_pow((151 - k) as nat) == 2 * two_pow(s as nat));
                lemma_two_pow_positive(s as nat);
            }
            mag = (2 * m + p) / (2 * p);
        }
    }
    assert(mag == f32_rounded_magnitude(b));
    assert(mag < 0x8000_0000_0000_0000);
    if neg {
        -(mag as i64)
    } else {
        mag as i64
    }
}

/// `n as f32`: the bit pattern of the `f32` nearest `n`, ties to even.
pub fn u32_to_f32_bits(n: u32) -> (r: u32)
    ensures
        f32_bits_is_integer(r, u32_nearest_f32(n as nat) as int),
        u32_nearest_f32(n as nat) <= 0x1_0000_0000,
{
    if n == 0 {
        proof {
            assert(floor_log2(0) == 0);
            assert(f32_exponent_field(0) == 0 && f32_fraction_field(0) == 0);
            assert(f32_scale(0) == 1 && f32_significand(0) == 0);
            assert(0 == 0 * two_pow(149)) by (nonlinear_arith);
        }
        return 0;
    }
    let mut e: u64 = 0;
    let mut p: u64 = 1;
    while p * 2 <= n as u64
        invariant
            1 <= p <= n,
            p == two_pow(e as nat),
            e < 32,
        decreases n - p,
    {
        proof {
            if e + 1 >= 32 {
                lemma_two_pow_monotone(32, e as nat + 1);
                lemma_two_pow_constants();
            }
        }
        p = p * 2;
        e = e + 1;
    }
    proof {
        lemma_floor_log2_unique(n as nat, e as nat);
    }
    let k: u64;
    let m: u64;
    if e <= 23 {
        let scale = two_pow_u64(23 - e);
        proof {
            lemma_two_pow_add(e as nat, (23 - e) as nat);
            lemma_two_pow_constants();
            lemma_two_pow_constants();
            assert(0x80_0000 <= n * scale < 0x100_0000) by (nonlinear_arith)
                requires
                    p <= n < 2 * p,
                    p * scale == 0x80_0000,
            ;
        }
        m = n as u64 * scale;
        k = 127 + e;
        assert(150 - k == 23 - e);
        assert(u32_nearest_f32(n as nat) == n);
        assert(m == u32_nearest_f32(n as nat) * two_pow((150 - k) as nat));
        proof {
            if k >= 150 {
                assert(two_pow(0) == 1);
                assert(e == 23 && scale == 1);
                assert(m == n) by (nonlinear_arith)
                    requires
                        m == n * scale,
                        scale == 1,
                ;
                assert(m * two_pow((k - 150) as nat) == u32_nearest_f32(n as nat));
            }
        }
    } else {
        let s = e - 23;
        let ps = two_pow_u64(s);
        proof {
            lemma_two_pow_add(s as nat, 23);
            lemma_two_pow_constants();
            lemma_two_pow_positive(s as nat);
        }
        let q = n as u64 / ps;
        let rem = n as u64 % ps;
        let h = ps / 2;
        proof {
            assert(0x80_0000 <= q < 0x100_0000) by (nonlinear_arith)
                requires
                    p <= n < 2 * p,
                    p == ps * 0x80_0000,
                    ps >= 1,
                    q == n as int / ps as int,
            ;
        }
        let q2 = if rem > h || (rem == h && q % 2 == 1) {
            q + 1
        } else {
            q
        };
        assert(floor_log2(n as nat) == e);
        assert(u32_nearest_f32(n as nat) == q2 * ps);
        proof {
            assert(q2 * ps <= 0x100_0000 * ps) by (nonlinear_arith)
                requires
                    q2 <= 0x100_0000,
                    ps >= 1,
            ;
            assert(0x100_0000 * ps == 2 * p);
            lemma_two_pow_monotone(e as nat, 31);
            lemma_two_pow_constants();
        }
        if q2 == 0x100_0000 {
            m = 0x80_0000;
            k = 127 + e + 1;
            proof {
                lemma_two_pow_add(1, s as nat);
                assert(two_pow((k - 150) as nat) == 2 * ps);
                assert(m * (2 * ps) == q2 * ps) by (nonlinear_arith)
                    requires
                        m == 0x80_0000,
                        q2 == 0x100_0000,
                ;
                assert(m * two_pow((k - 150) as nat) == u32_nearest_f32(n as nat));
            }
        } else {
            m = q2;
            k = 127 + e;
            assert(k - 150 == s);
            assert(m * two_pow((k - 150) as nat) == u32_nearest_f32(n as nat));
        }
    }
    let r = (k as u32) * 0x80_0000 + (m as u32 - 0x80_0000);
    proof {
        let f = m - 0x80_0000;
        assert(r / 0x80_0000 == k && r % 0x80_0000 == f) by (nonlinear_arith)
            requires
                r == k * 0x80_0000 + f,
                0 <= f < 0x80_0000,
        ;
        assert(f32_exponent_field(r) == k);
        assert(f32_fraction_field(r) == f);
        assert(f32_significand(r) == m);
        assert(f32_scale(r) == k);
        assert(!f32_sign_set(r));
    }
    r
}

/// A pattern that stands for a small non-negative integer rounds to it.
pub proof fn lemma_integer_bits_round(b: u32, v: int)
    requires
        f32_bits_is_integer(b, v),
        0 <= v <= i64::MAX,
    ensures
        f32_round_to_i64(b) == v,
{
    let m = f32_significand(b);
    let k = f32_scale(b);
    if k < 150 {
        let s = (150 - k) as nat;
        let ps = two_pow(s);
        lemma_two_pow_positive(s);
        assert(two_pow((151 - k) as nat) == 2 * ps);
        assert((2 * m + ps) / (2 * ps as int) == v) by (nonlinear_arith)
            requires
                m == v * ps,
                ps >= 1,
                v >= 0,
        ;
    }
}

/// Integers below `2^24` are `f32`s exactly.
pub proof fn lemma_nearest_small(n: nat)
    requires
        n < 0x100_0000,
    ensures
        u32_nearest_f32(n) == n,
{
    lemma_two_pow_constants();
    if n >= 1 {
        lemma_floor_log2_bounds(n);
        if floor_log2(n) >= 24 {
            lemma_two_pow_monotone(24, floor_log2(n));
        }
    }
}

/// `round() as i64` always gives an `i64`.
pub proof fn lemma_round_in_range(b: u32)
    ensures
        i64::MIN <= f32_round_to_i64(b) <= i64::MAX,
{
    let m = f32_significand(b);
    let k = f32_scale(b);
    if f32_exponent_field(b) != 255 {
        if k >= 150 {
            lemma_two_pow_positive((k - 150) as nat);
            assert(m * two_pow((k - 150) as nat) >= 0) by (nonlinear_arith)
                requires
                    m >= 0,
                    two_pow((k - 150) as nat) >= 1,
            ;
        } else {
            lemma_two_pow_positive((150 - k) as nat);
            lemma_two_pow_positive((151 - k) as nat);
            let d = two_pow((151 - k) as nat) as int;
            assert((2 * m + two_pow((150 - k) as nat)) / d >= 0) by (nonlinear_arith)
                requires
                    m >= 0,
                    d >= 1,
                    two_pow((150 - k) as nat) >= 1,
            ;
        }
    }
}

} // verus!
