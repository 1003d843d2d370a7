//! Laws of numbers.

use crate::double::{
    above_zero, finite, lemma_rounded, lemma_rounded_is_nearest, lemma_rounded_ordered, lemma_units_increase,
    lemma_units_step, magnitude, of_integer, one, ones, rounded, tenfold, to_tenths, truncated, units, whole_nearest,
    with_sign, BINADE, INFINITY, SIGN,
};
use crate::json::{number_double, Number};
use vstd::arithmetic::power2::{
    lemma2_to64, lemma2_to64_rest, lemma_pow2_pos, lemma_pow2_strictly_increases, lemma_pow2_unfold,
    pow2,
};
use vstd::prelude::*;

verus! {

/// Some magnitude is exactly `q` steps of 2^k units.
proof fn lemma_exact(q: nat, k: nat) -> (m: u64)
    requires
        0 < q < 2 * BINADE,
        k <= 2045,
    ensures
        m < INFINITY,
        units(m as int) == q * pow2(k),
    decreases k,
{
    if q >= BINADE || k == 0 {
        lemma_units_step(k, q);
        (k * BINADE + q) as u64
    } else {
        lemma_pow2_unfold(k);
        let h = pow2((k - 1) as nat);
        assert((2 * q) * h == q * (2 * h)) by (nonlinear_arith);
        lemma_exact(2 * q, (k - 1) as nat)
    }
}

/// A number that some magnitude is exactly rounds to that magnitude.
proof fn lemma_exact_rounds(m: u64, x: nat)
    requires
        m < INFINITY,
        units(m as int) == x,
    ensures
        rounded(x, 1) == m,
{
    if m > 0 {
        lemma_units_increase(m - 1, m as int);
    }
    lemma_units_increase(m as int, m + 1);
    lemma_rounded(m, x, 1);
}

/// An integer below 2^53 is exactly a double.
proof fn lemma_integer_exact(n: nat)
    requires
        n < 2 * BINADE,
    ensures
        units(rounded(n * one(), 1) as int) == n * one(),
        rounded(n * one(), 1) < INFINITY,
{
    if n == 0 {
        assert(units(0) == 0);
        assert(n * one() == 0) by (nonlinear_arith)
            requires
                n == 0,
        ;
        lemma_exact_rounds(0, 0);
    } else {
        let m = lemma_exact(n, 1074);
        lemma_exact_rounds(m, n * one());
    }
}

/// An integer of at most 53 bits is not changed by being read as a double: its whole part is
/// the integer.
pub proof fn law_integers_are_exact(n: int)
    requires
        -2 * BINADE < n < 2 * BINADE,
    ensures
        truncated(of_integer(n)) == n,
{
    let size: nat = if n < 0 {
        (-n) as nat
    } else {
        n as nat
    };
    lemma_integer_exact(size);
    lemma_pow2_pos(1074);
    vstd::arithmetic::div_mod::lemma_div_by_multiple(size as int, one() as int);
}

/// Rounding does not cross a magnitude.
proof fn lemma_rounding_stays(m: u64, x: nat)
    requires
        m < INFINITY,
    ensures
        x <= units(m as int) ==> rounded(x, 1) <= m,
        x >= units(m as int) ==> rounded(x, 1) >= m,
{
    let t = rounded(x, 1);
    lemma_rounded_is_nearest(x, 1);
    if x <= units(m as int) && t > m {
        if t - 1 > m {
            lemma_units_increase(m as int, t - 1);
        }
        lemma_units_increase(m as int, t as int);
    }
    if x >= units(m as int) && t < m {
        if t + 1 < m {
            lemma_units_increase(t + 1, m as int);
        }
        lemma_units_increase(t as int, m as int);
    }
}

/// Below 2^48 two neighbouring doubles are at most a thirty-second apart.
proof fn lemma_gap(m: int)
    requires
        0 <= m < 1071 * BINADE,
    ensures
        units(m) < units(m + 1) <= units(m) + pow2(1069),
{
    let e = m / BINADE as int;
    let f = m % BINADE as int;
    let k: nat = if e > 0 {
        (e - 1) as nat
    } else {
        0
    };
    let q: nat = if e > 0 {
        (f + BINADE) as nat
    } else {
        f as nat
    };
    assert(m == k * BINADE + q);
    lemma_units_step(k, q);
    lemma_units_step(k, q + 1);
    lemma_pow2_pos(k);
    if k < 1069 {
        lemma_pow2_strictly_increases(k, 1069);
    }
    assert((q + 1) * pow2(k) == q * pow2(k) + pow2(k)) by (nonlinear_arith);
}

/// Ten times a reading at most a quarter of a tenth above `n` tenths is, as a double computes
/// it, less than half above `n`.
proof fn lemma_below_half(bits: u64, n: nat)
    requires
        n < 0x8_0000_0000_0000,
        40 * units(magnitude(bits) as int) <= (4 * n + 1) * one(),
    ensures
        2 * units(tenfold(bits) as int) < (2 * n + 1) * one(),
{
    let u = units(magnitude(bits) as int);
    let o = one();
    let quarter = pow2(1072);
    let t = tenfold(bits);
    lemma2_to64();
    lemma_pow2_pos(1072);
    lemma_pow2_unfold(1074);
    lemma_pow2_unfold(1073);
    assert(o == 4 * quarter);
    let high = lemma_exact(4 * n + 1, 1072);
    assert((4 * n + 1) * o == 4 * ((4 * n + 1) * quarter)) by (nonlinear_arith)
        requires
            o == 4 * quarter,
    ;
    lemma_rounding_stays(high, 10 * u);
    if t < high {
        lemma_units_increase(t as int, high as int);
    }
    assert(2 * ((4 * n + 1) * quarter) < (2 * n + 1) * o) by (nonlinear_arith)
        requires
            o == 4 * quarter,
            quarter > 0,
    ;
}

/// Noise past the first decimal is not a change: every reading less than half a tenth away from
/// `n` tenths is reported as the double closest to `n` tenths. The one exception is a reading so
/// close to the next half that ten times it, as a double computes it, is that half.
pub proof fn law_noise_is_not_a_change(bits: u64, n: nat)
    requires
        finite(bits),
        n < BINADE,
        (2 * n - 1) * one() <= 20 * units(magnitude(bits) as int) < (2 * n + 1) * one(),
        2 * units(tenfold(bits) as int) != (2 * n + 1) * one(),
    ensures
        to_tenths(bits) == with_sign(bits >= SIGN, rounded(n * one(), 10)),
{
    let u = units(magnitude(bits) as int);
    let o = one();
    let half = pow2(1073);
    let t = tenfold(bits);
    lemma2_to64();
    lemma_pow2_pos(1073);
    lemma_pow2_unfold(1074);
    assert(o == 2 * half);
    let high = lemma_exact(2 * n + 1, 1073);
    assert((2 * n + 1) * o == 2 * ((2 * n + 1) * half)) by (nonlinear_arith)
        requires
            o == 2 * half,
    ;
    lemma_rounding_stays(high, 10 * u);
    if t < high {
        lemma_units_increase(t as int, high as int);
    }
    let ut = units(t as int);
    assert((2 * n - 1) * o == 2 * ((2 * n - 1) * half)) by (nonlinear_arith)
        requires
            o == 2 * half,
    ;
    if n > 0 {
        let low = lemma_exact((2 * n - 1) as nat, 1073);
        lemma_rounding_stays(low, 10 * u);
        if low < t {
            lemma_units_increase(low as int, t as int);
        }
    } else {
        assert((2 * n - 1) * half <= 0) by (nonlinear_arith)
            requires
                n == 0,
        ;
    }
    assert((2 * n - 1) * half <= ut < (2 * n + 1) * half);
    let r = 2 * ut + o - n * (2 * o);
    assert(0 <= r < 2 * o) by (nonlinear_arith)
        requires
            (2 * n - 1) * half <= ut < (2 * n + 1) * half,
            o == 2 * half,
            half > 0,
            r == 2 * ut + o - n * (2 * o),
    ;
    vstd::arithmetic::div_mod::lemma_fundamental_div_mod_converse(
        (2 * ut + o) as int,
        (2 * o) as int,
        n as int,
        r,
    );
    assert(whole_nearest(t) == n);
}

/// A reading that is a tenth already, as far as a double can be one, is kept.
pub proof fn law_tenths_are_kept(n: nat, negative: bool)
    requires
        n < 0x8_0000_0000_0000,
    ensures
        to_tenths(with_sign(negative, rounded(n * one(), 10))) == with_sign(
            negative,
            rounded(n * one(), 10),
        ),
{
    let x = n * one();
    let o = one();
    let d = rounded(x, 10);
    let step = pow2(1069);
    let top: u64 = (1071 * BINADE) as u64;
    lemma_rounded_is_nearest(x, 10);
    lemma2_to64();
    lemma_pow2_pos(1069);
    lemma_pow2_unfold(1074);
    lemma_pow2_unfold(1073);
    lemma_pow2_unfold(1072);
    lemma_pow2_unfold(1071);
    lemma_pow2_unfold(1070);
    assert(o == 32 * step);
    lemma_units_step(1070, BINADE as nat);
    assert(units(top as int) == BINADE as nat * (2 * step));
    assert(x < 0x8_0000_0000_0000 * o) by (nonlinear_arith)
        requires
            x == n * o,
            n < 0x8_0000_0000_0000,
            o > 0,
    ;
    if d >= top {
        lemma_gap(top - 1);
        if d > top {
            lemma_units_increase(top as int, d as int);
            lemma_units_increase(top - 1, d - 1);
        }
    }
    lemma_gap(d as int);
    if d > 0 {
        lemma_gap(d - 1);
    } else {
        assert(units(0) == 0);
    }
    let u = units(d as int);
    let bits = with_sign(negative, d);
    assert(magnitude(bits) == d);
    assert((4 * n + 1) * o == 4 * x + o) by (nonlinear_arith)
        requires
            x == n * o,
    ;
    assert((2 * n + 1) * o == 2 * x + o && (2 * n - 1) * o == 2 * x - o) by (nonlinear_arith)
        requires
            x == n * o,
    ;
    lemma_below_half(bits, n);
    law_noise_is_not_a_change(bits, n);
}

// ---------------------------------------------------------------------------------------
// Rounding to tenths
// ---------------------------------------------------------------------------------------

/// What a double amounts to, in units of 2^-1074.
pub open spec fn amount(bits: u64) -> int {
    if bits >= SIGN {
        -units(magnitude(bits) as int)
    } else {
        units(magnitude(bits) as int) as int
    }
}

/// How far apart two amounts are.
pub open spec fn distance(a: int, b: int) -> int {
    if a <= b {
        b - a
    } else {
        a - b
    }
}

/// A magnitude to one decimal.
spec fn magnitude_to_tenths(m: u64) -> u64 {
    magnitude(to_tenths(m))
}

/// Rounding to tenths is rounding the magnitude and keeping the sign.
proof fn lemma_sign_is_kept(bits: u64)
    requires
        finite(bits),
    ensures
        to_tenths(bits) == with_sign(bits >= SIGN, magnitude_to_tenths(magnitude(bits))),
        magnitude_to_tenths(magnitude(bits)) <= INFINITY,
        magnitude(to_tenths(bits)) == magnitude_to_tenths(magnitude(bits)),
        to_tenths(bits) >= SIGN <==> bits >= SIGN,
{
    let m = magnitude(bits);
    assert(magnitude(m) == m);
    lemma_rounded_is_nearest(whole_nearest(tenfold(bits)) * one(), 10);
}

/// A larger magnitude is not smaller to one decimal.
proof fn lemma_magnitudes_ordered(a: u64, b: u64)
    requires
        a <= b < INFINITY,
    ensures
        magnitude_to_tenths(a) <= magnitude_to_tenths(b),
{
    let (s, t) = (tenfold(a), tenfold(b));
    lemma_sign_is_kept(a);
    lemma_sign_is_kept(b);
    if a < b {
        lemma_units_increase(a as int, b as int);
    }
    lemma_rounded_ordered(10 * units(a as int), 10 * units(b as int), 1);
    lemma_rounded_is_nearest(10 * units(b as int), 1);
    if s < t {
        lemma_units_increase(s as int, t as int);
    }
    if t < INFINITY {
        let o = one();
        lemma_pow2_pos(1074);
        let (x, y) = (2 * units(s as int) + o, 2 * units(t as int) + o);
        vstd::arithmetic::div_mod::lemma_div_is_ordered(x as int, y as int, 2 * o as int);
        let (v, w) = (whole_nearest(s), whole_nearest(t));
        assert(v * o <= w * o) by (nonlinear_arith)
            requires
                v <= w,
        ;
        lemma_rounded_ordered(v * o, w * o, 10);
    }
}

/// Equal or larger units are an equal or larger magnitude.
proof fn lemma_magnitude_of_units(a: u64, b: u64)
    requires
        units(a as int) <= units(b as int),
    ensures
        a <= b,
{
    if b < a {
        lemma_units_increase(b as int, a as int);
    }
}

/// Rounding to tenths keeps the order: of two readings the larger one is not reported as the
/// smaller.
pub proof fn law_tenths_keep_the_order(c: u64, d: u64)
    requires
        finite(c),
        finite(d),
        amount(c) <= amount(d),
    ensures
        amount(to_tenths(c)) <= amount(to_tenths(d)),
{
    let (a, b) = (magnitude(c), magnitude(d));
    lemma_sign_is_kept(c);
    lemma_sign_is_kept(d);
    let (x, y) = (magnitude_to_tenths(a), magnitude_to_tenths(b));
    if c < SIGN && d < SIGN {
        lemma_magnitude_of_units(a, b);
        lemma_magnitudes_ordered(a, b);
        if x < y {
            lemma_units_increase(x as int, y as int);
        }
    } else if c >= SIGN && d >= SIGN {
        lemma_magnitude_of_units(b, a);
        lemma_magnitudes_ordered(b, a);
        if y < x {
            lemma_units_increase(y as int, x as int);
        }
    } else if c < SIGN {
        assert(units(0) == 0);
        lemma_magnitude_of_units(a, 0);
        lemma_magnitude_of_units(b, 0);
        lemma_magnitudes_ordered(a, b);
        lemma_zero_to_tenths();
    }
}

/// Zero is zero to one decimal.
proof fn lemma_zero_to_tenths()
    ensures
        magnitude_to_tenths(0) == 0,
{
    let o = one();
    lemma_pow2_pos(1074);
    assert(units(0) == 0);
    assert(magnitude(0) == 0);
    lemma_exact_rounds(0, 0);
    assert(tenfold(0) == 0);
    vstd::arithmetic::div_mod::lemma_fundamental_div_mod_converse(
        o as int,
        2 * o as int,
        0,
        o as int,
    );
    assert(whole_nearest(0) == 0);
    assert(0 * o == 0);
    lemma_zero_rounds();
}

proof fn lemma_zero_rounds()
    ensures
        rounded(0, 10) == 0,
{
    assert(units(0) == 0);
    lemma_units_increase(0, 1);
    assert(0 <= (units(0) + units(1)) * 10);
    lemma_rounded(0, 0, 10);
}

/// How far the next magnitude is: one unit among the smallest, at most one part in 2^52
/// elsewhere.
proof fn lemma_next(m: int)
    requires
        0 <= m,
    ensures
        units(m) < units(m + 1),
        m < BINADE ==> units(m + 1) == units(m) + 1,
        m >= BINADE ==> BINADE * (units(m + 1) - units(m)) <= units(m),
{
    let e = m / BINADE as int;
    let f = m % BINADE as int;
    let k: nat = if e > 0 {
        (e - 1) as nat
    } else {
        0
    };
    let q: nat = if e > 0 {
        (f + BINADE) as nat
    } else {
        f as nat
    };
    assert(m == k * BINADE + q);
    lemma2_to64();
    lemma_units_step(k, q);
    lemma_units_step(k, q + 1);
    lemma_pow2_pos(k);
    let p = pow2(k);
    assert((q + 1) * p == q * p + p) by (nonlinear_arith);
    if m >= BINADE {
        let b = BINADE as nat;
        assert(b * p <= q * p) by (nonlinear_arith)
            requires
                b <= q,
        ;
    }
}

/// Rounding is off by at most one part in 2^53. A fraction of the smallest numbers is left out:
/// there the units themselves are too coarse.
proof fn lemma_rounding_error(x: nat, den: nat)
    requires
        den > 0,
        den == 1 || BINADE * den <= x,
        rounded(x, den) < INFINITY,
    ensures
        2 * BINADE * distance((units(rounded(x, den) as int) * den) as int, x as int) <= x,
{
    let m = rounded(x, den);
    let u = units(m as int);
    lemma_rounded_is_nearest(x, den);
    lemma_next(m as int);
    let v = units(m + 1);
    let off = distance((u * den) as int, x as int);
    if x >= u * den {
        let e = (x - u * den) as nat;
        assert(off == e);
        let g = (v - u) as nat;
        assert(2 * e <= g * den) by (nonlinear_arith)
            requires
                2 * x <= (u + v) * den,
                e == x - u * den,
                g == v - u,
        ;
        if m >= BINADE {
            assert(2 * BINADE * e <= x) by (nonlinear_arith)
                requires
                    2 * e <= g * den,
                    BINADE * g <= u,
                    u * den <= x,
                    den > 0,
            ;
        } else if den == 1 {
            assert(e == 0);
        } else {
            assert(g == 1);
            assert(2 * BINADE * e <= x) by (nonlinear_arith)
                requires
                    2 * e <= g * den,
                    g == 1,
                    BINADE * den <= x,
            ;
        }
    } else {
        assert(m > 0) by {
            assert(units(0) == 0);
            assert(0 * den == 0);
        }
        lemma_next(m - 1);
        let l = units(m - 1);
        let e = (u * den - x) as nat;
        assert(off == e);
        let g = (u - l) as nat;
        assert(2 * e <= g * den) by (nonlinear_arith)
            requires
                (l + u) * den <= 2 * x,
                e == u * den - x,
                g == u - l,
        ;
        if m - 1 >= BINADE {
            assert(2 * BINADE * e <= x) by (nonlinear_arith)
                requires
                    2 * e <= g * den,
                    BINADE * g <= l,
                    (l + u) * den <= 2 * x,
                    l <= u,
                    den > 0,
            ;
        } else if den == 1 {
            assert(e == 0);
        } else {
            assert(2 * BINADE * e <= x) by (nonlinear_arith)
                requires
                    2 * e <= g * den,
                    g == 1,
                    BINADE * den <= x,
            ;
        }
    }
}

/// The nearest whole number is at most a half away.
proof fn lemma_whole_error(m: u64)
    ensures
        2 * distance((whole_nearest(m) * one()) as int, units(m as int) as int) <= one(),
{
    let o = one();
    let x = 2 * units(m as int) + o;
    let w = whole_nearest(m);
    lemma_pow2_pos(1074);
    vstd::arithmetic::div_mod::lemma_fundamental_div_mod(x as int, 2 * o as int);
    assert((2 * o) * w == 2 * (w * o)) by (nonlinear_arith);
}

/// Tenths of anything that did not overflow do not either.
proof fn lemma_tenths_are_finite(t: u64)
    requires
        t < INFINITY,
    ensures
        rounded(whole_nearest(t) * one(), 10) < INFINITY,
{
    let o = one();
    let x = whole_nearest(t) * o;
    let top: int = INFINITY - 1;
    lemma_rounded_is_nearest(x, 10);
    lemma_whole_error(t);
    let unit = lemma_exact(1, 1074);
    assert(1 * o == o);
    lemma_pow2_pos(1074);
    if unit < top {
        lemma_units_increase(unit as int, top);
    }
    if t < top {
        lemma_units_increase(t as int, top);
    }
    lemma_units_increase(top, INFINITY as int);
}

/// Rounding to tenths moves a reading by at most half a tenth and what the arithmetic of doubles
/// adds to that: a part in 2^52 of half a tenth and of one and a half times the reading. Between
/// -1000 and 1000 that is at most 0.050000001.
pub proof fn law_tenths_are_close(bits: u64)
    requires
        finite(bits),
    ensures
        tenfold(bits) < INFINITY ==> 20 * BINADE * distance(amount(to_tenths(bits)), amount(bits))
            <= BINADE * one() + one() + 30 * units(magnitude(bits) as int),
        units(magnitude(bits) as int) <= 1000 * one() ==> 1_000_000_000 * distance(
            amount(to_tenths(bits)),
            amount(bits),
        ) <= 50_000_001 * one(),
{
    let m = magnitude(bits);
    let u = units(m as int);
    let o = one();
    let t = tenfold(bits);
    lemma_sign_is_kept(bits);
    if u <= 1000 * o {
        let high = lemma_exact(10_000, 1074);
        lemma_rounding_stays(high, 10 * u);
    }
    if t < INFINITY {
        let ut = units(t as int);
        let w = whole_nearest(t);
        let x = w * o;
        let d = rounded(x, 10);
        let ud = units(d as int);
        assert(magnitude(m) == m);
        lemma_rounded_is_nearest(x, 10);
        assert(d == magnitude_to_tenths(m));
        lemma_rounding_error(10 * u, 1);
        lemma_whole_error(t);
        lemma_tenths_are_finite(t);
        lemma_pow2_pos(1074);
        if w == 0 {
            assert(x == 0) by (nonlinear_arith)
                requires
                    w == 0,
                    x == w * o,
            ;
            lemma_zero_rounds();
            assert(units(0) == 0);
        } else {
            assert(o <= x) by (nonlinear_arith)
                requires
                    w >= 1,
                    x == w * o,
            ;
            lemma2_to64();
            lemma2_to64_rest();
            lemma_pow2_strictly_increases(56, 1074);
            lemma_rounding_error(x, 10);
        }
        assert(2 * BINADE * distance((10 * ud) as int, x as int) <= x);
        let off = distance(ud as int, u as int);
        assert(distance(amount(to_tenths(bits)), amount(bits)) == off);
        let a = distance(ut as int, (10 * u) as int);
        let b = distance(x as int, ut as int);
        let c = distance((10 * ud) as int, x as int);
        assert(10 * off <= a + b + c);
        assert(2 * BINADE * a <= 10 * u);
        assert(2 * b <= o);
        assert(2 * BINADE * c <= x);
        assert(x <= 10 * u + a + b);
        assert(a <= 10 * u);
        assert(20 * BINADE * off <= BINADE * o + o + 30 * u) by (nonlinear_arith)
            requires
                10 * off <= a + b + c,
                2 * BINADE * a <= 10 * u,
                2 * b <= o,
                2 * BINADE * c <= x,
                x <= 10 * u + a + b,
                a <= 10 * u,
                0 <= u,
                0 <= o,
        ;
    }
}

/// Rounding to tenths once is enough: what has been reported is reported the same again. This is
/// stated up to 2^51 tenths.
pub proof fn law_tenths_once_is_enough(bits: u64)
    requires
        finite(bits),
        10 * units(magnitude(bits) as int) < 0x7_FFFF_FFFF_FFFF * one(),
    ensures
        to_tenths(to_tenths(bits)) == to_tenths(bits),
{
    let u = units(magnitude(bits) as int);
    let o = one();
    let t = tenfold(bits);
    let high = lemma_exact(0x7_FFFF_FFFF_FFFF, 1074);
    lemma_rounding_stays(high, 10 * u);
    if t < high {
        lemma_units_increase(t as int, high as int);
    }
    let w = whole_nearest(t);
    lemma_whole_error(t);
    lemma_pow2_pos(1074);
    assert(w < 0x8_0000_0000_0000) by (nonlinear_arith)
        requires
            2 * (w * o) <= 2 * (0x7_FFFF_FFFF_FFFF * o) + o,
            o > 0,
    ;
    law_tenths_are_kept(w, bits >= SIGN);
}

/// Halves go away from zero: where ten times a reading, as a double computes it, is exactly half
/// above `n`, it is reported as `n + 1` tenths.
pub proof fn law_halves_go_away_from_zero(bits: u64, n: nat)
    requires
        finite(bits),
        tenfold(bits) < INFINITY,
        2 * units(tenfold(bits) as int) == (2 * n + 1) * one(),
    ensures
        to_tenths(bits) == with_sign(bits >= SIGN, rounded((n + 1) * one(), 10)),
{
    let o = one();
    let ut = units(tenfold(bits) as int);
    lemma_pow2_pos(1074);
    assert(2 * ut + o == (n + 1) * (2 * o)) by (nonlinear_arith)
        requires
            2 * ut == (2 * n + 1) * o,
    ;
    vstd::arithmetic::div_mod::lemma_fundamental_div_mod_converse(
        (2 * ut + o) as int,
        (2 * o) as int,
        (n + 1) as int,
        0,
    );
    assert(whole_nearest(tenfold(bits)) == n + 1);
}

/// What overflows stays infinite, with its sign.
pub proof fn law_overflow_is_infinite(bits: u64)
    requires
        finite(bits),
        tenfold(bits) == INFINITY,
    ensures
        to_tenths(bits) == with_sign(bits >= SIGN, INFINITY),
{
}

// ---------------------------------------------------------------------------------------
// Whole parts and signs
// ---------------------------------------------------------------------------------------

/// The whole part of a double is the integer next to it on the side of zero. Beyond the range of
/// 64 bits it is the end of the range, and of what is no number it is zero.
pub proof fn law_whole_part(bits: u64)
    ensures
        magnitude(bits) > INFINITY ==> truncated(bits) == 0,
        magnitude(bits) <= INFINITY ==> {
            let a = amount(bits);
            let t = truncated(bits) as int;
            let end = 0x8000_0000_0000_0000 * one();
            &&& 0 <= a < end ==> t * one() <= a < (t + 1) * one()
            &&& a >= end ==> t == 0x7FFF_FFFF_FFFF_FFFF
            &&& -end < a <= 0 ==> (t - 1) * one() < a <= t * one()
            &&& a <= -end ==> t == -0x8000_0000_0000_0000
        },
{
    let o = one();
    let u = units(magnitude(bits) as int);
    let q = ones(bits);
    lemma_pow2_pos(1074);
    vstd::arithmetic::div_mod::lemma_fundamental_div_mod(u as int, o as int);
    vstd::arithmetic::div_mod::lemma_mod_bound(u as int, o as int);
    assert(q * o <= u < (q + 1) * o) by (nonlinear_arith)
        requires
            u == o * q + u % o,
            0 <= u % o < o,
    ;
    assert(u < 0x8000_0000_0000_0000 * o ==> q < 0x8000_0000_0000_0000) by (nonlinear_arith)
        requires
            q * o <= u,
            o > 0,
    ;
    assert(u >= 0x8000_0000_0000_0000 * o ==> q >= 0x8000_0000_0000_0000) by (nonlinear_arith)
        requires
            u < (q + 1) * o,
            o > 0,
    ;
    assert((-q) * o == -(q * o) && (-q - 1) * o == -((q + 1) * o)) by (nonlinear_arith);
    assert(units(0) == 0);
    if magnitude(bits) > 0 {
        lemma_units_increase(0, magnitude(bits) as int);
    }
}

/// A double is above zero where it amounts to more than nothing.
pub proof fn law_above_zero(bits: u64)
    ensures
        magnitude(bits) > INFINITY ==> !above_zero(bits),
        magnitude(bits) <= INFINITY ==> (above_zero(bits) <==> amount(bits) > 0),
{
    assert(units(0) == 0);
    if magnitude(bits) > 0 {
        lemma_units_increase(0, magnitude(bits) as int);
    }
}

// ---------------------------------------------------------------------------------------
// Integers as doubles
// ---------------------------------------------------------------------------------------

/// A number that was written as a double is that double. One that was written as an integer is a
/// finite double with the integer's sign, and no double is closer to the integer.
pub proof fn law_numbers_are_read(n: Number, other: u64)
    ensures
        match n {
            Number::Float(d) => number_double(n) == d,
            Number::Unsigned(u) => {
                &&& finite(number_double(n).bits)
                &&& number_double(n).bits < SIGN
                &&& finite(other) ==> distance(amount(number_double(n).bits), u * one())
                    <= distance(amount(other), u * one())
            },
            Number::Signed(i) => {
                &&& finite(number_double(n).bits)
                &&& number_double(n).bits >= SIGN <==> i < 0
                &&& finite(other) ==> distance(amount(number_double(n).bits), i * one())
                    <= distance(amount(other), i * one())
            },
        },
{
    match n {
        Number::Float(d) => {},
        Number::Unsigned(u) => {
            lemma_closest(u as nat, other);
        },
        Number::Signed(i) => {
            if i < 0 {
                lemma_closest((-i) as nat, other);
                assert((-i) as nat * one() == -(i * one())) by (nonlinear_arith)
                    requires
                        i < 0,
                ;
            } else {
                lemma_closest(i as nat, other);
            }
        },
    }
}

/// Of two doubles that are equally close to an integer the one with an even last bit is it.
pub proof fn law_ties_go_to_even(n: u64, other: u64)
    requires
        finite(other),
        amount(other) != amount(number_double(Number::Unsigned(n)).bits),
        distance(amount(number_double(Number::Unsigned(n)).bits), n * one()) == distance(
            amount(other),
            n * one(),
        ),
    ensures
        number_double(Number::Unsigned(n)).bits % 2 == 0,
{
    let x = n as nat * one();
    let m = rounded(x, 1);
    let k = magnitude(other);
    lemma_closest(n as nat, other);
    lemma_rounded_is_nearest(x, 1);
    assert(units(0) == 0);
    if k < m {
        if k < m - 1 {
            lemma_units_increase(k as int, m - 1);
        }
        lemma_units_increase(m - 1, m as int);
    } else if k > m {
        if k > m + 1 {
            lemma_units_increase(m + 1, k as int);
        }
        lemma_units_increase(m as int, m + 1);
    }
    if m > 0 {
        lemma_units_increase(0, m as int);
        if m > 1 {
            lemma_units_increase(0, m - 1);
        }
    }
    if k > 0 {
        lemma_units_increase(0, k as int);
    }
}

/// The double that an integer rounds to is finite, and no other is closer.
proof fn lemma_closest(n: nat, other: u64)
    requires
        n <= u64::MAX,
    ensures
        rounded(n * one(), 1) < INFINITY,
        finite(other) ==> distance(units(rounded(n * one(), 1) as int) as int, (n * one()) as int)
            <= distance(amount(other), (n * one()) as int),
        finite(other) ==> distance(units(rounded(n * one(), 1) as int) as int, (n * one()) as int)
            <= distance(-amount(other), (n * one()) as int),
{
    let x = n * one();
    let m = rounded(x, 1);
    lemma_rounded_is_nearest(x, 1);
    let high = lemma_exact(0x10_0000_0000_0000, 1086);
    lemma2_to64();
    vstd::arithmetic::power2::lemma_pow2_adds(12, 1074);
    lemma_pow2_pos(1074);
    assert(x <= 0x10_0000_0000_0000 * pow2(1086)) by (nonlinear_arith)
        requires
            x == n * pow2(1074),
            n <= u64::MAX,
            pow2(1086) == 4096 * pow2(1074),
    ;
    lemma_rounding_stays(high, x);
    let k = magnitude(other);
    if k < m {
        if k < m - 1 {
            lemma_units_increase(k as int, m - 1);
        }
        lemma_units_increase(m - 1, m as int);
    } else if k > m {
        if k > m + 1 {
            lemma_units_increase(m + 1, k as int);
        }
        lemma_units_increase(m as int, m + 1);
    }
    assert(units(0) == 0);
    if m > 0 {
        lemma_units_increase(0, m as int);
        if m > 1 {
            lemma_units_increase(0, m - 1);
        }
    }
}

} // verus!
