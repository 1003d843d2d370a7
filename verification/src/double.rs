//! Double-precision numbers by their bit patterns.
//!
//! A temperature arrives as an IEEE 754 double. The driver only ever rounds it to tenths,
//! drops its fraction, or asks whether it is above zero, so a double is held here as its 64
//! bits and these operations are carried out in whole numbers.
//!
//! Every finite double is a whole multiple of the smallest positive one, 2^-1074. Counted in
//! those units, magnitudes are natural numbers, and rounding is a statement about them.

use vstd::arithmetic::power2::{
    lemma_pow2_adds, lemma_pow2_pos, lemma_pow2_strictly_increases, lemma_pow2_unfold, pow2,
};
use vstd::prelude::*;

verus! {

/// The bit that makes a double negative.
pub const SIGN: u64 = 0x8000_0000_0000_0000;

/// The magnitude of the infinities. Anything above it is not a number.
pub const INFINITY: u64 = 0x7FF0_0000_0000_0000;

/// 2^52: how many magnitudes share one exponent.
pub const BINADE: u64 = 0x10_0000_0000_0000;

/// The bits of a double without its sign.
pub open spec fn magnitude(bits: u64) -> u64 {
    if bits >= SIGN {
        (bits - SIGN) as u64
    } else {
        bits
    }
}

/// Whether a double is neither infinite nor a NaN.
pub open spec fn finite(bits: u64) -> bool {
    magnitude(bits) < INFINITY
}

/// A magnitude counted in units of 2^-1074. Infinity counts as the value that would follow
/// the largest finite double.
pub open spec fn units(magnitude: int) -> nat {
    let exponent = magnitude / BINADE as int;
    let fraction = magnitude % BINADE as int;
    if exponent <= 0 {
        fraction as nat
    } else {
        (fraction + BINADE) as nat * pow2((exponent - 1) as nat)
    }
}

/// How many units make one.
pub open spec fn one() -> nat {
    pow2(1074)
}

/// `m` is the magnitude closest to `num / den` units, the even one of two that are equally
/// close.
pub open spec fn nearest(m: u64, num: nat, den: nat) -> bool {
    &&& m <= INFINITY
    &&& m > 0 ==> (units(m - 1) + units(m as int)) * den <= 2 * num
    &&& m > 0 && (units(m - 1) + units(m as int)) * den == 2 * num ==> m % 2 == 0
    &&& m < INFINITY ==> 2 * num <= (units(m as int) + units(m + 1)) * den
    &&& m < INFINITY && 2 * num == (units(m as int) + units(m + 1)) * den ==> m % 2 == 0
}

/// `num / den` units as a double computes it: rounded to the nearest magnitude.
pub open spec fn rounded(num: nat, den: nat) -> u64 {
    choose|m: u64| nearest(m, num, den)
}

/// A magnitude given a sign.
pub open spec fn with_sign(negative: bool, m: u64) -> u64 {
    if negative {
        (SIGN + m) as u64
    } else {
        m
    }
}

/// How many whole ones the magnitude of a double holds.
pub open spec fn ones(bits: u64) -> nat {
    units(magnitude(bits) as int) / one()
}

/// A double as a 64-bit integer: its fraction dropped, held to the integer's range, and zero
/// for a NaN.
pub open spec fn truncated(bits: u64) -> i64 {
    if magnitude(bits) > INFINITY {
        0
    } else if bits >= SIGN {
        if ones(bits) > i64::MAX {
            i64::MIN
        } else {
            (-ones(bits)) as i64
        }
    } else {
        if ones(bits) > i64::MAX {
            i64::MAX
        } else {
            ones(bits) as i64
        }
    }
}

/// Whether a double is greater than zero.
pub open spec fn above_zero(bits: u64) -> bool {
    0 < bits <= INFINITY
}

/// The double closest to an integer.
pub open spec fn of_integer(n: int) -> u64 {
    if n < 0 {
        with_sign(true, rounded((-n) as nat * one(), 1))
    } else {
        rounded(n as nat * one(), 1)
    }
}

/// The whole number closest to a magnitude, the larger one of two that are equally close.
pub open spec fn whole_nearest(m: u64) -> nat {
    (2 * units(m as int) + one()) / (2 * one())
}

/// A finite double times ten, without its sign.
pub open spec fn tenfold(bits: u64) -> u64 {
    rounded(10 * units(magnitude(bits) as int), 1)
}

/// A double to one decimal: ten times it, taken to the nearest whole number, over ten. What
/// overflows stays infinite; what is not finite is kept.
pub open spec fn to_tenths(bits: u64) -> u64 {
    if !finite(bits) {
        bits
    } else if tenfold(bits) == INFINITY {
        with_sign(bits >= SIGN, INFINITY)
    } else {
        with_sign(bits >= SIGN, rounded(whole_nearest(tenfold(bits)) * one(), 10))
    }
}

/// `q` steps of 2^k units, for a `q` that fills the binade, is the magnitude `k * 2^52 + q`.
pub proof fn lemma_units_step(k: nat, q: nat)
    requires
        q <= 2 * BINADE,
        k > 0 ==> BINADE <= q,
    ensures
        units(k * BINADE + q) == q * pow2(k),
{
    let m: int = k * BINADE + q;
    lemma_pow2_unfold(k + 1);
    vstd::arithmetic::power2::lemma2_to64();
    if q < BINADE {
        assert(m / BINADE as int == 0);
        assert(m % BINADE as int == q);
    } else if q < 2 * BINADE {
        assert(m == (k + 1) * BINADE + (q - BINADE));
        assert(m / BINADE as int == k + 1);
        assert(m % BINADE as int == q - BINADE);
    } else {
        assert(m == (k + 2) * BINADE);
        assert(m / BINADE as int == k + 2);
        assert(m % BINADE as int == 0);
        assert((BINADE as nat) * pow2(k + 1) == (2 * BINADE as nat) * pow2(k)) by (nonlinear_arith)
            requires
                pow2(k + 1) == 2 * pow2(k),
        ;
    }
}

/// A larger magnitude is a larger number.
pub proof fn lemma_units_increase(a: int, b: int)
    requires
        0 <= a < b,
    ensures
        units(a) < units(b),
    decreases b - a,
{
    if a + 1 < b {
        lemma_units_increase(a, b - 1);
    }
    let c = b - 1;
    let e = c / BINADE as int;
    let f = c % BINADE as int;
    let k: nat = if e > 0 {
        (e - 1) as nat
    } else {
        0
    };
    let q: nat = if e > 0 {
        (f + BINADE) as nat
    } else {
        f as nat
    };
    assert(c == k * BINADE + q);
    lemma_units_step(k, q);
    lemma_units_step(k, q + 1);
    lemma_pow2_pos(k);
    assert(q * pow2(k) < (q + 1) * pow2(k)) by (nonlinear_arith)
        requires
            pow2(k) > 0,
    ;
}

/// Nearest magnitudes are in the order of what they are nearest to.
proof fn lemma_nearest_ordered(a: u64, b: u64, x: nat, y: nat, den: nat)
    requires
        den > 0,
        x >= y,
        nearest(a, x, den),
        nearest(b, y, den),
    ensures
        a >= b,
{
    if a < b {
        let low = units(a as int) + units(a + 1);
        let high = units(b - 1) + units(b as int);
        if a + 1 < b {
            lemma_units_increase(a as int, b - 1);
            lemma_units_increase(a + 1, b as int);
            assert(low * den < high * den) by (nonlinear_arith)
                requires
                    low < high,
                    den > 0,
            ;
        } else {
            assert(low == high);
        }
    }
}

/// The nearest magnitude is the rounded one.
pub proof fn lemma_rounded(m: u64, num: nat, den: nat)
    requires
        den > 0,
        nearest(m, num, den),
    ensures
        rounded(num, den) == m,
{
    lemma_nearest_ordered(m, rounded(num, den), num, num, den);
    lemma_nearest_ordered(rounded(num, den), m, num, num, den);
}

/// The largest magnitude up to `top` that is not above `num / den` units.
proof fn lemma_floor(num: nat, den: nat, top: u64) -> (m: u64)
    ensures
        m <= top,
        units(m as int) * den <= num,
        m < top ==> num < units(m + 1) * den,
    decreases top,
{
    if units(top as int) * den <= num {
        top
    } else {
        assert(units(0) == 0);
        assert(units(0) * den == 0) by (nonlinear_arith)
            requires
                units(0) == 0,
        ;
        lemma_floor(num, den, (top - 1) as u64)
    }
}

/// Some magnitude is nearest, and it is the rounded one.
pub proof fn lemma_rounded_is_nearest(num: nat, den: nat)
    requires
        den > 0,
    ensures
        nearest(rounded(num, den), num, den),
{
    let m = lemma_floor(num, den, INFINITY);
    let u = units(m as int);
    if m > 0 {
        lemma_units_increase(m - 1, m as int);
        let l = units(m - 1);
        assert((l + u) * den < 2 * (u * den)) by (nonlinear_arith)
            requires
                l < u,
                den > 0,
        ;
    }
    if m < INFINITY {
        let v = units(m + 1);
        let s = (u + v) * den;
        lemma_units_increase(m as int, m + 1);
        lemma_units_increase(m + 1, m + 2);
        let w = units(m + 2);
        assert(2 * (v * den) < (v + w) * den) by (nonlinear_arith)
            requires
                v < w,
                den > 0,
        ;
        if 2 * num < s || (2 * num == s && m % 2 == 0) {
            assert(nearest(m, num, den));
        } else {
            assert(nearest((m + 1) as u64, num, den));
        }
    } else {
        assert(nearest(m, num, den));
    }
}

/// Rounding keeps the order.
pub proof fn lemma_rounded_ordered(x: nat, y: nat, den: nat)
    requires
        den > 0,
        x <= y,
    ensures
        rounded(x, den) <= rounded(y, den),
{
    lemma_rounded_is_nearest(x, den);
    lemma_rounded_is_nearest(y, den);
    lemma_nearest_ordered(rounded(y, den), rounded(x, den), y, x, den);
}

/// Comparing `a * p / den` with `x / den0` when both sides are scaled by the same amount.
proof fn lemma_scale(a: nat, p: nat, den0: nat, den: nat, p1: nat, num: nat)
    requires
        p * den0 == den * p1,
        p1 > 0,
    ensures
        a * den <= 2 * num <==> (a * p) * den0 <= 2 * (num * p1),
        a * den == 2 * num <==> (a * p) * den0 == 2 * (num * p1),
{
    assert((a * p) * den0 == (a * den) * p1) by (nonlinear_arith)
        requires
            p * den0 == den * p1,
    ;
    assert(2 * (num * p1) == (2 * num) * p1) by (nonlinear_arith);
    let l = a * den;
    let r = 2 * num;
    assert((l <= r <==> l * p1 <= r * p1) && (l == r <==> l * p1 == r * p1)) by (nonlinear_arith)
        requires
            p1 > 0,
    ;
}

/// A quotient rounded to even, with enough bits, gives the nearest magnitude.
proof fn lemma_nearest(num: nat, den0: nat, k1: nat, j: nat, den: nat, q: nat)
    requires
        den0 > 0,
        den == den0 * pow2(j),
        k1 + j <= 2045,
        q <= 2 * BINADE,
        k1 + j > 0 ==> BINADE * den <= num,
        k1 + j > 0 ==> BINADE <= q,
        q > 0 ==> (2 * q - 1) * den <= 2 * num,
        q > 0 && (2 * q - 1) * den == 2 * num ==> q % 2 == 0,
        2 * num <= (2 * q + 1) * den,
        2 * num == (2 * q + 1) * den ==> q % 2 == 0,
    ensures
        (k1 + j) * BINADE + q <= INFINITY,
        nearest(((k1 + j) * BINADE + q) as u64, num * pow2(k1), den0),
{
    let k = k1 + j;
    let m: int = k * BINADE + q;
    let p = pow2(k);
    let p1 = pow2(k1);
    let x = num * p1;
    lemma_pow2_adds(k1, j);
    lemma_pow2_pos(k1);
    lemma_pow2_pos(j);
    lemma_pow2_pos(k);
    assert(p * den0 == den * p1) by (nonlinear_arith)
        requires
            p == p1 * pow2(j),
            den == den0 * pow2(j),
    ;
    lemma_units_step(k, q);
    if m > 0 {
        if k > 0 && q == BINADE {
            let h = pow2((k - 1) as nat);
            lemma_pow2_unfold(k);
            lemma_units_step((k - 1) as nat, (2 * BINADE - 1) as nat);
            assert(m - 1 == (k - 1) * BINADE + (2 * BINADE - 1));
            lemma_scale((2 * BINADE) as nat, p, den0, den, p1, num);
            assert(BINADE * den <= num ==> (2 * BINADE as nat) * den <= 2 * num) by (nonlinear_arith);
            let b = BINADE as nat;
            assert(((2 * b - 1) * h + b * p) * den0 < ((2 * b) * p) * den0) by (nonlinear_arith)
                requires
                    p == 2 * h,
                    h > 0,
                    den0 > 0,
            ;
        } else {
            lemma_units_step(k, (q - 1) as nat);
            lemma_scale((2 * q - 1) as nat, p, den0, den, p1, num);
            assert((q - 1) * p + q * p == (2 * q - 1) * p) by (nonlinear_arith);
        }
    }
    if m < INFINITY {
        lemma_scale((2 * q + 1) as nat, p, den0, den, p1, num);
        if q == 2 * BINADE {
            lemma_pow2_unfold(k + 1);
            lemma_units_step(k + 1, (BINADE + 1) as nat);
            assert(m + 1 == (k + 1) * BINADE + (BINADE + 1));
            let b = BINADE as nat;
            assert(((2 * q + 1) * p) * den0 < (q * p + (b + 1) * pow2(k + 1)) * den0) by (nonlinear_arith)
                requires
                    q == 2 * b,
                    pow2(k + 1) == 2 * p,
                    p > 0,
                    den0 > 0,
            ;
            assert(2 * x <= ((2 * q + 1) * p) * den0) by {
                let l = (2 * q + 1) * den;
                assert(((2 * q + 1) * p) * den0 == l * p1) by (nonlinear_arith)
                    requires
                        p * den0 == den * p1,
                        l == (2 * q + 1) * den,
                ;
                assert(2 * (num * p1) <= l * p1) by (nonlinear_arith)
                    requires
                        2 * num <= l,
                ;
            }
        } else {
            lemma_units_step(k, q + 1);
            assert(q * p + (q + 1) * p == (2 * q + 1) * p) by (nonlinear_arith);
            let l = (2 * q + 1) * den;
            assert(((2 * q + 1) * p) * den0 == l * p1) by (nonlinear_arith)
                requires
                    p * den0 == den * p1,
                    l == (2 * q + 1) * den,
            ;
            assert(2 * (num * p1) <= l * p1) by (nonlinear_arith)
                requires
                    2 * num <= l,
            ;
        }
    }
}

/// A quotient beyond the largest exponent rounds to infinity.
proof fn lemma_overflow(num: nat, den0: nat, k1: nat, j: nat, den: nat)
    requires
        den0 > 0,
        den == den0 * pow2(j),
        k1 + j > 2045,
        BINADE * den <= num,
    ensures
        nearest(INFINITY, num * pow2(k1), den0),
{
    let k = k1 + j;
    let p = pow2(k);
    let p1 = pow2(k1);
    let top = pow2(2046);
    let b = BINADE as nat;
    lemma_pow2_adds(k1, j);
    lemma_pow2_pos(k1);
    lemma_pow2_pos(2046);
    if k > 2046 {
        lemma_pow2_strictly_increases(2046, k);
    }
    lemma_units_step(2046, b);
    assert(units(INFINITY as int) == b * top);
    lemma_units_increase(INFINITY - 1, INFINITY as int);
    let x = num * p1;
    let sum = units(INFINITY - 1) + units(INFINITY as int);
    assert(sum * den0 < 2 * ((b * top) * den0)) by (nonlinear_arith)
        requires
            sum < 2 * (b * top),
            den0 > 0,
    ;
    assert((b * top) * den0 <= x) by {
        assert((b * top) * den0 <= (b * p) * den0) by (nonlinear_arith)
            requires
                top <= p,
        ;
        assert((b * p) * den0 == (b * den) * p1) by (nonlinear_arith)
            requires
                p == p1 * pow2(j),
                den == den0 * pow2(j),
        ;
        assert((b * den) * p1 <= num * p1) by (nonlinear_arith)
            requires
                b * den <= num,
        ;
    }
}

/// `num * 2^exp / den` units, rounded to the nearest magnitude.
fn nearest_magnitude(num: u64, den: u64, exp: u32) -> (m: u64)
    requires
        0 < den <= 10,
        exp <= 2045,
    ensures
        m == rounded(num as nat * pow2(exp as nat), den as nat),
        m <= INFINITY,
{
    let ghost x = num as nat * pow2(exp as nat);
    if num == 0 {
        proof {
            assert(x == 0) by (nonlinear_arith)
                requires
                    x == num as nat * pow2(exp as nat),
                    num == 0,
            ;
            assert(units(0) == 0 && units(1) == 1);
            lemma_rounded(0, x, den as nat);
        }
        return 0;
    }
    let mut n: u128 = num as u128;
    let mut k: u32 = exp;
    while k > 0 && n < 0x10_0000_0000_0000 * (den as u128)
        invariant
            0 < den <= 10,
            k <= exp <= 2045,
            0 < n,
            n < 0x20_0000_0000_0000 * den || n == num,
            n as nat * pow2(k as nat) == x,
        decreases k,
    {
        proof {
            lemma_pow2_unfold(k as nat);
            let h = pow2((k - 1) as nat);
            assert((2 * n as nat) * h == n as nat * (2 * h)) by (nonlinear_arith);
        }
        n = n * 2;
        k = k - 1;
    }
    let ghost k1 = k as nat;
    let mut d: u128 = den as u128;
    let ghost mut j: nat = 0;
    proof {
        vstd::arithmetic::power2::lemma2_to64();
    }
    while n >= 0x20_0000_0000_0000 * d
        invariant
            n <= 0x1_0000_0000_0000_0000,
            0 < d <= 0x1000,
            k == k1 + j,
            k1 <= 2045,
            d == den as nat * pow2(j),
            j <= d,
            k > 0 ==> 0x10_0000_0000_0000 * d <= n,
        decreases n - d,
    {
        proof {
            lemma_pow2_unfold(j + 1);
            assert(2 * (den as nat * pow2(j)) == den as nat * (2 * pow2(j))) by (nonlinear_arith);
            j = j + 1;
        }
        d = d * 2;
        k = k + 1;
    }
    if k > 2045 {
        proof {
            lemma_overflow(n as nat, den as nat, k1, j, d as nat);
            lemma_rounded(INFINITY, x, den as nat);
        }
        return INFINITY;
    }
    let mut q: u128 = n / d;
    let r: u128 = n % d;
    proof {
        let (n, d, q, r) = (n as int, d as int, q as int, r as int);
        vstd::arithmetic::div_mod::lemma_fundamental_div_mod(n, d);
        assert(n == d * q + r);
        assert(q < 0x20_0000_0000_0000 && (n >= 0x10_0000_0000_0000 * d ==> q >= 0x10_0000_0000_0000))
            by (nonlinear_arith)
            requires
                n == d * q + r,
                0 <= r < d,
                n < 0x20_0000_0000_0000 * d,
        ;
        assert((2 * q - 1) * d == 2 * n - 2 * r - d && (2 * q + 1) * d == 2 * n - 2 * r + d
            && (2 * q + 3) * d == 2 * n - 2 * r + 3 * d) by (nonlinear_arith)
            requires
                n == d * q + r,
        ;
    }
    if 2 * r > d || (2 * r == d && q % 2 == 1) {
        q = q + 1;
    }
    proof {
        lemma_nearest(n as nat, den as nat, k1, j, d as nat, q as nat);
        lemma_rounded((k * BINADE + q) as u64, x, den as nat);
    }
    k as u64 * BINADE + q as u64
}

/// A number of at least one unit per one, counted in ones.
pub proof fn lemma_divide_up(n: nat, k: nat)
    requires
        k >= 1074,
    ensures
        (n * pow2(k)) / one() == n * pow2((k - 1074) as nat),
        n * pow2(k) == (n * pow2((k - 1074) as nat)) * one(),
{
    let h = pow2((k - 1074) as nat);
    lemma_pow2_adds((k - 1074) as nat, 1074);
    lemma_pow2_pos(1074);
    assert(n * (h * one()) == (n * h) * one()) by (nonlinear_arith);
    vstd::arithmetic::div_mod::lemma_div_by_multiple((n * h) as int, one() as int);
}

/// A number of less than one unit per one, counted in ones.
proof fn lemma_divide_down(n: nat, k: nat)
    requires
        k < 1074,
    ensures
        (n * pow2(k)) / one() == n / pow2((1074 - k) as nat),
{
    let p = pow2(k);
    let d = pow2((1074 - k) as nat);
    lemma_pow2_adds(k, (1074 - k) as nat);
    lemma_pow2_pos(k);
    lemma_pow2_pos((1074 - k) as nat);
    vstd::arithmetic::div_mod::lemma_div_by_multiple(n as int, p as int);
    vstd::arithmetic::div_mod::lemma_div_denominator((n * p) as int, p as int, d as int);
}

/// A magnitude without a fraction is its own nearest whole number.
proof fn lemma_whole_already(n: nat, k: nat)
    requires
        k >= 1074,
    ensures
        (2 * (n * pow2(k)) + one()) / (2 * one()) * one() == n * pow2(k),
{
    lemma_divide_up(n, k);
    lemma_pow2_pos(1074);
    let w = n * pow2((k - 1074) as nat);
    let o = one();
    assert(2 * (w * o) + o == w * (2 * o) + o) by (nonlinear_arith);
    vstd::arithmetic::div_mod::lemma_fundamental_div_mod_converse(
        (2 * (w * o) + o) as int,
        (2 * o) as int,
        w as int,
        o as int,
    );
}

/// The nearest whole number of a magnitude, by its significand.
proof fn lemma_whole_nearest(n: nat, k: nat)
    requires
        k < 1074,
    ensures
        (2 * (n * pow2(k)) + one()) / (2 * one()) == (2 * n + pow2((1074 - k) as nat)) / (2 * pow2(
            (1074 - k) as nat,
        )),
{
    let p = pow2(k);
    let d = pow2((1074 - k) as nat);
    lemma_pow2_adds(k, (1074 - k) as nat);
    lemma_pow2_pos(k);
    lemma_pow2_pos((1074 - k) as nat);
    let a = 2 * n + d;
    assert(2 * (n * p) + p * d == a * p) by (nonlinear_arith)
        requires
            a == 2 * n + d,
    ;
    assert(2 * (p * d) == p * (2 * d)) by (nonlinear_arith);
    vstd::arithmetic::div_mod::lemma_div_by_multiple(a as int, p as int);
    vstd::arithmetic::div_mod::lemma_div_denominator((a * p) as int, p as int, (2 * d) as int);
}

/// 2^t.
fn power_of_two(t: u32) -> (p: u64)
    requires
        t < 64,
    ensures
        p == pow2(t as nat),
{
    let mut p: u64 = 1;
    let mut i: u32 = 0;
    proof {
        vstd::arithmetic::power2::lemma2_to64();
        vstd::arithmetic::power2::lemma2_to64_rest();
    }
    while i < t
        invariant
            i <= t < 64,
            p == pow2(i as nat),
            pow2(63) == 0x8000_0000_0000_0000,
        decreases t - i,
    {
        proof {
            lemma_pow2_unfold(i as nat + 1);
            if i + 1 < 63 {
                lemma_pow2_strictly_increases((i + 1) as nat, 63);
            }
        }
        p = p * 2;
        i = i + 1;
    }
    p
}

/// A double-precision number, as its bit pattern.
#[derive(Clone, Copy, Debug, PartialEq, Eq, Structural)]
pub struct Double {
    /// Sign, exponent and fraction, from the highest bit down.
    pub bits: u64,
}

impl Double {
    /// The magnitude's significand and the power of two, in units, that it counts.
    fn parts(m: u64) -> (r: (u64, u32))
        requires
            m <= INFINITY,
        ensures
            r.0 < 2 * BINADE,
            r.1 <= 2046,
            m < INFINITY ==> r.1 <= 2045,
            r.1 > 0 ==> r.0 >= BINADE,
            m == r.1 * BINADE + r.0,
            units(m as int) == r.0 as nat * pow2(r.1 as nat),
    {
        let exponent: u64 = m / BINADE;
        let fraction: u64 = m % BINADE;
        proof {
            vstd::arithmetic::power2::lemma2_to64();
        }
        if exponent == 0 {
            (fraction, 0)
        } else {
            (fraction + BINADE, (exponent - 1) as u32)
        }
    }

    fn magnitude(self) -> (m: u64)
        ensures
            m == magnitude(self.bits),
    {
        if self.bits >= SIGN {
            self.bits - SIGN
        } else {
            self.bits
        }
    }

    /// Whether this is a number a JSON document can hold.
    pub fn is_finite(self) -> (b: bool)
        ensures
            b == finite(self.bits),
    {
        self.magnitude() < INFINITY
    }

    /// Whether this is greater than zero.
    pub fn is_positive(self) -> (b: bool)
        ensures
            b == above_zero(self.bits),
    {
        0 < self.bits && self.bits <= INFINITY
    }

    /// The double closest to `n`.
    pub fn from_unsigned(n: u64) -> (d: Double)
        ensures
            d.bits == of_integer(n as int),
    {
        let m: u64 = nearest_magnitude(n, 1, 1074);
        Double { bits: m }
    }

    /// The double closest to `n`.
    pub fn from_signed(n: i64) -> (d: Double)
        ensures
            d.bits == of_integer(n as int),
    {
        if n >= 0 {
            Double::from_unsigned(n as u64)
        } else {
            let size: u64 = (-(n + 1)) as u64 + 1;
            let m: u64 = nearest_magnitude(size, 1, 1074);
            Double { bits: SIGN + m }
        }
    }

    /// The whole part, held to the range of `i64`.
    pub fn whole(self) -> (n: i64)
        ensures
            n == truncated(self.bits),
    {
        let m: u64 = self.magnitude();
        if m > INFINITY {
            return 0;
        }
        let negative: bool = self.bits >= SIGN;
        let (significand, exp) = Double::parts(m);
        proof {
            vstd::arithmetic::power2::lemma2_to64();
            vstd::arithmetic::power2::lemma2_to64_rest();
        }
        let count: u64;
        if exp >= 1085 {
            proof {
                lemma_divide_up(significand as nat, exp as nat);
                if exp > 1085 {
                    lemma_pow2_strictly_increases(11, (exp - 1074) as nat);
                }
                assert(significand as nat * pow2((exp - 1074) as nat) >= 0x8000_0000_0000_0000)
                    by (nonlinear_arith)
                    requires
                        significand >= 0x10_0000_0000_0000,
                        pow2((exp - 1074) as nat) >= 0x800,
                ;
            }
            return if negative {
                i64::MIN
            } else {
                i64::MAX
            };
        } else if exp >= 1074 {
            let p: u64 = power_of_two(exp - 1074);
            proof {
                lemma_divide_up(significand as nat, exp as nat);
                if exp < 1084 {
                    lemma_pow2_strictly_increases((exp - 1074) as nat, 10);
                }
                assert(significand * p < 0x8000_0000_0000_0000) by (nonlinear_arith)
                    requires
                        significand < 0x20_0000_0000_0000,
                        p <= 0x400,
                ;
            }
            count = significand * p;
        } else if exp >= 1021 {
            let p: u64 = power_of_two(1074 - exp);
            proof {
                lemma_divide_down(significand as nat, exp as nat);
                lemma_pow2_pos((1074 - exp) as nat);
            }
            count = significand / p;
            proof {
                assert(count <= significand) by (nonlinear_arith)
                    requires
                        count == significand / p,
                        p > 0,
                ;
            }
        } else {
            proof {
                lemma_divide_down(significand as nat, exp as nat);
                if exp < 1020 {
                    lemma_pow2_strictly_increases(54, (1074 - exp) as nat);
                }
                vstd::arithmetic::div_mod::lemma_basic_div(
                    significand as int,
                    pow2((1074 - exp) as nat) as int,
                );
            }
            count = 0;
        }
        if negative {
            -(count as i64)
        } else {
            count as i64
        }
    }

    /// This number to one decimal.
    pub fn tenths(self) -> (d: Double)
        ensures
            d.bits == to_tenths(self.bits),
    {
        let m: u64 = self.magnitude();
        if m >= INFINITY {
            return self;
        }
        let (significand, exp) = Double::parts(m);
        let ten: u64 = nearest_magnitude(10 * significand, 1, exp);
        proof {
            let p = pow2(exp as nat);
            assert((10 * significand as nat) * p == 10 * (significand as nat * p)) by (nonlinear_arith);
        }
        let result: u64;
        if ten == INFINITY {
            result = INFINITY;
        } else {
            let (significand, exp) = Double::parts(ten);
            proof {
                vstd::arithmetic::power2::lemma2_to64();
                vstd::arithmetic::power2::lemma2_to64_rest();
            }
            if exp >= 1074 {
                proof {
                    lemma_whole_already(significand as nat, exp as nat);
                }
                result = nearest_magnitude(significand, 10, exp);
            } else if exp >= 1020 {
                let p: u64 = power_of_two(1074 - exp);
                proof {
                    lemma_pow2_pos((1074 - exp) as nat);
                    if exp > 1020 {
                        lemma_pow2_strictly_increases((1074 - exp) as nat, 54);
                    }
                    lemma_whole_nearest(significand as nat, exp as nat);
                }
                let n: u64 = (2 * significand + p) / (2 * p);
                result = nearest_magnitude(n, 10, 1074);
            } else {
                proof {
                    lemma_pow2_strictly_increases(54, (1074 - exp) as nat);
                    lemma_whole_nearest(significand as nat, exp as nat);
                    let p = pow2((1074 - exp) as nat);
                    vstd::arithmetic::div_mod::lemma_basic_div(
                        2 * significand as int + p,
                        2 * p as int,
                    );
                }
                result = nearest_magnitude(0, 10, 1074);
            }
        }
        if self.bits >= SIGN {
            Double { bits: SIGN + result }
        } else {
            Double { bits: result }
        }
    }
}

} // verus!
