//! What rounding to the nearest double keeps, and what it holds exactly.
use super::locating::{lemma_ratio_decreasing, ratio};
use super::magnitude::{lemma_mag_increasing, lemma_mag_scaled, lemma_mag_split, mag, HIDDEN, INF_BITS};
use super::{rounded, signed, F64, SIGN_BIT};
use super::rounding::{decreasing, lemma_nearest_unique, nearest};
use vstd::arithmetic::div_mod::lemma_fundamental_div_mod;
use vstd::arithmetic::power2::{
    lemma2_to64_rest, lemma_pow2_adds, lemma_pow2_pos, lemma_pow2_strictly_increases, lemma_pow2_unfold, pow2,
};
use vstd::prelude::*;

verus! {

/// Some pattern from `m` on is nearest, unless the exact magnitude lies below `m`.
proof fn lemma_nearest_from(gap: spec_fn(int) -> int, m: nat) -> (r: nat)
    requires
        m <= INF_BITS,
        m > 0 ==> {
            let below = gap((mag((m - 1) as nat) + mag(m)) as int);
            below > 0 || (below == 0 && m % 2 == 0)
        },
    ensures
        nearest(gap, r),
    decreases INF_BITS - m,
{
    if m == INF_BITS {
        m
    } else {
        let above = gap((mag(m) + mag(m + 1)) as int);
        if above < 0 || (above == 0 && m % 2 == 0) {
            m
        } else {
            lemma_nearest_from(gap, m + 1)
        }
    }
}

/// Rounding gives the one nearest pattern.
pub proof fn lemma_rounded_nearest(gap: spec_fn(int) -> int)
    requires
        decreasing(gap),
    ensures
        nearest(gap, rounded(gap)),
        forall|m: nat| nearest(gap, m) ==> m == rounded(gap),
{
    let m = lemma_nearest_from(gap, 0);
    assert(nearest(gap, m));
    assert forall|n: nat| nearest(gap, n) implies n == rounded(gap) by {
        lemma_nearest_unique(gap, n, rounded(gap));
    }
}

/// Of two exact magnitudes, the lesser does not round to the greater pattern.
pub proof fn lemma_rounded_order(low: spec_fn(int) -> int, high: spec_fn(int) -> int)
    requires
        decreasing(low),
        decreasing(high),
        forall|c: int| 0 <= c && #[trigger] high(c) < 0 ==> low(c) < 0,
        forall|c: int| 0 <= c && #[trigger] high(c) == 0 ==> low(c) <= 0,
    ensures
        rounded(low) <= rounded(high),
{
    lemma_rounded_nearest(low);
    lemma_rounded_nearest(high);
    let m1 = rounded(low);
    let m2 = rounded(high);
    if m2 < m1 {
        let c1 = (mag((m1 - 1) as nat) + mag(m1)) as int;
        let c2 = (mag(m2) + mag(m2 + 1)) as int;
        assert(low(c1) >= 0);
        assert(high(c2) <= 0);
        if m2 + 1 < m1 {
            lemma_mag_increasing(m2, (m1 - 1) as nat);
            lemma_mag_increasing(m2 + 1, m1);
            assert(high(c2) > high(c1));
        } else {
            assert(c1 == c2);
            assert(high(c1) <= 0);
        }
    }
}

/// The double nearest to `num / den` units, with a sign.
pub open spec fn near(negative: bool, num: int, den: int) -> F64 {
    signed(negative, rounded(ratio(num, den)))
}

/// A number put together from a sign and a pattern has both.
pub proof fn lemma_signed(negative: bool, m: nat)
    requires
        m <= INF_BITS,
    ensures
        signed(negative, m).negative() == negative,
        signed(negative, m).pattern() == m,
        !signed(negative, m).is_nan(),
        signed(negative, m).is_finite() == (m < INF_BITS),
        signed(negative, m).units() == if negative { -(mag(m) as int) } else { mag(m) as int },
{
    reveal(F64::is_nan_spec);
    reveal(F64::is_finite_spec);
    reveal(F64::units);
    assert(INF_BITS < SIGN_BIT);
}

/// What a number is made of.
pub proof fn lemma_parts(x: F64)
    ensures
        x == signed(x.negative(), x.pattern()),
        x.is_nan() == (x.pattern() > INF_BITS),
        x.is_finite() == (x.pattern() < INF_BITS),
        x.units() == if x.negative() { -(mag(x.pattern()) as int) } else { mag(x.pattern()) as int },
        x.units() == 0 <==> x.pattern() == 0,
        !x.is_nan() ==> -(mag(INF_BITS as nat) as int) <= x.units() <= mag(INF_BITS as nat),
        x.is_finite() ==> -(mag(INF_BITS as nat) as int) < x.units() < mag(INF_BITS as nat),
        x.is_finite() ==> !x.is_nan(),
        !x.is_nan() && !x.is_finite() ==> x.is_infinite_spec(),
{
    reveal(F64::is_nan_spec);
    reveal(F64::is_finite_spec);
    reveal(F64::units);
    assert(mag(0) == 0);
    if x.pattern() > 0 {
        lemma_mag_increasing(0, x.pattern());
    }
    if x.pattern() < INF_BITS {
        lemma_mag_increasing(x.pattern(), INF_BITS as nat);
    }
    lemma_mag_increasing(0, INF_BITS as nat);
}

/// A magnitude that a pattern stands for rounds to that pattern.
pub proof fn lemma_near_exact(num: int, den: int, p: nat)
    requires
        den > 0,
        p <= INF_BITS,
        num == mag(p) * den,
    ensures
        rounded(ratio(num, den)) == p,
{
    let gap = ratio(num, den);
    lemma_ratio_decreasing(num, den);
    lemma_rounded_nearest(gap);
    let v = mag(p) as int;
    if p > 0 {
        let u = mag((p - 1) as nat) as int;
        lemma_mag_increasing((p - 1) as nat, p);
        assert((u + v) * den < 2 * (v * den)) by (nonlinear_arith)
            requires
                u < v,
                den > 0,
        ;
    }
    let w = mag(p + 1) as int;
    lemma_mag_increasing(p, p + 1);
    assert((v + w) * den > 2 * (v * den)) by (nonlinear_arith)
        requires
            v < w,
            den > 0,
    ;
    assert(nearest(gap, p));
}

/// The pattern nearest to a magnitude, and that it is no more than infinity.
pub proof fn lemma_near(negative: bool, num: int, den: int)
    requires
        den > 0,
    ensures
        rounded(ratio(num, den)) <= INF_BITS,
        !near(negative, num, den).is_nan(),
        near(negative, num, den).negative() == negative,
        near(negative, num, den).pattern() == rounded(ratio(num, den)),
        near(negative, num, den).units() == if negative {
            -(mag(rounded(ratio(num, den))) as int)
        } else {
            mag(rounded(ratio(num, den))) as int
        },
{
    lemma_ratio_decreasing(num, den);
    lemma_rounded_nearest(ratio(num, den));
    lemma_signed(negative, rounded(ratio(num, den)));
}

pub proof fn lemma_ratio_order(a: int, d: int, b: int, e: int)
    requires
        d > 0,
        e > 0,
        a * e <= b * d,
    ensures
        rounded(ratio(a, d)) <= rounded(ratio(b, e)),
        mag(rounded(ratio(a, d))) <= mag(rounded(ratio(b, e))),
{
    let low = ratio(a, d);
    let high = ratio(b, e);
    lemma_ratio_decreasing(a, d);
    lemma_ratio_decreasing(b, e);
    assert forall|c: int| 0 <= c && #[trigger] high(c) <= 0 implies low(c) <= 0 && (high(c) < 0 ==> low(c) < 0) by {
        assert(2 * a - c * d <= 0 && (2 * b - c * e < 0 ==> 2 * a - c * d < 0)) by (nonlinear_arith)
            requires
                d > 0,
                e > 0,
                a * e <= b * d,
                2 * b - c * e <= 0,
        ;
    }
    lemma_rounded_order(low, high);
    let m = rounded(low);
    let n = rounded(high);
    if m < n {
        lemma_mag_increasing(m, n);
    }
}

/// Rounding keeps the order of exact values.
pub proof fn lemma_near_order(n1: bool, a1: int, d1: int, n2: bool, a2: int, d2: int)
    requires
        a1 >= 0,
        a2 >= 0,
        d1 > 0,
        d2 > 0,
        (if n1 { -a1 } else { a1 }) * d2 <= (if n2 { -a2 } else { a2 }) * d1,
    ensures
        near(n1, a1, d1).units() <= near(n2, a2, d2).units(),
{
    lemma_near(n1, a1, d1);
    lemma_near(n2, a2, d2);
    if !n1 && !n2 {
        lemma_ratio_order(a1, d1, a2, d2);
    } else if n1 && n2 {
        assert(a2 * d1 <= a1 * d2) by (nonlinear_arith)
            requires
                -a1 * d2 <= -a2 * d1,
        ;
        lemma_ratio_order(a2, d2, a1, d1);
    } else if !n1 && n2 {
        assert(a1 == 0 && a2 == 0) by (nonlinear_arith)
            requires
                a1 * d2 <= -a2 * d1,
                a1 >= 0,
                a2 >= 0,
                d1 > 0,
                d2 > 0,
        ;
        assert(mag(0) == 0);
        lemma_near_exact(0, d1, 0);
        lemma_near_exact(0, d2, 0);
    }
}

/// Numbers of one value have one pattern, but for the sign of zero.
pub proof fn lemma_same_bits(a: F64, b: F64)
    requires
        !a.is_nan(),
        !b.is_nan(),
        a.units() == b.units(),
        a.units() != 0,
    ensures
        a == b,
{
    lemma_parts(a);
    lemma_parts(b);
    let (p, q) = (a.pattern(), b.pattern());
    if p < q {
        lemma_mag_increasing(p, q);
    }
    if q < p {
        lemma_mag_increasing(q, p);
    }
}

/// A short significand at any scale has a pattern.
pub proof fn lemma_pattern_of(t: nat, j: nat) -> (p: nat)
    requires
        t < 2 * HIDDEN,
    ensures
        mag(p) == t * pow2(j),
    decreases j,
{
    if j == 0 || t >= HIDDEN {
        lemma_mag_scaled(t, j);
        (t + j * HIDDEN) as nat
    } else {
        lemma_pow2_unfold(j);
        let half = pow2((j - 1) as nat) as int;
        assert(t * (2 * half) == (2 * t) * half) by (nonlinear_arith);
        lemma_pattern_of(2 * t, (j - 1) as nat)
    }
}

pub proof fn lemma_split_order(m: nat, t: nat, j: nat, n: nat, s: nat, k: nat)
    requires
        m <= n,
        m == t + j * HIDDEN,
        n == s + k * HIDDEN,
        t < 2 * HIDDEN,
        s < 2 * HIDDEN,
        j == 0 || t >= HIDDEN,
        k == 0 || s >= HIDDEN,
    ensures
        j <= k,
{
    let h = HIDDEN as int;
    if j > k {
        assert(t + j * h > s + k * h) by (nonlinear_arith)
            requires
                j >= k + 1,
                t >= h,
                s < 2 * h,
                h > 0,
        ;
    }
}

/// A pattern with its exponent raised stands for twice the magnitude.
pub proof fn lemma_mag_double(m: nat)
    requires
        m >= HIDDEN,
    ensures
        mag((m + HIDDEN) as nat) == 2 * mag(m),
{
    let (t, j) = lemma_mag_split(m);
    assert(t >= HIDDEN);
    lemma_mag_scaled(t, j + 1);
    assert((t + (j + 1) * HIDDEN) as nat == (m + HIDDEN) as nat);
    lemma_pow2_unfold(j + 1);
    let p = pow2(j) as int;
    assert(t * (2 * p) == 2 * (t * p)) by (nonlinear_arith);
}

/// Rounding commutes with doubling where there is room.
pub proof fn lemma_near_double(num: int, den: int)
    requires
        den > 0,
        HIDDEN < rounded(ratio(num, den)) < INF_BITS - HIDDEN,
    ensures
        rounded(ratio(2 * num, den)) == rounded(ratio(num, den)) + HIDDEN,
{
    let m = rounded(ratio(num, den));
    let n = (m + HIDDEN) as nat;
    lemma_ratio_decreasing(num, den);
    lemma_rounded_nearest(ratio(num, den));
    lemma_ratio_decreasing(2 * num, den);
    lemma_rounded_nearest(ratio(2 * num, den));
    lemma_mag_double(m);
    lemma_mag_double((m - 1) as nat);
    lemma_mag_double(m + 1);
    let below = (mag((m - 1) as nat) + mag(m)) as int;
    let above = (mag(m) + mag(m + 1)) as int;
    assert(2 * (2 * num) - (2 * below) * den == 2 * (2 * num - below * den)) by (nonlinear_arith);
    assert(2 * (2 * num) - (2 * above) * den == 2 * (2 * num - above * den)) by (nonlinear_arith);
    assert((n - 1) as nat == (m - 1) as nat + HIDDEN && n + 1 == m + 1 + HIDDEN);
    assert(n % 2 == m % 2);
    assert(nearest(ratio(2 * num, den), n));
}

/// A fraction doubled above and below rounds the same.
pub proof fn lemma_near_scaled(num: int, den: int)
    requires
        den > 0,
    ensures
        rounded(ratio(2 * num, 2 * den)) == rounded(ratio(num, den)),
{
    lemma_ratio_decreasing(num, den);
    lemma_ratio_decreasing(2 * num, 2 * den);
    lemma_rounded_nearest(ratio(num, den));
    lemma_rounded_nearest(ratio(2 * num, 2 * den));
    let gap = ratio(num, den);
    let twice = ratio(2 * num, 2 * den);
    assert forall|c: int| #[trigger] twice(c) == 2 * gap(c) by {
        assert(c * (2 * den) == 2 * (c * den)) by (nonlinear_arith);
    }
    assert(nearest(twice, rounded(gap)));
}

/// A rounded magnitude is at most twice the exact one.
pub proof fn lemma_near_at_most_double(num: int, den: int)
    requires
        den > 0,
        num >= 0,
    ensures
        mag(rounded(ratio(num, den))) * den <= 2 * num,
{
    let m = rounded(ratio(num, den));
    lemma_ratio_decreasing(num, den);
    lemma_rounded_nearest(ratio(num, den));
    if m > 0 {
        let (u, v) = (mag((m - 1) as nat) as int, mag(m) as int);
        assert(v * den <= (u + v) * den) by (nonlinear_arith)
            requires
                u >= 0,
                den > 0,
        ;
        let gap = ratio(num, den);
        assert(gap(u + v) >= 0);
    } else {
        assert(mag(0) == 0);
        assert(0 * den == 0);
    }
}

/// Where the doubles lie no further apart than 2^`j` units, rounding moves a value by
/// no more than that.
pub proof fn lemma_near_within(num: int, den: int, j: nat)
    requires
        den > 0,
        j <= 1993,
        0 <= num <= HIDDEN * (pow2(j) * den),
    ensures
        num - pow2(j) * den <= mag(rounded(ratio(num, den))) * den <= num + pow2(j) * den,
{
    lemma_pow2_pos(j);
    let g = pow2(j) as int;
    let cell = g * den;
    assert(cell > 0) by (nonlinear_arith)
        requires
            g > 0,
            den > 0,
            cell == g * den,
    ;
    let k = num / cell;
    lemma_fundamental_div_mod(num, cell);
    assert(0 <= k <= HIDDEN) by (nonlinear_arith)
        requires
            num == cell * k + num % cell,
            0 <= num % cell < cell,
            0 <= num <= HIDDEN * cell,
            cell > 0,
    ;
    let low = lemma_pattern_of(k as nat, j);
    let high = lemma_pattern_of((k + 1) as nat, j);
    lemma_reach(k as nat, j, low);
    lemma_reach((k + 1) as nat, j, high);
    lemma_near_exact(k * g, 1, low);
    lemma_near_exact((k + 1) * g, 1, high);
    assert(k * g * den <= num * 1 && num * 1 <= (k + 1) * g * den) by (nonlinear_arith)
        requires
            num == cell * k + num % cell,
            0 <= num % cell < cell,
            cell == g * den,
    ;
    lemma_ratio_order(k * g, 1, num, den);
    lemma_ratio_order(num, den, (k + 1) * g, 1);
    let v = mag(rounded(ratio(num, den))) as int;
    assert(num - g * den <= v * den <= num + g * den) by (nonlinear_arith)
        requires
            k * g <= v <= (k + 1) * g,
            k * g * den <= num <= (k + 1) * g * den,
            den > 0,
    ;
}

/// A short multiple of a power of two is a finite double.
proof fn lemma_reach(t: nat, j: nat, p: nat)
    requires
        t <= HIDDEN + 1,
        j <= 1993,
        mag(p) == t * pow2(j),
    ensures
        p < INF_BITS,
{
    lemma_mag_scaled(HIDDEN as nat, 2046);
    assert(HIDDEN + 2046 * HIDDEN == INF_BITS);
    lemma_pow2_adds(53, 1993);
    lemma_pow2_pos(j);
    if j < 1993 {
        lemma_pow2_strictly_increases(j, 1993);
    }
    lemma2_to64_rest();
    let (low, top) = (pow2(j) as int, pow2(2046) as int);
    let scale = pow2(1993) as int;
    lemma_pow2_pos(1993);
    assert(t * low < HIDDEN * top) by (nonlinear_arith)
        requires
            0 <= t < 2 * HIDDEN,
            0 < low <= scale,
            2 * HIDDEN * scale == top,
            HIDDEN >= 1,
    ;
    if p > INF_BITS {
        lemma_mag_increasing(INF_BITS as nat, p);
    }
}

} // verus!
