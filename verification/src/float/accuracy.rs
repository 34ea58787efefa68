//! How near to the exact result binary64 arithmetic comes, over the reals.
use super::exact::{lemma_nothing, lemma_sub_self, lemma_sum_exact};
use super::{lemma_one, rounded, whole, zero, F64};
use super::locating::{lemma_ratio_decreasing, lemma_root_decreasing, ratio, root};
use super::magnitude::{lemma_mag_increasing, lemma_mag_scaled, lemma_mag_split, mag, HIDDEN, INF_BITS};
use super::nearness::{
    lemma_near, lemma_near_exact, lemma_parts, lemma_ratio_order, lemma_rounded_nearest, lemma_same_bits,
    lemma_signed,
};
use super::order::{lemma_mul_commutes, lemma_mul_sign, lemma_negate, lemma_product, lemma_quotient, lemma_sum};
use vstd::arithmetic::power2::{lemma2_to64, lemma_pow2_pos, lemma_pow2_unfold, pow2};
use vstd::prelude::*;

verus! {

/// One step of relative accuracy: 2^-52.
pub open spec fn step() -> real {
    (1 as real) / (4_503_599_627_370_496 as real)
}

/// The product, kept folded so that long chains stay cheap to reason about.
#[verifier::opaque]
pub open spec fn times(a: real, b: real) -> real {
    a * b
}

/// The quotient, kept folded likewise.
#[verifier::opaque]
pub open spec fn over(a: real, b: real) -> real {
    a / b
}

/// The slack that `k` roundings leave.
#[verifier::opaque]
pub open spec fn slack(k: nat) -> real
    decreases k,
{
    if k == 0 {
        (1 as real)
    } else {
        slack((k - 1) as nat) * ((1 as real) + step())
    }
}

/// Two numbers, not negative, that agree to within `k` roundings.
#[verifier::opaque]
pub open spec fn about(x: real, y: real, k: nat) -> bool {
    (0 as real) <= x && (0 as real) <= y && x <= y * slack(k) && y <= x * slack(k)
}

/// The value of a double.
#[verifier::opaque]
pub open spec fn value(x: F64) -> real {
    x.units() as real / pow2(1074) as real
}

/// A finite positive number of full precision.
pub open spec fn normal(x: F64) -> bool {
    !x.negative() && HIDDEN <= x.pattern() < INF_BITS
}

pub proof fn lemma_slack(k: nat)
    ensures
        slack(k) >= (1 as real),
    decreases k,
{
    reveal_with_fuel(slack, 2);
    if k > 0 {
        lemma_slack((k - 1) as nat);
        let s = slack((k - 1) as nat);
        let e = step();
        assert(s * ((1 as real) + e) >= 1 as real) by (nonlinear_arith)
            requires
                s >= (1 as real),
                e >= (0 as real),
        ;
    }
}

pub proof fn lemma_slack_adds(a: nat, b: nat)
    ensures
        slack(a + b) == times(slack(a), slack(b)),
    decreases b,
{
    reveal(times);
    reveal_with_fuel(slack, 2);
    if b > 0 {
        lemma_slack_adds(a, (b - 1) as nat);
        let (x, y, e) = (slack(a), slack((b - 1) as nat), (1 as real) + step());
        assert((x * y) * e == x * (y * e)) by (nonlinear_arith);
        assert((a + b - 1) as nat == a + (b - 1) as nat);
    }
}

/// Small slacks stay small.
pub proof fn lemma_slack_small(k: nat)
    requires
        k <= 1000,
    ensures
        slack(k) <= (1 as real) + times((2 as real) * (k as real), step()),
    decreases k,
{
    reveal(times);
    reveal_with_fuel(slack, 2);
    if k > 0 {
        lemma_slack_small((k - 1) as nat);
        let s = slack((k - 1) as nat);
        let e = step();
        let n = (k - 1) as real;
        assert(s * ((1 as real) + e) <= (1 as real) + (2 as real) * (n + 1 as real) * e) by (nonlinear_arith)
            requires
                s <= (1 as real) + (2 as real) * n * e,
                (0 as real) <= n <= (1000 as real),
                (0 as real) < e,
                e * (2000 as real) <= (1 as real),
        ;
        assert(k as real == n + 1 as real);
    } else {
        let (n, e) = (k as real, step());
        assert((2 as real) * n * e == 0 as real) by (nonlinear_arith)
            requires
                n == (0 as real),
        ;
    }
}

pub proof fn lemma_about_same(x: real)
    requires
        x >= (0 as real),
    ensures
        about(x, x, 0),
{
    reveal(about);
    reveal_with_fuel(slack, 2);
}

pub proof fn lemma_about_turned(x: real, y: real, k: nat)
    requires
        about(x, y, k),
    ensures
        about(y, x, k),
{
    reveal(about);
}

pub proof fn lemma_about_more(x: real, y: real, a: nat, b: nat)
    requires
        about(x, y, a),
        a <= b,
    ensures
        about(x, y, b),
{
    reveal(times);
    reveal(about);
    reveal_with_fuel(slack, 2);
    lemma_slack_adds(a, (b - a) as nat);
    lemma_slack((b - a) as nat);
    lemma_slack(a);
    let (s, t) = (slack(a), slack((b - a) as nat));
    assert(y * s <= y * (s * t) && x * s <= x * (s * t)) by (nonlinear_arith)
        requires
            x >= (0 as real),
            y >= (0 as real),
            s >= (1 as real),
            t >= (1 as real),
    ;
}

pub proof fn lemma_about_chain(x: real, y: real, z: real, a: nat, b: nat)
    requires
        about(x, y, a),
        about(y, z, b),
    ensures
        about(x, z, a + b),
{
    reveal(times);
    reveal(about);
    reveal_with_fuel(slack, 2);
    lemma_slack_adds(a, b);
    lemma_slack(a);
    lemma_slack(b);
    let (s, t) = (slack(a), slack(b));
    assert(x <= z * (s * t)) by (nonlinear_arith)
        requires
            x <= y * s,
            y <= z * t,
            s >= (1 as real),
    ;
    assert(z <= x * (s * t)) by (nonlinear_arith)
        requires
            y <= x * s,
            z <= y * t,
            t >= (1 as real),
    ;
}

pub proof fn lemma_about_product(x: real, y: real, v: real, w: real, a: nat, b: nat)
    requires
        about(x, y, a),
        about(v, w, b),
    ensures
        about(times(x, v), times(y, w), a + b),
{
    reveal(about);
    reveal(times);
    reveal_with_fuel(slack, 2);
    lemma_slack_adds(a, b);
    lemma_slack(a);
    lemma_slack(b);
    let (s, t) = (slack(a), slack(b));
    assert(x * v <= (y * w) * (s * t) && (y * w) <= (x * v) * (s * t) && x * v >= (0 as real) && y * w >= 0 as real)
        by (nonlinear_arith)
        requires
            (0 as real) <= x <= y * s,
            (0 as real) <= y <= x * s,
            (0 as real) <= v <= w * t,
            (0 as real) <= w <= v * t,
            s >= (1 as real),
            t >= (1 as real),
    ;
}

pub proof fn lemma_about_quotient(x: real, y: real, v: real, w: real, a: nat, b: nat)
    requires
        about(x, y, a),
        about(v, w, b),
        v > (0 as real),
        w > (0 as real),
    ensures
        about(over(x, v), over(y, w), a + b),
{
    reveal(times);
    reveal(about);
    reveal(over);
    reveal_with_fuel(slack, 2);
    lemma_slack_adds(a, b);
    lemma_slack(a);
    lemma_slack(b);
    let (s, t) = (slack(a), slack(b));
    let (p, q) = (x / v, y / w);
    assert(p * v == x && q * w == y && p >= (0 as real) && q >= 0 as real) by (nonlinear_arith)
        requires
            p == x / v,
            q == y / w,
            v > (0 as real),
            w > (0 as real),
            x >= (0 as real),
            y >= (0 as real),
    ;
    assert(p <= q * (s * t)) by (nonlinear_arith)
        requires
            p * v == x,
            q * w == y,
            x <= y * s,
            w <= v * t,
            v > (0 as real),
            q >= (0 as real),
            s >= (1 as real),
    ;
    assert(q <= p * (s * t)) by (nonlinear_arith)
        requires
            p * v == x,
            q * w == y,
            y <= x * s,
            v <= w * t,
            w > (0 as real),
            p >= (0 as real),
            s >= (1 as real),
    ;
}

pub proof fn lemma_about_sum(x: real, y: real, v: real, w: real, k: nat)
    requires
        about(x, y, k),
        about(v, w, k),
    ensures
        about(x + v, y + w, k),
{
    reveal(about);
    reveal_with_fuel(slack, 2);
    let s = slack(k);
    assert((y + w) * s == y * s + w * s && (x + v) * s == x * s + v * s) by (nonlinear_arith);
}

/// The neighbours of a full-precision pattern lie within a step of it.
pub proof fn lemma_neighbours(m: nat)
    requires
        HIDDEN <= m,
    ensures
        (mag(m + 1) - mag(m)) * HIDDEN <= mag(m),
        (mag(m) - mag((m - 1) as nat)) * HIDDEN <= mag(m),
        mag(m) > 0,
{
    let (t, j) = lemma_mag_split(m);
    let p = pow2(j) as int;
    let h = HIDDEN as int;
    lemma_pow2_pos(j);
    lemma_mag_scaled(t + 1, j);
    assert((t + 1) * p == t * p + p) by (nonlinear_arith);
    assert(p * h <= t * p && t * p > 0) by (nonlinear_arith)
        requires
            t >= h,
            p > 0,
            h > 0,
    ;
    if j == 0 || t > HIDDEN {
        lemma_mag_scaled((t - 1) as nat, j);
        assert(((t - 1) as nat + j * HIDDEN) as nat == (m - 1) as nat);
        assert((t - 1) * p == t * p - p) by (nonlinear_arith);
    } else {
        lemma_mag_scaled((2 * HIDDEN - 1) as nat, (j - 1) as nat);
        lemma_pow2_unfold(j);
        let half = pow2((j - 1) as nat) as int;
        assert(((2 * HIDDEN - 1) as nat + (j - 1) * HIDDEN) as nat == (m - 1) as nat) by (nonlinear_arith)
            requires
                m == HIDDEN + j * HIDDEN,
                j >= 1,
        ;
        assert((2 * h - 1) * half == h * (2 * half) - half) by (nonlinear_arith);
        assert(half * h <= (2 * half) * h) by (nonlinear_arith)
            requires
                half >= 0,
                h >= 0,
        ;
    }
}

/// A product of whole numbers is the same over the reals.
pub proof fn lemma_real_product(a: int, b: int)
    ensures
        (a * b) as real == (a as real) * (b as real),
    decreases if b < 0 { -b } else { b },
{
    let x = a as real;
    if b > 0 {
        lemma_real_product(a, b - 1);
        assert(a * (b - 1) == a * b - a) by (nonlinear_arith);
        let y = (b - 1) as real;
        assert(x * (y + (1 as real)) == x * y + x) by (nonlinear_arith);
        assert(b as real == y + (1 as real));
    } else if b < 0 {
        lemma_real_product(a, b + 1);
        assert(a * (b + 1) == a * b + a) by (nonlinear_arith);
        let y = (b + 1) as real;
        assert(x * (y - (1 as real)) == x * y - x) by (nonlinear_arith);
        assert(b as real == y - (1 as real));
    } else {
        assert(a * 0 == 0) by (nonlinear_arith);
        assert(x * (0 as real) == (0 as real)) by (nonlinear_arith);
    }
}

/// A full-precision magnitude is near what it was rounded from.
proof fn lemma_near_about(num: int, den: int)
    requires
        num >= 0,
        den > 0,
        HIDDEN <= rounded(ratio(num, den)) < INF_BITS,
    ensures
        about(mag(rounded(ratio(num, den))) as real, num as real / den as real, 1),
{
    reveal(about);
    reveal_with_fuel(slack, 2);
    let m = rounded(ratio(num, den));
    lemma_ratio_decreasing(num, den);
    lemma_rounded_nearest(ratio(num, den));
    lemma_neighbours(m);
    let gap = ratio(num, den);
    let below = (mag((m - 1) as nat) + mag(m)) as int;
    let above = (mag(m) + mag(m + 1)) as int;
    assert(gap(below) >= 0 && gap(above) <= 0);
    let r = mag(m) as int;
    let h = HIDDEN as int;
    // Both in whole numbers: twice the exact magnitude lies between the two sums.
    assert((2 * r * h - r) * den <= 2 * num * h) by (nonlinear_arith)
        requires
            below * den <= 2 * num,
            2 * r * h - r <= below * h,
            h > 0,
            den > 0,
    ;
    assert(2 * num * h <= (2 * r * h + r) * den) by (nonlinear_arith)
        requires
            2 * num <= above * den,
            above * h <= 2 * r * h + r,
            h > 0,
            den > 0,
    ;
    let (x, d, n) = (r as real, den as real, num as real);
    let e = n / d;
    let k = h as real;
    assert(e * d == n) by (nonlinear_arith)
        requires
            e == n / d,
            d > (0 as real),
    ;
    lemma_real_product(r, h);
    lemma_real_product(2 * (r * h) - r, den);
    lemma_real_product(2 * (r * h) + r, den);
    lemma_real_product(num, h);
    assert(2 * r * h == 2 * (r * h) && 2 * num * h == 2 * (num * h)) by (nonlinear_arith);
    let (rh, nh) = (x * k, n * k);
    assert(((2 as real) * rh - x) * d <= (2 as real) * nh && (2 as real) * nh <= ((2 as real) * rh + x) * d);
    assert((2 as real) * x * k == (2 as real) * rh && (2 as real) * (e * d) * k == (2 as real) * nh) by (nonlinear_arith)
        requires
            rh == x * k,
            nh == n * k,
            e * d == n,
    ;
    assert((2 as real) * x * k - x <= (2 as real) * e * k && (2 as real) * e * k <= (2 as real) * x * k + x) by (nonlinear_arith)
        requires
            ((2 as real) * x * k - x) * d <= (2 as real) * (e * d) * k,
            (2 as real) * (e * d) * k <= ((2 as real) * x * k + x) * d,
            d > (0 as real),
    ;
    assert(k == 4_503_599_627_370_496 as real);
    let s = step();
    assert(s * k == 1 as real);
    assert(slack(1) == (1 as real) + s) by {
        reveal_with_fuel(slack, 2);
    }
    assert(x <= e * ((1 as real) + s) && e <= x * ((1 as real) + s)) by (nonlinear_arith)
        requires
            (2 as real) * x * k - x <= (2 as real) * e * k,
            (2 as real) * e * k <= (2 as real) * x * k + x,
            s * k == (1 as real),
            k == (4_503_599_627_370_496 as real),
            x >= (0 as real),
    ;
    assert(e >= 0 as real) by (nonlinear_arith)
        requires
            e * d == n,
            n >= (0 as real),
            d > (0 as real),
    ;
}

/// Agreement does not depend on the unit.
proof fn lemma_about_scaled(x: real, y: real, unit: real, k: nat)
    requires
        about(x, y, k),
        unit > (0 as real),
    ensures
        about(x / unit, y / unit, k),
{
    reveal(over);
    reveal(about);
    reveal_with_fuel(slack, 2);
    lemma_about_same(unit);
    lemma_about_quotient(x, y, unit, unit, k, 0);
}

/// The unit of values.
proof fn lemma_unit()
    ensures
        pow2(1074) as real > (0 as real),
{
    lemma_pow2_pos(1074);
}

/// Values are ordered as numbers are.
pub proof fn lemma_value_order(a: F64, b: F64)
    ensures
        a.units() <= b.units() <==> value(a) <= value(b),
        a.units() < b.units() <==> value(a) < value(b),
        a.units() > 0 <==> value(a) > (0 as real),
        a.units() >= 0 <==> value(a) >= (0 as real),
{
    reveal(value);
    lemma_unit();
    let unit = pow2(1074) as real;
    lemma_share_of(a.units() as real, unit);
    lemma_share_of(b.units() as real, unit);
    let (x, y, v, w) = (a.units() as real, b.units() as real, value(a), value(b));
    assert((x <= y <==> v <= w) && (x < y <==> v < w) && (x > (0 as real) <==> v > (0 as real)) && (x >= (0 as real) <==> v
        >= (0 as real))) by (nonlinear_arith)
        requires
            v * unit == x,
            w * unit == y,
            unit > (0 as real),
    ;
}

/// A quotient times its divisor.
proof fn lemma_share_of(x: real, unit: real)
    requires
        unit > (0 as real),
    ensures
        (x / unit) * unit == x,
{
    let q = x / unit;
    assert(q * unit == x) by (nonlinear_arith)
        requires
            q == x / unit,
            unit > (0 as real),
    ;
}

/// A product of full precision is near the exact product.
pub proof fn lemma_product_about(a: F64, b: F64)
    requires
        a.is_finite(),
        b.is_finite(),
        !a.negative(),
        !b.negative(),
        normal(a * b),
    ensures
        about(value(a * b), times(value(a), value(b)), 1),
{
    reveal(about);
    reveal(value);
    reveal(times);
    reveal_with_fuel(slack, 2);
    lemma_parts(a);
    lemma_parts(b);
    lemma_parts(a * b);
    lemma_product(a, b);
    lemma_pow2_pos(1074);
    lemma_unit();
    let (u, v) = (mag(a.pattern()) as int, mag(b.pattern()) as int);
    let unit = pow2(1074) as real;
    assert(u * v >= 0) by (nonlinear_arith)
        requires
            u >= 0,
            v >= 0,
    ;
    lemma_near(false, u * v, pow2(1074) as int);
    lemma_near_about(u * v, pow2(1074) as int);
    let exact = (u * v) as real / unit;
    lemma_about_scaled((a * b).units() as real, exact, unit, 1);
    lemma_real_product(u, v);
    let (x, y) = (u as real, v as real);
    let (p, q) = (value(a), value(b));
    lemma_share_of(x, unit);
    lemma_share_of(y, unit);
    lemma_share_of(x * y, unit);
    lemma_share_of(exact, unit);
    let e = exact / unit;
    assert(e == p * q) by (nonlinear_arith)
        requires
            p * unit == x,
            q * unit == y,
            exact * unit == x * y,
            e * unit == exact,
            unit > (0 as real),
    ;
}

/// A quotient of full precision is near the exact quotient.
pub proof fn lemma_quotient_about(a: F64, b: F64)
    requires
        a.is_finite(),
        b.is_finite(),
        !a.negative(),
        !b.negative(),
        b.units() != 0,
        normal(a / b),
    ensures
        about(value(a / b), over(value(a), value(b)), 1),
{
    reveal(about);
    reveal(value);
    reveal(over);
    reveal_with_fuel(slack, 2);
    lemma_parts(a);
    lemma_parts(b);
    lemma_parts(a / b);
    lemma_quotient(a, b);
    lemma_pow2_pos(1074);
    lemma_unit();
    let (u, v) = (mag(a.pattern()) as int, mag(b.pattern()) as int);
    let unit = pow2(1074) as real;
    let num = u * pow2(1074);
    assert(num >= 0) by (nonlinear_arith)
        requires
            num == u * pow2(1074),
            u >= 0,
            pow2(1074) > 0,
    ;
    lemma_near(false, num, v);
    lemma_near_about(num, v);
    let exact = num as real / v as real;
    lemma_about_scaled((a / b).units() as real, exact, unit, 1);
    lemma_real_product(u, pow2(1074) as int);
    let (x, y) = (u as real, v as real);
    let (p, q) = (value(a), value(b));
    lemma_share_of(x, unit);
    lemma_share_of(y, unit);
    lemma_share_of(x * unit, y);
    lemma_share_of(exact, unit);
    let e = exact / unit;
    lemma_value_order(b, b);
    assert(q > (0 as real));
    let f = p / q;
    lemma_share_of(p, q);
    assert(e == f) by (nonlinear_arith)
        requires
            p * unit == x,
            q * unit == y,
            exact * y == x * unit,
            e * unit == exact,
            f * q == p,
            unit > (0 as real),
            q > (0 as real),
            y > (0 as real),
    ;
}

/// A sum of full precision is near the exact sum.
pub proof fn lemma_sum_about(a: F64, b: F64)
    requires
        a.is_finite(),
        b.is_finite(),
        a.units() + b.units() > 0,
        normal(a + b),
    ensures
        about(value(a + b), value(a) + value(b), 1),
{
    reveal(about);
    reveal(value);
    reveal_with_fuel(slack, 2);
    lemma_parts(a);
    lemma_parts(b);
    lemma_parts(a + b);
    lemma_sum(a, b);
    lemma_unit();
    let total = a.units() + b.units();
    let unit = pow2(1074) as real;
    lemma_near(false, total, 1);
    let m = rounded(ratio(total, 1));
    if m < HIDDEN {
        lemma_mag_increasing(m, (a + b).pattern());
    }
    if m >= INF_BITS {
        lemma_mag_increasing((a + b).pattern(), m);
    }
    lemma_near_about(total, 1);
    assert(total as real / (1 as real) == total as real);
    lemma_about_scaled((a + b).units() as real, total as real, unit, 1);
    let (x, y) = (a.units() as real, b.units() as real);
    lemma_share_of(x, unit);
    lemma_share_of(y, unit);
    lemma_share_of(x + y, unit);
    let (p, q, e) = (value(a), value(b), (x + y) / unit);
    assert(e == p + q) by (nonlinear_arith)
        requires
            p * unit == x,
            q * unit == y,
            e * unit == x + y,
            unit > (0 as real),
    ;
}

/// The square of a root of full precision is near the exact radicand.
pub proof fn lemma_sqrt_about(a: F64)
    requires
        a.is_finite(),
        !a.negative(),
        normal(a.sqrt()),
    ensures
        about(times(value(a.sqrt()), value(a.sqrt())), value(a), 2),
{
    reveal(about);
    reveal(value);
    reveal(times);
    reveal_with_fuel(slack, 2);
    lemma_parts(a);
    lemma_parts(a.sqrt());
    lemma_pow2_pos(1074);
    lemma_unit();
    let scale = pow2(1074) as int;
    let n = mag(a.pattern()) * scale;
    let m = a.sqrt().pattern();
    reveal(F64::sqrt_spec);
    assert(a.pattern() != 0);
    lemma_root_decreasing(n);
    lemma_rounded_nearest(root(n));
    lemma_signed(false, rounded(root(n)));
    assert(m == rounded(root(n)));
    lemma_neighbours(m);
    let gap = root(n);
    let below = (mag((m - 1) as nat) + mag(m)) as int;
    let above = (mag(m) + mag(m + 1)) as int;
    assert(gap(below) >= 0 && gap(above) <= 0);
    let r = mag(m) as int;
    let h = HIDDEN as int;
    // Twice the root lies between the two sums.
    assert((2 * r * h - r) * (2 * r * h - r) <= 4 * n * (h * h)) by (nonlinear_arith)
        requires
            below * below <= 4 * n,
            0 <= 2 * r * h - r <= below * h,
            h > 0,
    ;
    assert(4 * n * (h * h) <= (2 * r * h + r) * (2 * r * h + r)) by (nonlinear_arith)
        requires
            4 * n <= above * above,
            0 <= above * h <= 2 * r * h + r,
            above >= 0,
            h > 0,
    ;
    lemma_root_real(r, n);
    let unit = pow2(1074) as real;
    let square = unit * unit;
    assert(square > (0 as real)) by (nonlinear_arith)
        requires
            square == unit * unit,
            unit > (0 as real),
    ;
    let (x, y) = (r as real, n as real);
    lemma_about_scaled(x * x, y, square, 2);
    let (v, w) = (value(a.sqrt()), value(a));
    lemma_real_product(mag(a.pattern()) as int, scale);
    lemma_share_of(x, unit);
    lemma_share_of(mag(a.pattern()) as real, unit);
    lemma_share_of(x * x, square);
    lemma_share_of(y, square);
    let (p, q) = (x * x / square, y / square);
    assert(p == v * v) by (nonlinear_arith)
        requires
            p * square == x * x,
            v * unit == x,
            square == unit * unit,
            unit > (0 as real),
    ;
    assert(q == w) by (nonlinear_arith)
        requires
            q * square == y,
            y == (w * unit) * unit,
            square == unit * unit,
            unit > (0 as real),
    ;
}

proof fn lemma_root_real(r: int, n: int)
    requires
        r > 0,
        n >= 0,
        (2 * r * HIDDEN - r) * (2 * r * HIDDEN - r) <= 4 * n * (HIDDEN * HIDDEN),
        4 * n * (HIDDEN * HIDDEN) <= (2 * r * HIDDEN + r) * (2 * r * HIDDEN + r),
    ensures
        about((r as real) * (r as real), n as real, 2),
{
    reveal(about);
    reveal_with_fuel(slack, 2);
    let h = HIDDEN as int;
    let (lo, hi) = (2 * r * h - r, 2 * r * h + r);
    lemma_real_product(lo, lo);
    lemma_real_product(hi, hi);
    lemma_real_product(r, h);
    lemma_real_product(h, h);
    lemma_real_product(n, h * h);
    assert(2 * r * h == 2 * (r * h) && 4 * n * (h * h) == 4 * (n * (h * h))) by (nonlinear_arith);
    let (x, y, k) = (r as real, n as real, h as real);
    let (a, b) = (lo as real, hi as real);
    assert(a == (2 as real) * (x * k) - x && b == (2 as real) * (x * k) + x);
    assert(a * a <= (4 as real) * (y * (k * k)) && (4 as real) * (y * (k * k)) <= b * b);
    let s = step();
    assert(k == (4_503_599_627_370_496 as real));
    assert(s * k == (1 as real));
    let one = 1 as real;
    let slack2 = (one + s) * (one + s);
    assert(slack(2) == slack2) by {
        reveal_with_fuel(slack, 3);
    }
    // Divided by the square of twice the width.
    let half = s / (2 as real);
    let kk = (4 as real) * (k * k);
    assert(a == (2 as real) * k * (x * (one - half)) && b == (2 as real) * k * (x * (one + half))) by (nonlinear_arith)
        requires
            a == (2 as real) * (x * k) - x,
            b == (2 as real) * (x * k) + x,
            s * k == one,
            half * (2 as real) == s,
            one == (1 as real),
    ;
    let (c, d) = (x * (one - half), x * (one + half));
    assert(c * c <= y && y <= d * d) by (nonlinear_arith)
        requires
            a == (2 as real) * k * c,
            b == (2 as real) * k * d,
            a * a <= (4 as real) * (y * (k * k)),
            (4 as real) * (y * (k * k)) <= b * b,
            k > (0 as real),
    ;
    assert(half >= (0 as real) && half <= s && s <= (1 as real) / (1000 as real));
    assert(y <= (x * x) * slack2) by (nonlinear_arith)
        requires
            y <= d * d,
            d == x * (one + half),
            slack2 == (one + s) * (one + s),
            (0 as real) <= half <= s,
            one == (1 as real),
    ;
    assert((one - half) * (one + s) >= one) by (nonlinear_arith)
        requires
            half * (2 as real) == s,
            (0 as real) <= s <= (1 as real) / (1000 as real),
            one == (1 as real),
    ;
    let g = (one - half) * (one + s);
    assert(x * x <= y * slack2) by (nonlinear_arith)
        requires
            c * c <= y,
            c == x * (one - half),
            slack2 == (one + s) * (one + s),
            g == (one - half) * (one + s),
            g >= one,
            one == (1 as real),
            s >= (0 as real),
    ;
    assert(x * x >= (0 as real)) by (nonlinear_arith);
}

pub proof fn lemma_times_commutes(a: real, b: real)
    ensures
        times(a, b) == times(b, a),
{
    reveal(times);
    assert(a * b == b * a) by (nonlinear_arith);
}

pub proof fn lemma_times_associates(a: real, b: real, c: real)
    ensures
        times(times(a, b), c) == times(a, times(b, c)),
{
    reveal(times);
    assert((a * b) * c == a * (b * c)) by (nonlinear_arith);
}

pub proof fn lemma_times_one(a: real)
    ensures
        times(a, 1 as real) == a,
        times(1 as real, a) == a,
        times(a, 2 as real) == a + a,
        times(2 as real, a) == a + a,
{
    reveal(times);
}

pub proof fn lemma_times_adds(a: real, b: real, c: real)
    ensures
        times(a + b, c) == times(a, c) + times(b, c),
        times(c, a + b) == times(c, a) + times(c, b),
{
    reveal(times);
    assert((a + b) * c == a * c + b * c && c * (a + b) == c * a + c * b) by (nonlinear_arith);
}

pub proof fn lemma_times_order(a: real, b: real, c: real)
    requires
        a <= b,
        c >= (0 as real),
    ensures
        times(a, c) <= times(b, c),
        times(c, a) <= times(c, b),
{
    reveal(times);
    assert(a * c <= b * c && c * a <= c * b) by (nonlinear_arith)
        requires
            a <= b,
            c >= (0 as real),
    ;
}

pub proof fn lemma_times_strict(a: real, b: real, c: real)
    requires
        a < b,
        c > (0 as real),
    ensures
        times(a, c) < times(b, c),
        times(c, a) < times(c, b),
{
    reveal(times);
    assert(a * c < b * c && c * a < c * b) by (nonlinear_arith)
        requires
            a < b,
            c > (0 as real),
    ;
}

pub proof fn lemma_times_positive(a: real, b: real)
    ensures
        a > (0 as real) && b > (0 as real) ==> times(a, b) > (0 as real),
        a >= (0 as real) && b >= (0 as real) ==> times(a, b) >= (0 as real),
{
    reveal(times);
    if a > (0 as real) && b > (0 as real) {
        assert(a * b > (0 as real)) by (nonlinear_arith)
            requires
                a > (0 as real),
                b > (0 as real),
        ;
    }
    if a >= (0 as real) && b >= (0 as real) {
        assert(a * b >= (0 as real)) by (nonlinear_arith)
            requires
                a >= (0 as real),
                b >= (0 as real),
        ;
    }
}

pub proof fn lemma_over(a: real, b: real)
    requires
        b > (0 as real),
    ensures
        times(over(a, b), b) == a,
        a > (0 as real) ==> over(a, b) > (0 as real),
{
    reveal(times);
    reveal(over);
    lemma_share_of(a, b);
    let q = a / b;
    if a > (0 as real) {
        assert(q > (0 as real)) by (nonlinear_arith)
            requires
                q * b == a,
                a > (0 as real),
                b > (0 as real),
        ;
    }
}

/// What agreement says of both sides.
pub proof fn lemma_about_bounds(x: real, y: real, k: nat)
    requires
        about(x, y, k),
    ensures
        (0 as real) <= x,
        (0 as real) <= y,
        x <= times(y, slack(k)),
        y <= times(x, slack(k)),
{
    reveal(about);
    reveal(times);
}

/// The value of a double in units.
pub proof fn lemma_unit_value(x: F64)
    ensures
        times(value(x), pow2(1074) as real) == x.units() as real,
        pow2(1074) as real > (0 as real),
{
    reveal(value);
    reveal(times);
    lemma_unit();
    lemma_share_of(x.units() as real, pow2(1074) as real);
}

/// A product by a positive number tells its factor.
pub proof fn lemma_times_unique(a: real, b: real, c: real)
    requires
        times(a, c) == times(b, c),
        c > (0 as real),
    ensures
        a == b,
{
    if a < b {
        lemma_times_strict(a, b, c);
    }
    if b < a {
        lemma_times_strict(b, a, c);
    }
}

/// A product that does not underflow: of full precision, or with a factor of zero.
pub open spec fn kept(a: F64, b: F64) -> bool {
    normal(a * b) || a.units() == 0 || b.units() == 0
}

/// A product that does not underflow is near the exact product.
pub proof fn lemma_kept_product(a: F64, b: F64)
    requires
        a.is_finite(),
        b.is_finite(),
        !a.negative(),
        !b.negative(),
        kept(a, b),
    ensures
        about(value(a * b), times(value(a), value(b)), 1),
        (a * b).is_finite(),
        !(a * b).negative(),
{
    lemma_parts(a);
    lemma_parts(b);
    lemma_parts(a * b);
    lemma_product(a, b);
    if normal(a * b) {
        lemma_product_about(a, b);
    } else {
        lemma_one();
        lemma_mul_sign(a, b);
        if a.units() == 0 {
            lemma_nothing(b, a);
            lemma_mul_commutes(a, b);
        } else {
            lemma_nothing(a, b);
        }
        lemma_parts(zero());
        assert((a * b).pattern() == 0);
        lemma_mag_increasing(0, INF_BITS as nat);
        lemma_nothing_values(a, b);
    }
}

proof fn lemma_nothing_values(a: F64, b: F64)
    requires
        a.units() == 0 || b.units() == 0,
        (a * b).units() == 0,
    ensures
        about(value(a * b), times(value(a), value(b)), 1),
{
    reveal(about);
    reveal(value);
    reveal(times);
    lemma_unit();
    lemma_slack(1);
    let unit = pow2(1074) as real;
    let nothing = 0 as real;
    assert(nothing / unit == nothing) by (nonlinear_arith)
        requires
            nothing == (0 as real),
            unit > (0 as real),
    ;
    let (x, y) = (value(a), value(b));
    assert(x * y == nothing) by (nonlinear_arith)
        requires
            x == nothing || y == nothing,
            nothing == (0 as real),
    ;
}

/// What is left of one is near the exact rest.
pub proof fn lemma_rest_about(share: F64)
    requires
        share.is_finite(),
        !share.negative(),
        share <= whole(1),
        normal(whole(1) - share) || share.same(whole(1)),
    ensures
        about(value(whole(1) - share), value(whole(1)) - value(share), 1),
        (whole(1) - share).is_finite(),
        !(whole(1) - share).negative(),
{
    lemma_one();
    lemma_parts(share);
    lemma_parts(whole(1));
    lemma_negate(share);
    lemma_parts(share.negate());
    lemma_parts(whole(1) - share);
    lemma_value_negated(share);
    if share.same(whole(1)) {
        lemma_same_bits(share, whole(1));
        lemma_sub_self(whole(1));
        lemma_parts(zero());
        lemma_zero_value();
        lemma_about_more(0 as real, 0 as real, 0, 1);
    } else {
        lemma_sum(whole(1), share.negate());
        lemma_sum_about(whole(1), share.negate());
    }
}

pub proof fn lemma_zero_value()
    ensures
        value(zero()) == (0 as real),
        about(0 as real, 0 as real, 0),
{
    reveal(value);
    reveal(about);
    lemma_one();
    lemma_unit();
    let (unit, nothing) = (pow2(1074) as real, 0 as real);
    assert(nothing / unit == nothing) by (nonlinear_arith)
        requires
            nothing == (0 as real),
            unit > (0 as real),
    ;
}

/// The value of a turned sign is the turned value.
pub proof fn lemma_value_negated(x: F64)
    ensures
        value(x.negate()) == -value(x),
{
    reveal(value);
    lemma_negate(x);
    lemma_unit();
    let (v, unit) = (x.units() as real, pow2(1074) as real);
    assert((-v) / unit == -(v / unit)) by (nonlinear_arith)
        requires
            unit > (0 as real),
    ;
}

/// A difference of full precision, or of equal numbers, is near the exact difference.
pub proof fn lemma_difference_about(a: F64, b: F64)
    requires
        a.is_finite(),
        b.is_finite(),
        b.units() <= a.units(),
        normal(a - b) || a.units() == b.units(),
    ensures
        about(value(a - b), value(a) - value(b), 1),
        !(a - b).is_nan(),
{
    lemma_parts(a);
    lemma_parts(b);
    lemma_negate(b);
    lemma_parts(b.negate());
    lemma_parts(a - b);
    lemma_value_negated(b);
    lemma_sum(a, b.negate());
    if a.units() == b.units() {
        assert(mag(0) == 0);
        lemma_sum_exact(a, b.negate(), 0);
        lemma_zero_value();
        lemma_one();
        lemma_value_order(a, b);
        lemma_value_order(b, a);
        lemma_value_order(a - b, zero());
        lemma_value_order(zero(), a - b);
        lemma_about_more(0 as real, 0 as real, 0, 1);
    } else {
        lemma_sum_about(a, b.negate());
    }
}

/// What is left after two parts are taken, put back together with them, is near the
/// whole.
pub proof fn lemma_remainder_about(whole: real, first: real, second: real, rest: real, left: real)
    requires
        (0 as real) <= first,
        (0 as real) <= second,
        about(rest, whole - first, 1),
        about(left, rest - second, 1),
    ensures
        about(first + second + left, whole, 2),
{
    lemma_about_bounds(rest, whole - first, 1);
    lemma_about_bounds(left, rest - second, 1);
    lemma_slack(1);
    lemma_slack(2);
    lemma_slack_adds(1, 1);
    let (s, s2) = (slack(1), slack(2));
    let one = 1 as real;
    // Not above.
    lemma_times_adds(rest - second, second, s);
    lemma_times_order(one, s, second);
    lemma_times_one(second);
    lemma_times_order(rest, times(whole - first, s), s);
    lemma_times_associates(whole - first, s, s);
    lemma_times_adds(whole - first, first, s2);
    lemma_times_order(one, s2, first);
    lemma_times_one(first);
    assert(first + second + left <= times(whole, s2));
    // Not below.
    let back = second + times(left, s);
    lemma_times_order(rest, back, s);
    lemma_times_adds(second, times(left, s), s);
    lemma_times_associates(left, s, s);
    lemma_times_order(one, s, s);
    lemma_times_one(s);
    lemma_times_order(s, s2, second);
    lemma_times_adds(first, second, s2);
    lemma_times_adds(first + second, left, s2);
    assert(whole <= times(first + second + left, s2));
    reveal(about);
    reveal(times);
}

/// A sum of full precision is not nothing.
pub proof fn lemma_normal_sum(a: F64, b: F64)
    requires
        a.is_finite(),
        b.is_finite(),
        !a.negative(),
        !b.negative(),
        normal(a + b),
    ensures
        a.units() + b.units() > 0,
{
    lemma_parts(a);
    lemma_parts(b);
    lemma_sum(a, b);
    lemma_parts(a + b);
    if a.units() + b.units() == 0 {
        lemma_near_exact(0, 1, 0);
        lemma_near(false, 0, 1);
    }
}

/// A number that is not negative and not infinite.
pub open spec fn amount(x: F64) -> bool {
    x.is_finite() && !x.negative()
}

/// What an amount is worth.
pub proof fn lemma_amount(x: F64)
    requires
        amount(x),
    ensures
        value(x) >= (0 as real),
        x.units() >= 0,
{
    lemma_parts(x);
    lemma_value_order(x, x);
}

/// A normal number is a positive amount.
pub proof fn lemma_normal(x: F64)
    requires
        normal(x),
    ensures
        amount(x),
        x.units() > 0,
        value(x) > (0 as real),
{
    lemma_parts(x);
    lemma_value_order(x, x);
}

/// The product of a number that nearly is `ideal` with an amount.
pub proof fn lemma_carried(x: F64, factor: F64, ideal: real, k: nat)
    requires
        amount(x),
        amount(factor),
        normal(x * factor),
        about(value(x), ideal, k),
    ensures
        about(value(x * factor), times(ideal, value(factor)), k + 1),
        amount(x * factor),
{
    lemma_normal(x * factor);
    lemma_product_about(x, factor);
    lemma_amount(factor);
    lemma_about_same(value(factor));
    lemma_about_product(value(x), ideal, value(factor), value(factor), k, 0);
    lemma_about_chain(value(x * factor), times(value(x), value(factor)), times(ideal, value(factor)), 1, k);
}

/// Twice a number, less one of two parts of it that nearly are the same.
pub proof fn lemma_twice_less(total: real, part: real, ideal: real, k: nat)
    requires
        about(part, ideal, k),
        part <= total,
        ideal <= total,
    ensures
        about(total + (total - part), total + (total - ideal), k),
{
    lemma_about_turned(part, ideal, k);
    lemma_about_bounds(part, ideal, k);
    lemma_less_of_twice(total, part, ideal, k);
    lemma_less_of_twice(total, ideal, part, k);
    reveal(about);
    reveal(times);
}

proof fn lemma_less_of_twice(total: real, part: real, ideal: real, k: nat)
    requires
        about(part, ideal, k),
        part <= total,
        ideal <= total,
    ensures
        total + (total - part) <= times(total + (total - ideal), slack(k)),
{
    let s = slack(k);
    let rest = (2 as real) - s;
    lemma_about_bounds(part, ideal, k);
    lemma_slack(k);
    // One over the slack is no less than two less the slack.
    assert(times(s, rest) <= (1 as real)) by {
        reveal(times);
        assert((s - (1 as real)) * (s - (1 as real)) >= (0 as real)) by (nonlinear_arith);
        assert(s * ((2 as real) - s) == (1 as real) - (s - (1 as real)) * (s - (1 as real))) by (nonlinear_arith);
    }
    assert(times(ideal, rest) <= part) by {
        if rest >= (0 as real) {
            lemma_times_order(ideal, times(part, s), rest);
            lemma_times_associates(part, s, rest);
            lemma_times_order(times(s, rest), 1 as real, part);
            lemma_times_one(part);
        } else {
            lemma_times_order(rest, 0 as real, ideal);
            lemma_times_adds(0 as real, 0 as real, ideal);
        }
    }
    let more = s - (1 as real);
    lemma_times_adds(s, -s + (2 as real), ideal);
    lemma_times_one(ideal);
    lemma_times_order(ideal, total, more);
    lemma_times_adds(s, -(1 as real), ideal);
    lemma_times_adds(1 as real, -(1 as real), ideal);
    lemma_times_adds(0 as real, 0 as real, ideal);
    lemma_times_adds(s, -(1 as real), total);
    lemma_times_adds(1 as real, -(1 as real), total);
    lemma_times_adds(0 as real, 0 as real, total);
    lemma_times_one(total);
    lemma_times_commutes(ideal, more);
    lemma_times_commutes(total, more);
    lemma_times_commutes(ideal, s);
    lemma_times_commutes(total, s);
    lemma_times_commutes(ideal, rest);
    lemma_times_adds(total + total, -ideal, s);
    lemma_times_adds(total, total, s);
    lemma_times_adds(ideal, -ideal, s);
    lemma_times_adds(0 as real, 0 as real, s);
}

/// `x` exceeds `y` by no more than `k` roundings.
pub open spec fn at_most(x: real, y: real, k: nat) -> bool {
    x <= times(y, slack(k))
}

/// What nearly are two ordered numbers are ordered, but for rounding.
pub proof fn lemma_about_order(x: real, y: real, less: real, more: real, k: nat)
    requires
        about(x, less, k),
        about(y, more, k),
        less <= more,
    ensures
        at_most(x, y, k + k),
{
    lemma_about_bounds(x, less, k);
    lemma_about_bounds(y, more, k);
    lemma_slack(k);
    lemma_slack_adds(k, k);
    lemma_times_order(less, more, slack(k));
    lemma_times_order(more, times(y, slack(k)), slack(k));
    lemma_times_associates(y, slack(k), slack(k));
}

/// What agrees is ordered, but for rounding.
pub proof fn lemma_at_most(x: real, y: real, k: nat)
    requires
        about(x, y, k),
    ensures
        at_most(x, y, k),
        at_most(y, x, k),
{
    lemma_about_bounds(x, y, k);
}

pub proof fn lemma_at_most_chain(x: real, y: real, z: real, a: nat, b: nat)
    requires
        at_most(x, y, a),
        at_most(y, z, b),
    ensures
        at_most(x, z, a + b),
{
    lemma_slack(a);
    lemma_slack_adds(b, a);
    lemma_times_order(y, times(z, slack(b)), slack(a));
    lemma_times_associates(z, slack(b), slack(a));
}

pub proof fn lemma_at_most_product(x: real, y: real, v: real, w: real, a: nat, b: nat)
    requires
        at_most(x, y, a),
        at_most(v, w, b),
        x >= (0 as real),
        y >= (0 as real),
        v >= (0 as real),
        w >= (0 as real),
    ensures
        at_most(times(x, v), times(y, w), a + b),
{
    let (s, t) = (slack(a), slack(b));
    lemma_slack(a);
    lemma_slack(b);
    lemma_slack_adds(a, b);
    lemma_times_positive(y, s);
    lemma_times_order(x, times(y, s), v);
    lemma_times_order(v, times(w, t), times(y, s));
    lemma_times_associates(y, s, times(w, t));
    lemma_times_associates(s, w, t);
    lemma_times_commutes(s, w);
    lemma_times_associates(w, s, t);
    lemma_times_associates(y, w, times(s, t));
}

/// A step that is no less than one part in 2^52 of a number takes it up.
pub proof fn lemma_step_up(x: F64, step: F64)
    requires
        zero() <= x,
        zero() < step,
        x.is_finite(),
        step.is_finite(),
        x.units() <= HIDDEN * step.units(),
    ensures
        x < x + step,
{
    lemma_one();
    lemma_parts(x);
    lemma_parts(step);
    lemma_sum(x, step);
    let p = x.pattern();
    let (low, high) = (mag(p) as int, mag(p + 1) as int);
    if p < HIDDEN {
        lemma_mag_scaled(p + 1, 0);
        lemma2_to64();
    } else {
        lemma_neighbours(p);
        assert(high - low <= step.units()) by (nonlinear_arith)
            requires
                (high - low) * HIDDEN <= low,
                low <= HIDDEN * step.units(),
                HIDDEN > 0,
        ;
    }
    let total = x.units() + step.units();
    lemma_near_exact(high, 1, p + 1);
    lemma_ratio_order(high, 1, total, 1);
    lemma_near(false, total, 1);
    lemma_mag_increasing(p, p + 1);
    lemma_parts(x + step);
}

/// Rounding adds at most one part in 2^52.
pub proof fn lemma_rounds_little(num: int)
    requires
        num >= 0,
    ensures
        mag(rounded(ratio(num, 1))) * HIDDEN <= num * (HIDDEN + 1),
{
    let m = rounded(ratio(num, 1));
    lemma_ratio_decreasing(num, 1);
    lemma_rounded_nearest(ratio(num, 1));
    if m > 0 {
        let (low, high) = (mag((m - 1) as nat) as int, mag(m) as int);
        assert(2 * num >= low + high);
        if m <= HIDDEN {
            lemma_mag_scaled(m, 0);
            lemma_mag_scaled((m - 1) as nat, 0);
            lemma2_to64();
            assert(high * HIDDEN <= num * (HIDDEN + 1)) by (nonlinear_arith)
                requires
                    2 * num >= high + high - 1,
                    num >= 0,
                    HIDDEN > 0,
            ;
        } else {
            lemma_neighbours(m);
            assert(high * HIDDEN <= num * (HIDDEN + 1)) by (nonlinear_arith)
                requires
                    2 * num >= low + high,
                    (high - low) * HIDDEN <= high,
                    high >= 0,
                    HIDDEN >= 1,
            ;
        }
    } else {
        assert(mag(0) == 0);
        assert(0 <= num * (HIDDEN + 1)) by (nonlinear_arith)
            requires
                num >= 0,
                HIDDEN >= 0,
        ;
    }
}

} // verus!
