//! How far a computation with signs and cancellation can stray: errors measured against
//! a scale that bounds every term.
use super::accuracy::{
    about, amount, lemma_about_bounds, lemma_kept_product, lemma_neighbours, lemma_normal, lemma_over,
    lemma_quotient_about, lemma_real_product, lemma_rounds_little, lemma_times_adds, lemma_times_associates,
    lemma_times_commutes, lemma_times_one, lemma_times_order, lemma_times_positive, lemma_times_strict,
    lemma_times_unique, lemma_unit_value, lemma_value_negated, lemma_value_order, lemma_zero_value, normal, over,
    slack, step, times, value,
};
use super::exact::lemma_mul_negated;
use super::{lemma_one, rounded, zero, F64};
use super::locating::{lemma_ratio_decreasing, ratio};
use super::magnitude::{lemma_mag_increasing, lemma_mag_scaled, mag, HIDDEN, INF_BITS};
use super::nearness::{lemma_near, lemma_near_exact, lemma_parts, lemma_rounded_nearest};
use super::order::{lemma_mul_sign, lemma_negate, lemma_product, lemma_quotient, lemma_sum};
use vstd::arithmetic::power2::{lemma2_to64, lemma_pow2_pos, pow2};
use vstd::prelude::*;

verus! {

/// The size of a real number.
pub open spec fn size(x: real) -> real {
    if x < (0 as real) {
        -x
    } else {
        x
    }
}

/// What `k` roundings may take away from, or add to, one.
pub open spec fn allowance(k: nat) -> real {
    times(k as real, step())
}

/// `x` strays from `y` by no more than `k` roundings of `scale`, which bounds `y`.
pub open spec fn within(x: real, y: real, scale: real, k: nat) -> bool {
    &&& size(x - y) <= times(scale, allowance(k))
    &&& size(y) <= scale
}

/// `x` is `z` rounded, or nearly so.
pub open spec fn close(x: real, z: real) -> bool {
    size(x - z) <= times(size(z), allowance(2))
}

/// Roundings add up.
pub proof fn lemma_allowance(a: nat, b: nat)
    ensures
        allowance(a + b) == allowance(a) + allowance(b),
        allowance(a) >= (0 as real),
        allowance(0) == (0 as real),
        a <= 1000 ==> allowance(a) <= (1 as real),
        a <= b ==> allowance(a) <= allowance(b),
{
    lemma_times_adds(a as real, b as real, step());
    assert((a + b) as real == a as real + b as real);
    lemma_times_positive(a as real, step());
    lemma_times_adds(0 as real, 0 as real, step());
    assert(step() > (0 as real));
    if a <= b {
        lemma_times_order(a as real, b as real, step());
    }
    if a <= 1000 {
        lemma_times_order(a as real, 1000 as real, step());
        assert(times(1000 as real, step()) <= (1 as real)) by {
            reveal(times);
        }
    }
}

/// What agrees, where neither number is negative, is close.
pub proof fn lemma_about_close(x: real, z: real)
    requires
        about(x, z, 1),
    ensures
        close(x, z),
{
    lemma_about_bounds(x, z, 1);
    reveal(about);
    reveal(times);
    reveal_with_fuel(slack, 2);
    let e = step();
    assert(size(x - z) <= z * ((2 as real) * e)) by (nonlinear_arith)
        requires
            x <= z * ((1 as real) * ((1 as real) + e)),
            z <= x * ((1 as real) * ((1 as real) + e)),
            x >= (0 as real),
            z >= (0 as real),
            (0 as real) < e <= (1 as real),
            size(x - z) == x - z || size(x - z) == z - x,
    ;
}

/// Exact numbers are within nothing of themselves.
pub proof fn lemma_within_same(x: real, scale: real)
    requires
        size(x) <= scale,
    ensures
        within(x, x, scale, 0),
{
    lemma_allowance(0, 0);
    lemma_times_commutes(scale, 0 as real);
    lemma_times_adds(0 as real, 0 as real, scale);
}

/// More roundings of a greater scale allow more.
pub proof fn lemma_within_more(x: real, y: real, scale: real, k: nat, greater: real, more: nat)
    requires
        within(x, y, scale, k),
        scale <= greater,
        k <= more,
    ensures
        within(x, y, greater, more),
{
    lemma_allowance(k, more);
    lemma_times_order(allowance(k), allowance(more), scale);
    lemma_times_order(scale, greater, allowance(more));
}

/// Rounding what strays strays by four roundings more.
pub proof fn lemma_within_rounded(x: real, z: real, y: real, scale: real, k: nat)
    requires
        close(x, z),
        within(z, y, scale, k),
        k <= 1000,
    ensures
        within(x, y, scale, k + 4),
{
    lemma_allowance(k, 4);
    lemma_allowance(2, 2);
    lemma_times_order(allowance(k), 1 as real, scale);
    lemma_times_one(scale);
    assert(size(z) <= scale + scale);
    lemma_times_order(size(z), scale + scale, allowance(2));
    lemma_times_adds(scale, scale, allowance(2));
    lemma_times_adds(allowance(2), allowance(2), scale);
    lemma_times_commutes(scale, allowance(2));
    lemma_times_commutes(scale, allowance(4));
    lemma_times_adds(allowance(k), allowance(4), scale);
    lemma_times_commutes(scale, allowance(k));
    lemma_times_commutes(scale, allowance(k + 4));
}

/// Scaling scales the stray.
pub proof fn lemma_within_scaled(x: real, y: real, scale: real, k: nat, by: real)
    requires
        within(x, y, scale, k),
        by >= (0 as real),
    ensures
        within(times(x, by), times(y, by), times(scale, by), k),
{
    lemma_times_difference(x, y, by);
    lemma_times_order(size(x - y), times(scale, allowance(k)), by);
    lemma_times_associates(scale, allowance(k), by);
    lemma_times_commutes(allowance(k), by);
    lemma_times_associates(scale, by, allowance(k));
    lemma_size_times(x - y, by);
    lemma_size_times(y, by);
    lemma_times_order(size(y), scale, by);
}

/// Products of differences.
pub proof fn lemma_times_difference(x: real, y: real, by: real)
    ensures
        times(x - y, by) == times(x, by) - times(y, by),
{
    lemma_times_adds(x - y, y, by);
}

/// The size of a product with a number that is not negative.
pub proof fn lemma_size_times(x: real, by: real)
    requires
        by >= (0 as real),
    ensures
        size(times(x, by)) == times(size(x), by),
{
    lemma_times_difference(0 as real, x, by);
    lemma_times_adds(0 as real, 0 as real, by);
    lemma_times_positive(x, by);
    lemma_times_positive(-x, by);
}

/// Dividing divides the stray.
pub proof fn lemma_within_divided(x: real, y: real, scale: real, k: nat, by: real)
    requires
        within(x, y, scale, k),
        by > (0 as real),
    ensures
        within(over(x, by), over(y, by), over(scale, by), k),
{
    let share = over(1 as real, by);
    lemma_over(1 as real, by);
    lemma_quotient_share(x, by);
    lemma_quotient_share(y, by);
    lemma_quotient_share(scale, by);
    lemma_within_scaled(x, y, scale, k, share);
}

/// A quotient is a product with a share of one.
pub proof fn lemma_quotient_share(x: real, by: real)
    requires
        by > (0 as real),
    ensures
        over(x, by) == times(x, over(1 as real, by)),
{
    lemma_over(x, by);
    lemma_over(1 as real, by);
    lemma_times_associates(x, over(1 as real, by), by);
    lemma_times_one(x);
    lemma_times_unique(over(x, by), times(x, over(1 as real, by)), by);
}

/// Sums stray by what their parts do.
pub proof fn lemma_within_sum(x: real, y: real, v: real, w: real, scale: real, other: real, k: nat)
    requires
        within(x, y, scale, k),
        within(v, w, other, k),
    ensures
        within(x + v, y + w, scale + other, k),
        within(x - v, y - w, scale + other, k),
{
    lemma_times_adds(scale, other, allowance(k));
}

/// A number of full precision, of either sign.
pub open spec fn precise(x: F64) -> bool {
    HIDDEN <= x.pattern() < INF_BITS
}

/// Scaling keeps what is close.
proof fn lemma_close_scaled(x: real, z: real, by: real)
    requires
        close(x, z),
        by >= (0 as real),
    ensures
        close(times(x, by), times(z, by)),
{
    lemma_times_difference(x, z, by);
    lemma_size_times(x - z, by);
    lemma_size_times(z, by);
    lemma_times_order(size(x - z), times(size(z), allowance(2)), by);
    lemma_times_associates(size(z), allowance(2), by);
    lemma_times_commutes(allowance(2), by);
    lemma_times_associates(size(z), by, allowance(2));
}

/// A value as a share of its units.
proof fn lemma_value_share(x: F64)
    ensures
        value(x) == times(x.units() as real, over(1 as real, pow2(1074) as real)),
        over(1 as real, pow2(1074) as real) > (0 as real),
{
    lemma_pow2_pos(1074);
    lemma_unit_value(x);
    let unit = pow2(1074) as real;
    lemma_over(1 as real, unit);
    lemma_times_associates(x.units() as real, over(1 as real, unit), unit);
    lemma_times_one(x.units() as real);
    lemma_times_unique(value(x), times(x.units() as real, over(1 as real, unit)), unit);
}

/// A finite sum is close to the exact one.
pub proof fn lemma_sum_close(a: F64, b: F64)
    requires
        a.is_finite(),
        b.is_finite(),
        (a + b).is_finite(),
    ensures
        close(value(a + b), value(a) + value(b)),
{
    lemma_sum(a, b);
    lemma_parts(a + b);
    let total = a.units() + b.units();
    let whole = if total < 0 {
        -total
    } else {
        total
    };
    let m = rounded(ratio(whole, 1));
    lemma_near(total < 0, whole, 1);
    assert(mag((a + b).pattern()) == mag(m));
    if m >= INF_BITS {
        if m > INF_BITS {
            lemma_mag_increasing(INF_BITS as nat, m);
        }
    }
    lemma_rounds_little(whole);
    lemma_rounds_off_little(whole);
    let (got, sum, most) = ((a + b).units(), total, HIDDEN as int);
    let (u, n, e) = (got as real, sum as real, step());
    let (off, all) = (
        if got < sum {
            sum - got
        } else {
            got - sum
        },
        whole,
    );
    assert(off * most <= all) by (nonlinear_arith)
        requires
            mag(m) * most <= whole * (most + 1),
            whole * (most - 1) <= mag(m) * most,
            got == mag(m) && sum == whole || got == -mag(m) && sum == -whole,
            off == if got < sum { sum - got } else { got - sum },
            all == whole,
    ;
    lemma_real_product(off, most);
    assert(size(u - n) == off as real && size(n) == all as real);
    assert(close(u, n)) by {
        reveal(times);
        let (o, w) = (off as real, all as real);
        assert(o <= w * ((2 as real) * e)) by (nonlinear_arith)
            requires
                o * (4_503_599_627_370_496 as real) <= w,
                e * (4_503_599_627_370_496 as real) == (1 as real),
                o >= (0 as real),
                w >= (0 as real),
                e > (0 as real),
        ;
    }
    let share = over(1 as real, pow2(1074) as real);
    lemma_value_share(a);
    lemma_value_share(b);
    lemma_value_share(a + b);
    lemma_close_scaled(u, n, share);
    lemma_times_adds(a.units() as real, b.units() as real, share);
    assert(n == a.units() as real + b.units() as real);
}

/// Rounding takes away at most one part in 2^52.
proof fn lemma_rounds_off_little(num: int)
    requires
        num >= 0,
        rounded(ratio(num, 1)) < INF_BITS,
    ensures
        num * (HIDDEN - 1) <= mag(rounded(ratio(num, 1))) * HIDDEN,
{
    let m = rounded(ratio(num, 1));
    lemma_ratio_decreasing(num, 1);
    lemma_rounded_nearest(ratio(num, 1));
    let (low, high) = (mag(m) as int, mag(m + 1) as int);
    assert(2 * num <= low + high);
    if m < HIDDEN {
        lemma_mag_scaled(m, 0);
        lemma_mag_scaled(m + 1, 0);
        lemma2_to64();
        assert(num * (HIDDEN - 1) <= low * HIDDEN) by (nonlinear_arith)
            requires
                2 * num <= low + low + 1,
                low >= 0,
                HIDDEN >= 1,
                num >= 0,
        ;
    } else {
        lemma_neighbours(m);
        assert(num * (HIDDEN - 1) <= low * HIDDEN) by (nonlinear_arith)
            requires
                2 * num <= low + high,
                (high - low) * HIDDEN <= low,
                low >= 0,
                HIDDEN >= 1,
        ;
    }
}

/// A finite difference is close to the exact one.
pub proof fn lemma_difference_close(a: F64, b: F64)
    requires
        a.is_finite(),
        b.is_finite(),
        (a - b).is_finite(),
    ensures
        close(value(a - b), value(a) - value(b)),
{
    lemma_negate(b);
    lemma_value_negated(b);
    lemma_sum_close(a, b.negate());
}

/// A product with an amount is close to the exact one, if it keeps full precision or is
/// nothing.
pub proof fn lemma_product_close(a: F64, b: F64)
    requires
        a.is_finite(),
        amount(b),
        precise(a * b) || a.units() == 0 || b.units() == 0,
    ensures
        close(value(a * b), times(value(a), value(b))),
        (a * b).is_finite(),
{
    lemma_product(a, b);
    lemma_parts(a);
    lemma_parts(b);
    lemma_parts(a * b);
    if a.negative() {
        lemma_negate(a);
        lemma_negate(a * b);
        lemma_mul_negated(a, b);
        lemma_value_negated(a);
        lemma_value_negated(a * b);
        lemma_mul_sign(a, b);
        lemma_kept_product(a.negate(), b);
        lemma_about_close(value(a.negate() * b), times(value(a.negate()), value(b)));
        lemma_times_difference(0 as real, value(a), value(b));
        lemma_times_adds(0 as real, 0 as real, value(b));
        lemma_parts((a * b).negate());
    } else {
        lemma_mul_sign(a, b);
        lemma_kept_product(a, b);
        lemma_about_close(value(a * b), times(value(a), value(b)));
    }
}

/// A quotient by a positive number is close to the exact one, if it keeps full precision
/// or is nothing.
pub proof fn lemma_quotient_close(a: F64, b: F64)
    requires
        a.is_finite(),
        normal(b),
        precise(a / b) || a.units() == 0,
    ensures
        close(value(a / b), over(value(a), value(b))),
        (a / b).is_finite(),
{
    lemma_normal(b);
    lemma_parts(a);
    lemma_parts(b);
    lemma_quotient(a, b);
    let (num, den) = ((mag(a.pattern()) * pow2(1074)) as int, mag(b.pattern()) as int);
    lemma_near(a.negative(), num, den);
    lemma_near(!a.negative(), num, den);
    lemma_parts(a / b);
    if a.units() == 0 {
        assert(mag(0) == 0);
        assert(num == 0) by (nonlinear_arith)
            requires
                num == mag(a.pattern()) * pow2(1074),
                mag(a.pattern()) == 0,
        ;
        lemma_near_exact(0, den, 0);
        lemma_value_share(a);
        lemma_value_share(a / b);
        lemma_times_adds(0 as real, 0 as real, over(1 as real, pow2(1074) as real));
        lemma_over(0 as real, value(b));
        lemma_times_adds(0 as real, 0 as real, value(b));
        lemma_times_unique(over(0 as real, value(b)), 0 as real, value(b));
        lemma_times_adds(0 as real, 0 as real, allowance(2));
    } else if a.negative() {
        lemma_negate(a);
        lemma_negate(a / b);
        lemma_value_negated(a);
        lemma_value_negated(a / b);
        lemma_quotient(a.negate(), b);
        lemma_parts((a / b).negate());
        assert(a.negate() / b == (a / b).negate());
        lemma_quotient_about(a.negate(), b);
        lemma_about_close(value(a.negate() / b), over(value(a.negate()), value(b)));
        lemma_quotient_share(value(a), value(b));
        lemma_quotient_share(-value(a), value(b));
        lemma_times_difference(0 as real, value(a), over(1 as real, value(b)));
        lemma_times_adds(0 as real, 0 as real, over(1 as real, value(b)));
    } else {
        lemma_quotient_about(a, b);
        lemma_about_close(value(a / b), over(value(a), value(b)));
    }
}

/// The least positive value.
pub open spec fn least() -> real {
    over(1 as real, pow2(1074) as real)
}

/// A finite product of numbers that are not negative is close to the exact one, or
/// within the least value of it.
pub proof fn lemma_product_near(a: F64, b: F64)
    requires
        a.is_finite(),
        b.is_finite(),
        a.units() >= 0,
        b.units() >= 0,
        (a * b).is_finite(),
    ensures
        size(value(a * b) - times(value(a), value(b))) <= times(times(value(a), value(b)), allowance(2)) + least(),
        value(a * b) >= (0 as real),
        least() > (0 as real),
{
    let exact = times(value(a), value(b));
    lemma_value_share(a);
    lemma_value_order(a, a);
    lemma_value_order(b, b);
    lemma_times_positive(value(a), value(b));
    lemma_allowance(2, 0);
    lemma_times_positive(exact, allowance(2));
    lemma_product(a, b);
    lemma_mul_sign(a, b);
    lemma_parts(a);
    lemma_parts(b);
    lemma_parts(a * b);
    if a.units() == 0 || b.units() == 0 {
        let den = pow2(1074) as int;
        lemma_pow2_pos(1074);
        assert(mag(0) == 0);
        assert(mag(a.pattern()) * mag(b.pattern()) == 0) by (nonlinear_arith)
            requires
                mag(a.pattern()) == 0 || mag(b.pattern()) == 0,
        ;
        lemma_near_exact(0, den, 0);
        lemma_near(a.negative() != b.negative(), 0, den);
        lemma_zero_value();
        lemma_value_order(a * b, zero());
        lemma_value_order(zero(), a * b);
        lemma_value_order(a, zero());
        lemma_value_order(zero(), a);
        lemma_value_order(b, zero());
        lemma_value_order(zero(), b);
        lemma_one();
        lemma_times_adds(0 as real, 0 as real, value(a));
        lemma_times_adds(0 as real, 0 as real, value(b));
        lemma_times_commutes(value(a), 0 as real);
    } else if precise(a * b) {
        lemma_value_order(a * b, a * b);
        lemma_product_close(a, b);
    } else {
        lemma_value_order(a * b, a * b);
        let (num, den) = ((mag(a.pattern()) * mag(b.pattern())) as int, pow2(1074) as int);
        lemma_pow2_pos(1074);
        let m = rounded(ratio(num, den));
        lemma_near(false, num, den);
        lemma_ratio_decreasing(num, den);
        lemma_rounded_nearest(ratio(num, den));
        lemma2_to64();
        lemma_mag_scaled(m, 0);
        lemma_mag_scaled(m + 1, 0);
        if m > 0 {
            lemma_mag_scaled((m - 1) as nat, 0);
        }
        assert(m * den - num <= den && num - m * den <= den) by (nonlinear_arith)
            requires
                2 * num <= (2 * m + 1) * den,
                m > 0 ==> 2 * num >= (2 * m - 1) * den,
                m >= 0,
                num >= 0,
                den > 0,
        ;
        let (p, x, n) = (den as real, m as real, num as real);
        lemma_unit_value(a);
        lemma_unit_value(b);
        lemma_unit_value(a * b);
        lemma_real_product(m as int, den);
        lemma_real_product(mag(a.pattern()) as int, mag(b.pattern()) as int);
        let (va, vb, got) = (value(a), value(b), value(a * b));
        // Twice scaled by the count of units, both are whole numbers.
        lemma_times_associates(va, vb, p);
        lemma_times_commutes(vb, p);
        lemma_times_associates(va, p, vb);
        lemma_times_associates(times(va, p), vb, p);
        assert(times(times(exact, p), p) == n) by {
            reveal(times);
        }
        assert(times(times(got, p), p) == x * p) by {
            reveal(times);
        }
        lemma_times_difference(got, exact, p);
        lemma_times_difference(times(got, p), times(exact, p), p);
        lemma_over(1 as real, p);
        lemma_times_one(p);
        let off = got - exact;
        if off > least() {
            lemma_times_strict(least(), off, p);
            lemma_times_strict(1 as real, times(off, p), p);
        }
        if -off > least() {
            lemma_times_strict(least(), -off, p);
            lemma_times_strict(1 as real, times(-off, p), p);
            lemma_times_difference(exact, got, p);
            lemma_times_difference(times(exact, p), times(got, p), p);
        }
    }
}

} // verus!
