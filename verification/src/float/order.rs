//! What order and sign the binary64 operations keep.
use super::{dec, lemma_one, rounded, whole, zero, F64};
use super::decimals::{lemma_decimal, lemma_half, lemma_whole};
use super::exact::{lemma_add_zero, lemma_half_of_double, lemma_mul_one, lemma_sub_self};
use super::locating::{lemma_ratio_decreasing, lemma_root_decreasing, ratio, root};
use super::magnitude::{lemma_mag_increasing, mag, HIDDEN, INF_BITS};
use super::nearness::{
    lemma_near, lemma_near_exact, lemma_near_order, lemma_near_within, lemma_parts, lemma_pattern_of,
    lemma_ratio_order, lemma_rounded_nearest, lemma_rounded_order, lemma_signed, near,
};
use super::rounding::nearest;
use vstd::arithmetic::power2::{lemma2_to64, lemma2_to64_rest, lemma_pow2_adds, lemma_pow2_pos, pow2};
use vstd::arithmetic::power::pow;
use vstd::prelude::*;

verus! {

/// The sum of two finite numbers is the double nearest to the exact sum.
pub proof fn lemma_sum(a: F64, b: F64)
    requires
        a.is_finite(),
        b.is_finite(),
    ensures
        ({
            let total = a.units() + b.units();
            (a + b).units() == near(total < 0, if total < 0 { -total } else { total }, 1).units()
        }),
        !(a + b).is_nan(),
{
    lemma_parts(a);
    lemma_parts(b);
    reveal(F64::spec_add);
    let total = a.units() + b.units();
    lemma_near(total < 0, if total < 0 { -total } else { total }, 1);
    if total == 0 {
        assert(mag(0) == 0);
        lemma_near_exact(0, 1, 0);
        lemma_signed(a.negative() && b.negative(), 0);
    }
}

/// A number reads the same with its sign turned twice.
pub proof fn lemma_negate(x: F64)
    ensures
        x.negate().units() == -x.units(),
        x.negate().is_nan() == x.is_nan(),
        x.negate().is_finite() == x.is_finite(),
        x.negate().pattern() == x.pattern(),
        x.negate().negative() == !x.negative(),
{
    reveal(F64::is_nan_spec);
    reveal(F64::is_finite_spec);
    reveal(F64::units);
    assert(mag(0) == 0);
}

/// Addition keeps order.
pub proof fn lemma_add_order(a: F64, b: F64, c: F64)
    requires
        a <= b,
        !(a + c).is_nan(),
        !(b + c).is_nan(),
    ensures
        a + c <= b + c,
{
    lemma_parts(a);
    lemma_parts(b);
    lemma_parts(c);
    lemma_parts(a + c);
    lemma_parts(b + c);
    reveal(F64::spec_add);
    reveal(F64::is_nan_spec);
    if a.is_finite() && b.is_finite() && c.is_finite() {
        lemma_sum(a, c);
        lemma_sum(b, c);
        let t1 = a.units() + c.units();
        let t2 = b.units() + c.units();
        lemma_near_order(t1 < 0, if t1 < 0 { -t1 } else { t1 }, 1, t2 < 0, if t2 < 0 { -t2 } else { t2 }, 1);
    }
}

/// Addition does not mind the order of its operands.
pub proof fn lemma_add_commutes(a: F64, b: F64)
    ensures
        a + b == b + a,
{
    lemma_parts(a);
    lemma_parts(b);
    reveal(F64::spec_add);
}

/// Subtraction turns the order of what is taken away.
pub proof fn lemma_sub_order(a: F64, b: F64, c: F64)
    requires
        a <= b,
        !(c - a).is_nan(),
        !(c - b).is_nan(),
    ensures
        c - b <= c - a,
{
    lemma_negate(a);
    lemma_negate(b);
    lemma_add_commutes(c, a.negate());
    lemma_add_commutes(c, b.negate());
    lemma_add_order(b.negate(), a.negate(), c);
}

/// The product of two finite numbers is the double nearest to the exact product.
pub proof fn lemma_product(a: F64, b: F64)
    requires
        a.is_finite(),
        b.is_finite(),
    ensures
        ({
            let num = (mag(a.pattern()) * mag(b.pattern())) as int;
            let negative = a.negative() != b.negative();
            &&& a * b == near(negative, num, pow2(1074) as int)
            &&& num >= 0
            &&& (if negative { -num } else { num }) == a.units() * b.units()
        }),
        !(a * b).is_nan(),
{
    lemma_parts(a);
    lemma_parts(b);
    reveal(F64::spec_mul);
    lemma_pow2_pos(1074);
    let (x, y) = (mag(a.pattern()) as int, mag(b.pattern()) as int);
    lemma_near(a.negative() != b.negative(), x * y, pow2(1074) as int);
    assert(x * y >= 0 && (-x) * y == -(x * y) && x * (-y) == -(x * y) && (-x) * (-y) == x * y) by (nonlinear_arith)
        requires
            x >= 0,
            y >= 0,
    ;
}

/// Multiplication by what is not negative keeps order.
pub proof fn lemma_mul_order(a: F64, b: F64, c: F64)
    requires
        a <= b,
        zero() <= c,
        !(a * c).is_nan(),
        !(b * c).is_nan(),
    ensures
        a * c <= b * c,
{
    lemma_one();
    lemma_parts(a);
    lemma_parts(b);
    lemma_parts(c);
    lemma_parts(a * c);
    lemma_parts(b * c);
    lemma_pow2_pos(1074);
    let scale = pow2(1074) as int;
    if a.is_finite() && b.is_finite() && c.is_finite() {
        lemma_product(a, c);
        lemma_product(b, c);
        let (ua, ub, uc) = (a.units(), b.units(), c.units());
        assert((ua * uc) * scale <= (ub * uc) * scale) by (nonlinear_arith)
            requires
                ua <= ub,
                uc >= 0,
                scale > 0,
        ;
        lemma_near_order(
            a.negative() != c.negative(),
            (mag(a.pattern()) * mag(c.pattern())) as int,
            scale,
            b.negative() != c.negative(),
            (mag(b.pattern()) * mag(c.pattern())) as int,
            scale,
        );
    } else {
        reveal(F64::spec_mul);
        reveal(F64::is_nan_spec);
        lemma_signed(true, INF_BITS as nat);
        lemma_signed(false, INF_BITS as nat);
        if c.is_finite() {
            assert(c.pattern() > 0);
            assert(!c.negative());
        }
    }
}

/// The sign of a product is that of its factors together.
pub proof fn lemma_mul_sign(a: F64, b: F64)
    requires
        !(a * b).is_nan(),
    ensures
        (a * b).negative() == (a.negative() != b.negative()),
{
    lemma_numbers(a, b);
    lemma_parts(a);
    lemma_parts(b);
    if a.is_finite() && b.is_finite() {
        lemma_pow2_pos(1074);
        lemma_product(a, b);
        lemma_near(
            a.negative() != b.negative(),
            (mag(a.pattern()) * mag(b.pattern())) as int,
            pow2(1074) as int,
        );
    } else {
        reveal(F64::spec_mul);
        reveal(F64::is_nan_spec);
        lemma_signed(a.negative() != b.negative(), INF_BITS as nat);
    }
}

/// Multiplication does not mind the order of its operands.
pub proof fn lemma_mul_commutes(a: F64, b: F64)
    ensures
        a * b == b * a,
{
    reveal(F64::spec_mul);
    assert(mag(a.pattern()) * mag(b.pattern()) == mag(b.pattern()) * mag(a.pattern())) by (nonlinear_arith);
}

/// The quotient of finite numbers is the double nearest to the exact quotient.
pub proof fn lemma_quotient(a: F64, b: F64)
    requires
        a.is_finite(),
        b.is_finite(),
        b.units() != 0,
    ensures
        a / b == near(
            a.negative() != b.negative(),
            (mag(a.pattern()) * pow2(1074)) as int,
            mag(b.pattern()) as int,
        ),
        mag(b.pattern()) > 0,
        !(a / b).is_nan(),
{
    lemma_parts(a);
    lemma_parts(b);
    reveal(F64::quotient);
    lemma_near(a.negative() != b.negative(), (mag(a.pattern()) * pow2(1074)) as int, mag(b.pattern()) as int);
}

/// Division by what is not negative keeps order, but for negative zero.
pub proof fn lemma_div_order(a: F64, b: F64, c: F64)
    requires
        a <= b,
        zero() <= c,
        zero() < c || !c.negative(),
        !(a / c).is_nan(),
        !(b / c).is_nan(),
    ensures
        a / c <= b / c,
{
    lemma_one();
    lemma_parts(a);
    lemma_parts(b);
    lemma_parts(c);
    lemma_parts(a / c);
    lemma_parts(b / c);
    lemma_pow2_pos(1074);
    let scale = pow2(1074) as int;
    if a.is_finite() && b.is_finite() && c.is_finite() && zero() < c {
        lemma_quotient(a, c);
        lemma_quotient(b, c);
        let (ua, ub, uc) = (a.units(), b.units(), c.units());
        let (x, y) = (mag(a.pattern()) as int, mag(b.pattern()) as int);
        assert((-x) * scale == -(x * scale) && (-y) * scale == -(y * scale) && x * scale >= 0 && y * scale >= 0)
            by (nonlinear_arith)
            requires
                x >= 0,
                y >= 0,
                scale > 0,
        ;
        assert((ua * scale) * uc <= (ub * scale) * uc) by (nonlinear_arith)
            requires
                ua <= ub,
                uc > 0,
                scale > 0,
        ;
        lemma_near_order(a.negative(), x * scale, uc, b.negative(), y * scale, uc);
    } else {
        reveal(F64::quotient);
        reveal(F64::is_nan_spec);
        lemma_signed(true, INF_BITS as nat);
        lemma_signed(false, INF_BITS as nat);
        lemma_signed(true, 0);
        lemma_signed(false, 0);
    }
}

/// What is not a number stays so: a number comes from numbers only.
pub proof fn lemma_numbers(a: F64, b: F64)
    ensures
        !(a + b).is_nan() ==> !a.is_nan() && !b.is_nan(),
        !(a - b).is_nan() ==> !a.is_nan() && !b.is_nan(),
        !(a * b).is_nan() ==> !a.is_nan() && !b.is_nan(),
        !(a / b).is_nan() ==> !a.is_nan() && !b.is_nan(),
{
    lemma_negate(b);
    reveal(F64::is_nan_spec);
    reveal(F64::spec_add);
    reveal(F64::spec_mul);
    reveal(F64::quotient);
}

/// A finite sum has finite terms.
pub proof fn lemma_finite_terms(a: F64, b: F64)
    requires
        (a + b).is_finite(),
    ensures
        a.is_finite(),
        b.is_finite(),
{
    lemma_numbers(a, b);
    reveal(F64::is_nan_spec);
    reveal(F64::is_finite_spec);
    reveal(F64::spec_add);
}

/// A share of a finite number is finite.
pub proof fn lemma_share_finite(x: F64, share: F64)
    requires
        x.is_finite(),
        zero() <= share,
        share <= whole(1),
    ensures
        (x * share).is_finite(),
{
    lemma_one();
    lemma_parts(x);
    lemma_parts(share);
    lemma_parts(whole(1));
    let v = mag(x.pattern()) as int;
    let u = mag(share.pattern()) as int;
    let scale = pow2(1074) as int;
    lemma_pow2_pos(1074);
    lemma_product(x, share);
    lemma_near_exact(v * scale, scale, x.pattern());
    assert((v * u) * scale <= (v * scale) * scale) by (nonlinear_arith)
        requires
            v >= 0,
            0 <= u <= scale,
    ;
    lemma_ratio_order(v * u, scale, v * scale, scale);
    lemma_near(x.negative() != share.negative(), v * u, scale);
    lemma_parts(x * share);
}

/// What a division by zero gives is lost for good: scaled, added to and brought
/// back to zero, it is no number.
pub proof fn lemma_zero_divisor(x: F64, nothing: F64, scale: F64, offset: F64)
    requires
        nothing.units() == 0,
        zero() < scale,
    ensures
        ((offset + x / nothing * scale) * nothing).is_nan(),
{
    lemma_one();
    lemma_parts(x);
    lemma_parts(nothing);
    lemma_parts(scale);
    let q = x / nothing;
    lemma_parts(q);
    lemma_numbers(q, scale);
    let p = q * scale;
    lemma_parts(p);
    lemma_numbers(offset, p);
    lemma_parts(offset);
    let r = offset + p;
    lemma_parts(r);
    lemma_numbers(r, nothing);
    lemma_signed(true, INF_BITS as nat);
    lemma_signed(false, INF_BITS as nat);
    reveal(F64::quotient);
    reveal(F64::spec_mul);
    reveal(F64::spec_add);
    reveal(F64::is_nan_spec);
    if !q.is_nan() {
        assert(q.is_infinite_spec());
        assert(p.is_infinite_spec());
    }
}

/// The square root keeps order.
pub proof fn lemma_sqrt_order(a: F64, b: F64)
    requires
        zero() <= a,
        a <= b,
    ensures
        a.sqrt() <= b.sqrt(),
        zero() <= a.sqrt(),
{
    lemma_one();
    lemma_parts(a);
    lemma_parts(b);
    lemma_parts(a.sqrt());
    lemma_parts(b.sqrt());
    reveal(F64::sqrt_spec);
    reveal(F64::is_nan_spec);
    let scale = pow2(1074) as int;
    lemma_pow2_pos(1074);
    let x = (mag(a.pattern()) * pow2(1074)) as int;
    let y = (mag(b.pattern()) * pow2(1074)) as int;
    lemma_root_decreasing(x);
    lemma_root_decreasing(y);
    lemma_rounded_nearest(root(x));
    lemma_rounded_nearest(root(y));
    lemma_signed(false, rounded(root(x)));
    lemma_signed(false, rounded(root(y)));
    assert(x <= y) by (nonlinear_arith)
        requires
            x == mag(a.pattern()) * scale,
            y == mag(b.pattern()) * scale,
            mag(a.pattern()) <= mag(b.pattern()),
            scale > 0,
    ;
    lemma_rounded_order(root(x), root(y));
    let m = rounded(root(x));
    let n = rounded(root(y));
    if m < n {
        lemma_mag_increasing(m, n);
    }
}

/// What is not negative stays so under a product.
pub proof fn lemma_mul_not_negative(a: F64, b: F64)
    requires
        zero() <= a,
        zero() <= b,
        !(a * b).is_nan(),
    ensures
        zero() <= a * b,
{
    lemma_one();
    lemma_parts(b);
    lemma_parts(zero());
    lemma_parts(a);
    if b.is_finite() {
        lemma_product(zero(), b);
        assert(mag(0) == 0);
        lemma_pow2_pos(1074);
        assert(0 * mag(b.pattern()) == 0);
        lemma_near_exact(0, pow2(1074) as int, 0);
        lemma_near(zero().negative() != b.negative(), 0, pow2(1074) as int);
        lemma_mul_order(zero(), a, b);
    } else {
        reveal(F64::spec_mul);
        reveal(F64::is_nan_spec);
        lemma_signed(false, INF_BITS as nat);
    }
}

/// What is not negative stays so under a sum.
pub proof fn lemma_add_not_negative(a: F64, b: F64)
    requires
        zero() <= a,
        zero() <= b,
    ensures
        zero() <= a + b,
        a <= a + b,
        b <= a + b,
{
    lemma_one();
    lemma_parts(a);
    lemma_parts(b);
    lemma_parts(zero());
    reveal(F64::spec_add);
    reveal(F64::is_nan_spec);
    lemma_add_commutes(zero(), a);
    lemma_add_commutes(b, a);
    if a.is_finite() && b.is_finite() {
        lemma_add_zero(a, zero());
        lemma_add_zero(b, zero());
        lemma_add_commutes(zero(), b);
        lemma_sum(a, b);
        lemma_add_order(zero(), b, a);
        lemma_add_order(zero(), a, b);
    }
}

/// A share of at most one is no more than the whole.
pub proof fn lemma_share(whole_part: F64, share: F64)
    requires
        zero() <= whole_part,
        zero() <= share,
        share <= whole(1),
        !(whole_part * share).is_nan(),
    ensures
        whole_part * share <= whole_part,
        zero() <= whole_part * share,
{
    lemma_mul_one(whole_part);
    lemma_mul_commutes(whole_part, share);
    lemma_mul_commutes(whole_part, whole(1));
    lemma_mul_order(share, whole(1), whole_part);
    lemma_mul_not_negative(whole_part, share);
}

/// A value between two that are not negative, by a share of the way, is not negative.
pub proof fn lemma_between_not_negative(a: F64, b: F64, share: F64)
    requires
        zero() <= a,
        zero() <= b,
        a.is_finite(),
        b.is_finite(),
        zero() <= share,
        share <= whole(1),
    ensures
        zero() <= a + (b - a) * share,
{
    lemma_one();
    lemma_parts(a);
    lemma_parts(b);
    lemma_parts(zero());
    lemma_negate(a);
    lemma_sum(b, a.negate());
    lemma_sum(zero(), a.negate());
    lemma_parts(b - a);
    lemma_add_order(zero(), b, a.negate());
    lemma_add_zero(a.negate(), zero());
    lemma_add_commutes(a.negate(), zero());
    assert(a.negate() <= b - a);
    lemma_negate(zero());
    lemma_parts(zero().negate());
    lemma_add_zero(b, zero().negate());
    lemma_parts(b - zero());
    lemma_sub_order(zero(), a, b);
    assert(b - a <= b);
    assert((b - a).is_finite());
    let part = (b - a) * share;
    lemma_share_finite(b - a, share);
    lemma_parts(part);
    if zero() <= b - a {
        lemma_mul_not_negative(b - a, share);
        lemma_add_not_negative(a, part);
    } else {
        lemma_share_of_debt(b - a, share);
        lemma_sum(a, part);
        lemma_sub_self(a);
        lemma_add_commutes(a, part);
        lemma_add_commutes(a, a.negate());
        lemma_add_order(a.negate(), part, a);
    }
}

/// A share of a negative number lies between it and zero.
proof fn lemma_share_of_debt(x: F64, share: F64)
    requires
        x.is_finite(),
        x < zero(),
        zero() <= share,
        share <= whole(1),
    ensures
        x <= x * share,
        x * share <= zero(),
{
    lemma_one();
    lemma_parts(x);
    lemma_parts(share);
    lemma_parts(whole(1));
    lemma_parts(zero());
    let v = mag(x.pattern()) as int;
    let u = mag(share.pattern()) as int;
    let scale = pow2(1074) as int;
    lemma_pow2_pos(1074);
    lemma_product(x, share);
    lemma_near_exact(v * scale, scale, x.pattern());
    assert((v * u) * scale <= (v * scale) * scale && v * u >= 0) by (nonlinear_arith)
        requires
            v >= 0,
            0 <= u <= scale,
    ;
    lemma_ratio_order(v * u, scale, v * scale, scale);
    lemma_near(x.negative() != share.negative(), v * u, scale);
    lemma_parts(x * share);
    if share.negative() {
        assert(u == 0);
        assert(v * u == 0 && 0 * scale == 0) by (nonlinear_arith)
            requires
                u == 0,
        ;
        assert(mag(0) == 0);
        lemma_near_exact(0, scale, 0);
    }
}

/// The lesser of two numbers is one of them and no more than either.
pub proof fn lemma_min(a: F64, b: F64)
    requires
        !a.is_nan(),
        !b.is_nan(),
    ensures
        a.min(b) <= a,
        a.min(b) <= b,
        a.min(b) == a || a.min(b) == b,
{
}

/// The greater of two numbers is one of them and no less than either.
pub proof fn lemma_max(a: F64, b: F64)
    requires
        !a.is_nan(),
        !b.is_nan(),
    ensures
        a <= a.max(b),
        b <= a.max(b),
        a.max(b) == a || a.max(b) == b,
{
}

/// A number that is kept within bounds lies within them.
pub proof fn lemma_clamp(x: F64, low: F64, high: F64)
    requires
        !x.is_nan(),
        low <= high,
    ensures
        low <= x.clamp(low, high),
        x.clamp(low, high) <= high,
        low <= x && x <= high ==> x.clamp(low, high) == x,
{
}

/// A finite number less a number is a number.
pub proof fn lemma_finite_less(a: F64, b: F64)
    requires
        a.is_finite(),
        !b.is_nan(),
    ensures
        !(a - b).is_nan(),
{
    lemma_parts(a);
    lemma_parts(b.negate());
    lemma_negate(b);
    reveal(F64::spec_add);
    reveal(F64::is_nan_spec);
    if b.is_finite() {
        lemma_sum(a, b.negate());
    } else {
        lemma_parts(b);
    }
}

/// A number less a finite one is a number.
pub proof fn lemma_less_finite(a: F64, b: F64)
    requires
        !a.is_nan(),
        b.is_finite(),
    ensures
        !(a - b).is_nan(),
{
    lemma_parts(a);
    lemma_parts(b);
    lemma_negate(b);
    lemma_parts(b.negate());
    reveal(F64::spec_add);
    reveal(F64::is_nan_spec);
    if a.is_finite() {
        lemma_sum(a, b.negate());
    }
}

/// Scaling by a positive finite number keeps order and sign.
pub proof fn lemma_scaled_order(factor: F64, low: F64, high: F64)
    requires
        zero() < factor,
        factor.is_finite(),
        zero() <= low,
        low <= high,
    ensures
        zero() <= factor * low,
        factor * low <= factor * high,
{
    lemma_factor(factor, low);
    lemma_factor(factor, high);
    lemma_mul_commutes(factor, low);
    lemma_mul_commutes(factor, high);
    lemma_mul_order(low, high, factor);
    lemma_mul_not_negative(factor, low);
}

proof fn lemma_factor(factor: F64, x: F64)
    requires
        zero() < factor,
        factor.is_finite(),
        zero() <= x,
    ensures
        !(factor * x).is_nan(),
{
    lemma_one();
    lemma_parts(factor);
    lemma_parts(x);
    if x.is_finite() {
        lemma_product(factor, x);
    } else {
        reveal(F64::spec_mul);
        lemma_signed(false, INF_BITS as nat);
    }
}

/// A number over a positive finite number is a number.
pub proof fn lemma_number_over(a: F64, b: F64)
    requires
        !a.is_nan(),
        b.is_finite(),
        zero() < b,
    ensures
        !(a / b).is_nan(),
{
    lemma_one();
    lemma_parts(a);
    lemma_parts(b);
    if a.is_finite() {
        lemma_quotient(a, b);
    } else {
        reveal(F64::quotient);
        lemma_signed(a.negative() != b.negative(), INF_BITS as nat);
    }
}

/// A sum with a positive number is not negative zero.
pub proof fn lemma_sum_sign(a: F64, b: F64)
    requires
        zero() < a,
        zero() <= a + b,
    ensures
        !(a + b).negative(),
{
    lemma_one();
    lemma_parts(a);
    lemma_parts(b);
    lemma_parts(a + b);
    reveal(F64::spec_add);
    reveal(F64::is_nan_spec);
    if a.is_finite() && b.is_finite() {
        let total = a.units() + b.units();
        if total == 0 {
            lemma_signed(false, 0);
        } else {
            lemma_near(total < 0, if total < 0 { -total } else { total }, 1);
            if total < 0 {
                assert(mag(1) == 1);
                lemma_near_exact(1, 1, 1);
                lemma_near(true, 1, 1);
                lemma_near_order(true, -total, 1, true, 1, 1);
            }
        }
    }
}

/// A number with which a greater finite number has a sum, has one with the lesser.
pub proof fn lemma_sum_with(a: F64, low: F64, high: F64)
    requires
        zero() <= low,
        low <= high,
        !(a + high).is_nan(),
    ensures
        !(a + low).is_nan(),
{
    lemma_one();
    lemma_parts(a);
    lemma_parts(low);
    lemma_parts(high);
    lemma_parts(a + low);
    lemma_numbers(a, high);
    reveal(F64::spec_add);
    reveal(F64::is_nan_spec);
    if a.is_finite() && low.is_finite() {
        lemma_sum(a, low);
    }
}

/// Sums of two ordered pairs are ordered.
pub proof fn lemma_add_both(a: F64, b: F64, c: F64, d: F64)
    requires
        a <= b,
        c <= d,
        !(a + c).is_nan(),
        !(b + d).is_nan(),
        !(b + c).is_nan(),
    ensures
        a + c <= b + d,
{
    lemma_add_order(a, b, c);
    lemma_add_commutes(b, c);
    lemma_add_commutes(b, d);
    lemma_add_order(c, d, b);
}

/// A number less what is not negative is no greater.
pub proof fn lemma_less(a: F64, b: F64)
    requires
        !a.is_nan(),
        zero() <= b,
        !(a - b).is_nan(),
    ensures
        a - b <= a,
{
    lemma_one();
    lemma_negate(zero());
    lemma_parts(zero());
    lemma_parts(zero().negate());
    lemma_parts(a);
    lemma_parts(a - zero());
    if a.is_finite() {
        lemma_add_zero(a, zero().negate());
    } else {
        reveal(F64::spec_add);
    }
    lemma_sub_order(zero(), b, a);
}

/// Positive numbers have a product.
pub proof fn lemma_positive_product(a: F64, b: F64)
    requires
        zero() < a,
        zero() < b,
    ensures
        !(a * b).is_nan(),
{
    lemma_one();
    lemma_parts(a);
    lemma_parts(b);
    if a.is_finite() && b.is_finite() {
        lemma_product(a, b);
    } else {
        reveal(F64::spec_mul);
        lemma_signed(false, INF_BITS as nat);
    }
}

pub proof fn lemma_mul_not_negative_or_nan(a: F64, b: F64)
    requires
        zero() <= a,
        zero() <= b,
    ensures
        !(a * b < zero()),
{
    if !(a * b).is_nan() {
        lemma_mul_not_negative(a, b);
    }
}

pub proof fn lemma_add_up(a: F64, b: F64)
    requires
        !(a < zero()),
        !(b < zero()),
    ensures
        !(a + b < zero()),
{
    lemma_one();
    lemma_numbers(a, b);
    if !(a + b).is_nan() {
        lemma_add_not_negative(a, b);
    }
}

/// The difference of a finite number and a lesser positive one is finite.
pub proof fn lemma_finite_difference(a: F64, b: F64)
    requires
        a.is_finite(),
        b.is_finite(),
        zero() <= a,
        zero() <= b,
    ensures
        (a - b).is_finite(),
{
    lemma_one();
    lemma_parts(a);
    lemma_parts(b);
    lemma_negate(b);
    lemma_sum(a, b.negate());
    lemma_less(a, b);
    lemma_parts(a - b);
    lemma_parts(zero());
    lemma_sum(zero(), b.negate());
    lemma_add_zero(b.negate(), zero());
    lemma_add_commutes(zero(), b.negate());
    lemma_add_order(zero(), a, b.negate());
}

/// Half of a positive finite number is finite and not negative.
pub proof fn lemma_halved(x: F64)
    requires
        zero() < x,
        x.is_finite(),
    ensures
        zero() <= x / whole(2),
        (x / whole(2)).is_finite(),
{
    lemma_one();
    lemma_whole(2);
    lemma_parts(x);
    lemma_parts(whole(2));
    lemma_parts(x / whole(2));
    lemma_pow2_pos(1074);
    lemma_quotient(x, whole(2));
    let v = mag(x.pattern()) as int;
    let scale = pow2(1074) as int;
    lemma_near(false, v * scale, 2 * scale);
    lemma_near_exact(v, 1, x.pattern());
    lemma_near(false, v, 1);
    assert((v * scale) * 1 <= v * (2 * scale)) by (nonlinear_arith)
        requires
            v >= 0,
            scale >= 0,
    ;
    assert(v * scale >= 0) by (nonlinear_arith)
        requires
            v >= 0,
            scale >= 0,
    ;
    lemma_near_order(false, v * scale, 2 * scale, false, v, 1);
}

/// The middle of two numbers lies between them, unless their sum overflows.
pub proof fn lemma_middle(low: F64, high: F64)
    requires
        zero() <= low,
        low <= high,
        high.is_finite(),
        (high + high).is_finite(),
    ensures
        low <= dec(5, 1) * (low + high),
        dec(5, 1) * (low + high) <= high,
        (dec(5, 1) * (low + high)).is_finite(),
{
    lemma_one();
    lemma_half();
    lemma_parts(low);
    lemma_parts(high);
    lemma_sum(low, low);
    lemma_sum(low, high);
    lemma_add_commutes(low, high);
    lemma_parts(high + high);
    lemma_add_order(low, high, low);
    lemma_add_order(low, high, high);
    lemma_add_not_negative(low, high);
    lemma_add_not_negative(low, low);
    lemma_parts(low + low);
    lemma_parts(low + high);
    lemma_half_of_double(high);
    lemma_half_of_double(low);
    let half = dec(5, 1);
    lemma_product(half, low + low);
    lemma_product(half, low + high);
    lemma_product(half, high + high);
    lemma_mul_commutes(half, low + low);
    lemma_mul_commutes(half, low + high);
    lemma_mul_commutes(half, high + high);
    lemma_mul_order(low + low, low + high, half);
    lemma_mul_order(low + high, high + high, half);
    lemma_parts(half * (low + low));
    lemma_parts(half * (low + high));
    lemma_parts(half * (high + high));
}

/// Two shares add up to a finite number, no more than two.
pub proof fn lemma_shares_add(a: F64, b: F64)
    requires
        zero() <= a,
        zero() <= b,
        a <= whole(1),
        b <= whole(1),
    ensures
        a.is_finite(),
        b.is_finite(),
        (a + b).is_finite(),
        0 <= (a + b).units() <= 2 * pow2(1074),
{
    lemma_one();
    lemma_whole(1);
    lemma_whole(2);
    lemma_parts(whole(1));
    lemma_parts(whole(2));
    lemma_parts(a);
    lemma_parts(b);
    if a.pattern() >= whole(1).pattern() + 1 {
        lemma_mag_increasing(whole(1).pattern(), a.pattern());
    }
    if b.pattern() >= whole(1).pattern() + 1 {
        lemma_mag_increasing(whole(1).pattern(), b.pattern());
    }
    lemma_sum(a, b);
    lemma_parts(a + b);
    let total = a.units() + b.units();
    let two = (2 * pow2(1074)) as int;
    lemma_near_order(false, total, 1, false, two, 1);
    lemma_near_exact(two, 1, whole(2).pattern());
    lemma_near(false, two, 1);
    lemma_near(false, total, 1);
    if (a + b).pattern() > whole(2).pattern() {
        lemma_mag_increasing(whole(2).pattern(), (a + b).pattern());
    }
}

/// The middle of two shares lies halfway between them, to within a few roundings.
pub proof fn lemma_middle_close(low: F64, high: F64)
    requires
        zero() <= low,
        low <= high,
        high <= whole(1),
    ensures
        ({
            let twice = 2 * (dec(5, 1) * (low + high)).units();
            let total = low.units() + high.units();
            total - 3 * pow2(1023) <= twice <= total + 3 * pow2(1023)
        }),
{
    lemma_one();
    lemma_half();
    lemma_whole(1);
    lemma_shares_add(low, high);
    lemma_sum(low, high);
    lemma_parts(low + high);
    let total = low.units() + high.units();
    let sum = low + high;
    let half = dec(5, 1);
    let one = pow2(1074) as int;
    let cell = pow2(1023) as int;
    lemma_pow2_pos(1023);
    lemma_pow2_adds(51, 1023);
    lemma2_to64_rest();
    assert(one == 2_251_799_813_685_248 * cell);
    assert(2 * one == HIDDEN * cell);
    lemma_near_within(total, 1, 1023);
    lemma_near(false, total, 1);
    lemma_product(half, sum);
    lemma_parts(half);
    let num = (mag(half.pattern()) * mag(sum.pattern())) as int;
    assert(2 * num == one * sum.units()) by (nonlinear_arith)
        requires
            num == mag(half.pattern()) * mag(sum.pattern()),
            2 * mag(half.pattern()) == one,
            mag(sum.pattern()) == sum.units(),
    ;
    assert(0 <= num <= HIDDEN * (cell * one)) by (nonlinear_arith)
        requires
            2 * num == one * sum.units(),
            0 <= sum.units() <= 2 * one,
            2 * one == HIDDEN * cell,
            one >= 0,
    ;
    lemma_near_within(num, one, 1023);
    lemma_near(half.negative() != sum.negative(), num, one);
    let mid = mag(rounded(ratio(num, one))) as int;
    assert(sum.units() - 2 * cell <= 2 * mid <= sum.units() + 2 * cell) by (nonlinear_arith)
        requires
            num - cell * one <= mid * one <= num + cell * one,
            2 * num == one * sum.units(),
            one > 0,
    ;
}

/// If twice a number is finite, so is twice a lesser one.
pub proof fn lemma_lesser_twice(low: F64, high: F64)
    requires
        zero() <= low,
        low <= high,
        (high + high).is_finite(),
        high.is_finite(),
    ensures
        (low + low).is_finite(),
{
    lemma_one();
    lemma_parts(low);
    lemma_parts(high);
    lemma_sum(low, low);
    lemma_sum(low, high);
    lemma_add_commutes(low, high);
    lemma_add_order(low, high, low);
    lemma_parts(high + high);
    lemma_parts(low + high);
    lemma_add_order(low, high, high);
    lemma_add_not_negative(low, low);
    lemma_parts(low + low);
}

/// A positive number times a factor of one or more is no less than the number.
pub proof fn lemma_at_least_itself(x: F64, factor: F64)
    requires
        zero() < x,
        whole(1) <= factor,
        factor.is_finite(),
    ensures
        x <= factor * x,
{
    lemma_one();
    lemma_parts(x);
    lemma_parts(factor);
    lemma_mul_one(x);
    lemma_positive_product(factor, x);
    lemma_mul_order(whole(1), factor, x);
}

/// Most of a positive number is positive.
pub proof fn lemma_nearly_all(x: F64)
    requires
        zero() < x,
    ensures
        !(zero() >= x * dec(95, 2)),
{
    lemma_one();
    lemma_parts(x);
    lemma_decimal(95, 2);
    reveal_with_fuel(pow, 3);
    let most = dec(95, 2);
    let unit = pow2(1074) as int;
    lemma_pow2_pos(1074);
    lemma_parts(most);
    lemma_near(false, 95 * unit, 100);
    // Three quarters are held exactly.
    let p = lemma_pattern_of(3, 1072);
    lemma_pow2_adds(2, 1072);
    lemma2_to64();
    let quarter = pow2(1072) as int;
    lemma_parts(whole(1));
    if p >= INF_BITS {
        if p > INF_BITS {
            lemma_mag_increasing(INF_BITS as nat, p);
        }
    }
    lemma_near_exact(3 * quarter, 1, p);
    lemma_near(false, 3 * quarter, 1);
    assert((3 * quarter) * 100 <= (95 * unit) * 1) by (nonlinear_arith)
        requires
            unit == 4 * quarter,
            quarter >= 0,
    ;
    lemma_near_order(false, 3 * quarter, 1, false, 95 * unit, 100);
    let w = mag(most.pattern()) as int;
    assert(w >= 3 * quarter);
    if x.is_finite() && most.is_finite() {
        lemma_product(x, most);
        let v = mag(x.pattern()) as int;
        assert(v * w >= 3 * quarter) by (nonlinear_arith)
            requires
                v >= 1,
                w >= 3 * quarter,
                quarter >= 0,
        ;
        lemma_near(false, v * w, unit);
        let gap = ratio(3, 4);
        lemma_ratio_decreasing(3, 4);
        lemma_rounded_nearest(gap);
        assert(mag(0) == 0 && mag(1) == 1 && mag(2) == 2);
        assert(nearest(gap, 1));
        lemma_near(false, 3, 4);
        assert(3 * unit <= (v * w) * 4);
        lemma_near_order(false, 3, 4, false, v * w, unit);
    } else {
        reveal(F64::spec_mul);
        reveal(F64::is_nan_spec);
        lemma_signed(false, INF_BITS as nat);
        lemma_parts(x * most);
        lemma_mag_increasing(0, INF_BITS as nat);
    }
}

/// What does not exceed a finite number is finite.
pub proof fn lemma_within(x: F64, bound: F64)
    requires
        zero() <= x,
        x <= bound,
        bound.is_finite(),
    ensures
        x.is_finite(),
{
    lemma_one();
    lemma_parts(x);
    lemma_parts(bound);
    if x.pattern() > bound.pattern() {
        lemma_mag_increasing(bound.pattern(), x.pattern());
    }
}

/// A sum of numbers without a sign has none.
pub proof fn lemma_sum_flag(a: F64, b: F64)
    requires
        !a.negative(),
        !b.negative(),
        !a.is_nan(),
        !b.is_nan(),
    ensures
        !(a + b).negative(),
        !(a + b).is_nan(),
{
    lemma_parts(a);
    lemma_parts(b);
    reveal(F64::spec_add);
    let total = a.units() + b.units();
    lemma_near(false, total, 1);
    lemma_signed(false, 0);
}

} // verus!
