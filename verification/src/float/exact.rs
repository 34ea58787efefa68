//! Where binary64 arithmetic loses nothing.
use super::{dec, lemma_one, signed, whole, zero, F64};
use super::decimals::{lemma_half, lemma_whole};
use super::magnitude::{lemma_mag_increasing, lemma_mag_split, mag, HIDDEN, INF_BITS};
use super::nearness::{
    lemma_mag_double, lemma_near, lemma_near_double, lemma_near_exact, lemma_near_order, lemma_near_scaled,
    lemma_parts, lemma_pattern_of, lemma_same_bits, lemma_signed, lemma_split_order, near,
};
use super::order::{
    lemma_mul_commutes, lemma_mul_sign, lemma_negate, lemma_numbers, lemma_product,
    lemma_quotient, lemma_sum,
};
use vstd::arithmetic::power2::{lemma_pow2_adds, lemma_pow2_pos, lemma_pow2_unfold, pow2};
use vstd::prelude::*;

verus! {

/// One changes no number.
pub proof fn lemma_mul_one(x: F64)
    requires
        !x.is_nan(),
    ensures
        x * whole(1) == x,
        whole(1) * x == x,
{
    lemma_one();
    lemma_parts(x);
    lemma_parts(whole(1));
    lemma_mul_commutes(x, whole(1));
    if x.is_finite() {
        lemma_product(x, whole(1));
        lemma_pow2_pos(1074);
        lemma_near_exact((mag(x.pattern()) * pow2(1074)) as int, pow2(1074) as int, x.pattern());
    } else {
        reveal(F64::spec_mul);
    }
}

/// A finite number but zero divided by itself is one.
pub proof fn lemma_div_self(x: F64)
    requires
        x.is_finite(),
        x.units() != 0,
    ensures
        x / x == whole(1),
{
    lemma_one();
    lemma_parts(x);
    lemma_parts(whole(1));
    lemma_quotient(x, x);
    let v = mag(x.pattern()) as int;
    let scale = pow2(1074) as int;
    assert(v * scale == scale * v) by (nonlinear_arith);
    lemma_near_exact(v * scale, v, whole(1).pattern());
}

/// A sum that a double can hold is exact.
pub proof fn lemma_sum_exact(a: F64, b: F64, p: nat)
    requires
        a.is_finite(),
        b.is_finite(),
        p < INF_BITS,
        a.units() + b.units() == mag(p) || a.units() + b.units() == -(mag(p) as int),
    ensures
        (a + b).units() == a.units() + b.units(),
        (a + b).is_finite(),
{
    lemma_sum(a, b);
    lemma_parts(a);
    lemma_parts(b);
    lemma_parts(a + b);
    let total = a.units() + b.units();
    let size = if total < 0 { -total } else { total };
    assert(size == mag(p));
    lemma_near(total < 0, size, 1);
    lemma_near_exact(size, 1, p);
    reveal(F64::is_finite_spec);
    lemma_mag_increasing(p, INF_BITS as nat);
}

/// Adding nothing changes nothing.
pub proof fn lemma_add_zero(x: F64, nothing: F64)
    requires
        x.is_finite(),
        nothing.is_finite(),
        nothing.units() == 0,
    ensures
        (x + nothing).units() == x.units(),
        (x + nothing).is_finite(),
        x.units() != 0 ==> x + nothing == x,
{
    lemma_parts(x);
    lemma_parts(x + nothing);
    lemma_sum_exact(x, nothing, x.pattern());
    if x.units() != 0 {
        lemma_same_bits(x + nothing, x);
    }
}

/// A finite number less itself is positive zero.
pub proof fn lemma_sub_self(x: F64)
    requires
        x.is_finite(),
    ensures
        x - x == zero(),
{
    lemma_negate(x);
    lemma_parts(x);
    lemma_parts(x.negate());
    reveal(F64::spec_add);
}

/// The difference of two positive numbers within a factor of two is exact.
pub proof fn lemma_close_difference(x: F64, y: F64)
    requires
        x.is_finite(),
        y.is_finite(),
        0 < x.units() <= 2 * y.units(),
        0 < y.units() <= 2 * x.units(),
    ensures
        (x - y).units() == x.units() - y.units(),
        (x - y).is_finite(),
        y + (x - y) == x,
{
    lemma_parts(x);
    lemma_parts(y);
    lemma_negate(y);
    let (low, high) = if x.units() <= y.units() { (x, y) } else { (y, x) };
    let (t, j) = lemma_mag_split(low.pattern());
    let (s, k) = lemma_mag_split(high.pattern());
    if low.pattern() > high.pattern() {
        lemma_mag_increasing(high.pattern(), low.pattern());
    }
    let pj = pow2(j) as int;
    lemma_pow2_pos(j);
    lemma_split_order(low.pattern(), t, j, high.pattern(), s, k);
    lemma_pow2_adds((k - j) as nat, j);
    let step = pow2((k - j) as nat) as int;
    let wide = s * step;
    let apart = high.units() - low.units();
    assert(high.units() == wide * pj) by (nonlinear_arith)
        requires
            high.units() == s * pow2(k),
            pow2(k) == step * pj,
            wide == s * step,
    ;
    assert(apart == (wide - t) * pj) by (nonlinear_arith)
        requires
            apart == wide * pj - t * pj,
    ;
    assert(0 <= wide - t <= t) by (nonlinear_arith)
        requires
            apart == (wide - t) * pj,
            0 <= apart <= t * pj,
            pj > 0,
    ;
    let p = lemma_pattern_of((wide - t) as nat, j);
    if p >= INF_BITS {
        if p > INF_BITS {
            lemma_mag_increasing(INF_BITS as nat, p);
        }
    }
    lemma_sum_exact(x, y.negate(), p);
    lemma_parts(x - y);
    lemma_sum_exact(y, x - y, x.pattern());
    lemma_parts(y + (x - y));
    lemma_same_bits(y + (x - y), x);
}

/// Nothing times a decimal is nothing.
pub proof fn lemma_nothing(a: F64, nothing: F64)
    requires
        nothing.same(zero()),
    ensures
        (a * nothing).is_nan() || (a * nothing).units() == 0,
{
    lemma_one();
    lemma_parts(a);
    lemma_parts(nothing);
    lemma_parts(zero());
    lemma_numbers(a, nothing);
    if a.is_finite() {
        lemma_product(a, nothing);
        let size = mag(a.pattern()) as int;
        assert(size * 0 == 0 && 0 * pow2(1074) == 0) by (nonlinear_arith);
        assert(mag(0) == 0);
        lemma_pow2_pos(1074);
        lemma_near_exact(0, pow2(1074) as int, 0);
        lemma_near(a.negative() != nothing.negative(), 0, pow2(1074) as int);
    } else {
        reveal(F64::spec_mul);
        reveal(F64::is_nan_spec);
    }
}

/// Turning the sign of a factor turns the sign of the product, and turning both
/// changes nothing.
pub proof fn lemma_mul_negated(a: F64, b: F64)
    ensures
        a.negate() * b.negate() == a * b,
        !(a * b).is_nan() ==> a.negate() * b == (a * b).negate(),
{
    lemma_negate(a);
    lemma_negate(b);
    lemma_numbers(a, b);
    lemma_parts(a);
    lemma_parts(b);
    lemma_pow2_pos(1074);
    reveal(F64::spec_mul);
    let num = (mag(a.pattern()) * mag(b.pattern())) as int;
    lemma_near(a.negative() != b.negative(), num, pow2(1074) as int);
    lemma_near(a.negative() == b.negative(), num, pow2(1074) as int);
    lemma_signed(true, INF_BITS as nat);
    lemma_signed(false, INF_BITS as nat);
    if !(a * b).is_nan() {
        lemma_mul_sign(a, b);
        let negative = a.negative() != b.negative();
        if a.is_finite() && b.is_finite() {
            assert(a * b == near(negative, num, pow2(1074) as int));
            assert(a.negate() * b == near(!negative, num, pow2(1074) as int));
        } else {
            reveal(F64::is_nan_spec);
            assert(a * b == signed(negative, INF_BITS as nat));
            assert(a.negate() * b == signed(!negative, INF_BITS as nat));
        }
    }
}

/// `y` has the value of `x`, or its opposite.
pub open spec fn mirrors(x: F64, y: F64, turned: bool) -> bool {
    y.units() == if turned {
        -x.units()
    } else {
        x.units()
    }
}

/// What mirrors a finite number is finite.
pub proof fn lemma_mirror_finite(x: F64, y: F64, turned: bool)
    requires
        mirrors(x, y, turned),
        x.is_finite(),
        !y.is_nan(),
    ensures
        y.is_finite(),
{
    lemma_parts(x);
    lemma_parts(y);
}

/// The sum of what mirrors two numbers mirrors their sum.
pub proof fn lemma_sum_mirrors(a: F64, b: F64, c: F64, d: F64, turned: bool)
    requires
        a.is_finite(),
        b.is_finite(),
        c.is_finite(),
        d.is_finite(),
        mirrors(a, c, turned),
        mirrors(b, d, turned),
    ensures
        mirrors(a + b, c + d, turned),
        !(a + b).is_nan(),
        !(c + d).is_nan(),
{
    lemma_sum(a, b);
    lemma_sum(c, d);
    let total = a.units() + b.units();
    let size = if total < 0 {
        -total
    } else {
        total
    };
    lemma_near(true, size, 1);
    lemma_near(false, size, 1);
    if total == 0 {
        assert(mag(0) == 0);
        lemma_near_exact(0, 1, 0);
    }
}

/// The product of what mirrors two numbers mirrors their product.
pub proof fn lemma_product_mirrors(a: F64, b: F64, c: F64, d: F64, first: bool, second: bool)
    requires
        a.is_finite(),
        b.is_finite(),
        c.is_finite(),
        d.is_finite(),
        mirrors(a, c, first),
        mirrors(b, d, second),
    ensures
        mirrors(a * b, c * d, first != second),
        !(a * b).is_nan(),
        !(c * d).is_nan(),
{
    lemma_product(a, b);
    lemma_product(c, d);
    lemma_pow2_pos(1074);
    let den = pow2(1074) as int;
    let num = (mag(a.pattern()) * mag(b.pattern())) as int;
    let other = (mag(c.pattern()) * mag(d.pattern())) as int;
    let (u, v) = (a.units(), b.units());
    assert(c.units() * d.units() == if first != second { -(u * v) } else { u * v }) by (nonlinear_arith)
        requires
            c.units() == if first { -u } else { u },
            d.units() == if second { -v } else { v },
    ;
    assert(num == other);
    lemma_near(true, num, den);
    lemma_near(false, num, den);
    if num == 0 {
        assert(mag(0) == 0);
        lemma_near_exact(0, den, 0);
    }
}

/// A number that doubling neither rounds nor overflows, well above the least ones.
pub open spec fn roomy(x: F64) -> bool {
    HIDDEN < x.pattern() < INF_BITS - HIDDEN
}

/// Twice a number: the exponent raised by one.
pub open spec fn double(x: F64) -> F64 {
    signed(x.negative(), (x.pattern() + HIDDEN) as nat)
}

/// Doubling is multiplication by two.
pub proof fn lemma_double(x: F64)
    requires
        roomy(x),
    ensures
        whole(2) * x == double(x),
        double(x).units() == 2 * x.units(),
        double(x).is_finite(),
        x.is_finite(),
        double(x).pattern() == x.pattern() + HIDDEN,
        double(x).negative() == x.negative(),
{
    lemma_parts(x);
    lemma_mag_double(x.pattern());
    lemma_signed(x.negative(), (x.pattern() + HIDDEN) as nat);
    lemma_whole(2);
    lemma_parts(whole(2));
    lemma_pow2_pos(1074);
    lemma_product(whole(2), x);
    let v = mag(x.pattern()) as int;
    let scale = pow2(1074) as int;
    assert((2 * scale) * v == (2 * v) * scale) by (nonlinear_arith);
    lemma_near_exact((2 * v) * scale, scale, (x.pattern() + HIDDEN) as nat);
}

/// Doubling a factor doubles the product.
pub proof fn lemma_mul_double(a: F64, b: F64)
    requires
        a.is_finite(),
        roomy(b),
        roomy(a * b),
    ensures
        a * double(b) == double(a * b),
        double(b) * a == double(b * a),
{
    lemma_parts(a);
    lemma_parts(b);
    lemma_double(b);
    lemma_parts(double(b));
    lemma_product(a, b);
    lemma_product(a, double(b));
    lemma_pow2_pos(1074);
    let (u, v) = (mag(a.pattern()) as int, mag(b.pattern()) as int);
    let scale = pow2(1074) as int;
    lemma_near(a.negative() != b.negative(), u * v, scale);
    lemma_mag_double(b.pattern());
    assert(u * (2 * v) == 2 * (u * v)) by (nonlinear_arith);
    lemma_near_double(u * v, scale);
    lemma_mul_commutes(a, b);
    lemma_mul_commutes(a, double(b));
}

/// Doubling a dividend doubles the quotient; doubling both ends of a fraction changes
/// nothing.
pub proof fn lemma_div_double(a: F64, b: F64)
    requires
        roomy(a),
        b.is_finite(),
        b.units() != 0,
    ensures
        roomy(a / b) ==> double(a) / b == double(a / b),
        roomy(b) ==> double(a) / double(b) == a / b,
{
    lemma_parts(a);
    lemma_parts(b);
    lemma_double(a);
    lemma_parts(double(a));
    lemma_quotient(a, b);
    lemma_quotient(double(a), b);
    lemma_mag_double(a.pattern());
    let (u, v) = (mag(a.pattern()) as int, mag(b.pattern()) as int);
    let scale = pow2(1074) as int;
    lemma_pow2_pos(1074);
    assert((2 * u) * scale == 2 * (u * scale)) by (nonlinear_arith);
    lemma_near(a.negative() != b.negative(), u * scale, v);
    if roomy(a / b) {
        lemma_near_double(u * scale, v);
    }
    if roomy(b) {
        lemma_double(b);
        lemma_parts(double(b));
        lemma_mag_double(b.pattern());
        lemma_quotient(double(a), double(b));
        lemma_near_scaled(u * scale, v);
    }
}

/// Twice a finite number is held exactly unless it overflows.
pub proof fn lemma_twice(x: F64)
    requires
        x.is_finite(),
        zero() <= x,
        (whole(2) * x).is_finite(),
    ensures
        (whole(2) * x).units() == 2 * x.units(),
{
    lemma_one();
    lemma_whole(2);
    lemma_parts(x);
    lemma_parts(whole(2));
    lemma_parts(whole(2) * x);
    lemma_product(whole(2), x);
    lemma_pow2_pos(1074);
    let (t, j) = lemma_mag_split(x.pattern());
    let p = lemma_pattern_of(t, (j + 1) as nat);
    lemma_pow2_unfold((j + 1) as nat);
    let v = mag(x.pattern()) as int;
    let scale = pow2(1074) as int;
    let half = pow2(j) as int;
    assert(t * (2 * half) == 2 * (t * half)) by (nonlinear_arith);
    assert(mag(p) == 2 * v);
    assert((2 * scale) * v == (2 * v) * scale) by (nonlinear_arith);
    if p <= INF_BITS {
        lemma_near_exact((2 * v) * scale, scale, p);
        lemma_near(whole(2).negative() != x.negative(), (2 * v) * scale, scale);
    } else {
        let top = INF_BITS as nat;
        lemma_mag_increasing(top, p);
        lemma_near_exact(mag(top) * scale, scale, top);
        assert((mag(top) * scale) * scale <= ((2 * v) * scale) * scale) by (nonlinear_arith)
            requires
                mag(top) <= 2 * v,
                scale > 0,
        ;
        assert(mag(top) * scale >= 0 && (2 * v) * scale >= 0) by (nonlinear_arith)
            requires
                mag(top) >= 0,
                v >= 0,
                scale > 0,
        ;
        lemma_near_order(false, mag(top) * scale, scale, false, (2 * v) * scale, scale);
        lemma_near(false, mag(top) * scale, scale);
        lemma_near(false, (2 * v) * scale, scale);
        lemma_near(whole(2).negative() != x.negative(), (2 * v) * scale, scale);
    }
}

/// Half of twice a number is that number, unless twice it overflows.
pub proof fn lemma_half_of_double(x: F64)
    requires
        x.is_finite(),
        zero() <= x,
        (x + x).is_finite(),
    ensures
        (dec(5, 1) * (x + x)).units() == x.units(),
        (dec(5, 1) * (x + x)).is_finite(),
{
    lemma_one();
    lemma_half();
    lemma_parts(x);
    lemma_parts(x + x);
    lemma_sum(x, x);
    let (t, j) = lemma_mag_split(x.pattern());
    let p = lemma_pattern_of(t, (j + 1) as nat);
    lemma_pow2_unfold((j + 1) as nat);
    let pj = pow2(j) as int;
    assert(t * (2 * pj) == 2 * (t * pj)) by (nonlinear_arith);
    let v = mag(x.pattern()) as int;
    assert(mag(p) == 2 * v);
    lemma_near(false, 2 * v, 1);
    if p < INF_BITS {
        lemma_sum_exact(x, x, p);
    } else {
        let top = INF_BITS as nat;
        if p > INF_BITS {
            lemma_mag_increasing(top, p);
        }
        lemma_near_exact(mag(top) as int, 1, top);
        lemma_near(false, mag(top) as int, 1);
        lemma_near_order(false, mag(top) as int, 1, false, 2 * v, 1);
    }
    let half = dec(5, 1);
    lemma_parts(half);
    lemma_product(half, x + x);
    let h = mag(half.pattern()) as int;
    let scale = pow2(1074) as int;
    lemma_pow2_pos(1074);
    assert(mag((x + x).pattern()) == 2 * v);
    assert(h * (2 * v) == v * scale) by (nonlinear_arith)
        requires
            2 * h == scale,
    ;
    lemma_near_exact(v * scale, scale, x.pattern());
    lemma_near(half.negative() != (x + x).negative(), v * scale, scale);
    lemma_parts(half * (x + x));
}

/// Nothing times a finite number is a finite nothing.
pub proof fn lemma_vanishing(x: F64, nothing: F64)
    requires
        x.is_finite(),
        nothing.same(zero()),
    ensures
        (x * nothing).same(zero()),
        (x * nothing).is_finite(),
{
    lemma_one();
    lemma_parts(nothing);
    lemma_nothing(x, nothing);
    lemma_product(x, nothing);
    lemma_parts(x * nothing);
    lemma_mag_increasing(0, INF_BITS as nat);
}

/// Nothing over a positive number is nothing.
pub proof fn lemma_nothing_over(nothing: F64, d: F64)
    requires
        nothing.same(zero()),
        zero() < d,
    ensures
        (nothing / d).same(zero()),
        (nothing / d).is_finite(),
{
    lemma_one();
    lemma_parts(nothing);
    lemma_parts(d);
    lemma_parts(nothing / d);
    assert(mag(0) == 0 && 0 * pow2(1074) == 0);
    if d.is_finite() {
        lemma_quotient(nothing, d);
        lemma_near_exact(0, mag(d.pattern()) as int, 0);
        lemma_near(nothing.negative() != d.negative(), 0, mag(d.pattern()) as int);
    } else {
        reveal(F64::quotient);
        lemma_signed(nothing.negative() != d.negative(), 0);
    }
}

/// Nothing over anything is nothing or no number.
pub proof fn lemma_nothing_by(nothing: F64, d: F64)
    requires
        nothing.same(zero()),
    ensures
        (nothing / d).is_nan() || (nothing / d).units() == 0,
{
    lemma_one();
    lemma_parts(nothing);
    lemma_parts(d);
    lemma_parts(nothing / d);
    lemma_numbers(nothing, d);
    assert(mag(0) == 0 && 0 * pow2(1074) == 0);
    if d.is_finite() && d.units() != 0 {
        lemma_quotient(nothing, d);
        lemma_near_exact(0, mag(d.pattern()) as int, 0);
        lemma_near(nothing.negative() != d.negative(), 0, mag(d.pattern()) as int);
    } else {
        reveal(F64::quotient);
        reveal(F64::is_nan_spec);
        lemma_signed(nothing.negative() != d.negative(), 0);
    }
}

/// Doubling both terms doubles the sum.
pub proof fn lemma_add_double(a: F64, b: F64)
    requires
        roomy(a),
        roomy(b),
        roomy(a + b),
    ensures
        double(a) + double(b) == double(a + b),
{
    lemma_double(a);
    lemma_double(b);
    lemma_parts(a);
    lemma_parts(b);
    lemma_parts(double(a));
    lemma_parts(double(b));
    lemma_parts(a + b);
    reveal(F64::spec_add);
    let total = a.units() + b.units();
    let size = if total < 0 { -total } else { total };
    lemma_near(total < 0, size, 1);
    if total == 0 {
        lemma_signed(a.negative() && b.negative(), 0);
    }
    lemma_near_double(size, 1);
}

} // verus!
