//! How large the results of the binary64 operations are: bounds by powers of two, which
//! rounding never crosses.
use super::accuracy::{amount, normal};
use super::errors::precise;
use super::locating::ratio;
use super::magnitude::{lemma_mag_increasing, lemma_mag_scaled, lemma_mag_split, mag, HIDDEN, INF_BITS};
use super::nearness::{lemma_near, lemma_near_exact, lemma_parts, lemma_pattern_of, lemma_ratio_order};
use super::order::{lemma_negate, lemma_product, lemma_quotient, lemma_sum};
use super::{rounded, F64};
use vstd::arithmetic::power2::{
    lemma2_to64, lemma2_to64_rest, lemma_pow2_adds, lemma_pow2_pos, lemma_pow2_strictly_increases, pow2,
};
use vstd::prelude::*;

verus! {

/// A positive number from 2^`low` to 2^`high`.
pub open spec fn sized(x: F64, low: int, high: int) -> bool {
    &&& amount(x)
    &&& -1074 <= low <= high <= 1023
    &&& pow2((1074 + low) as nat) <= x.units() <= pow2((1074 + high) as nat)
}

/// Powers of two are ordered as their exponents.
pub proof fn lemma_powers(a: nat, b: nat)
    requires
        a <= b,
    ensures
        pow2(a) <= pow2(b),
        pow2(a) > 0,
{
    lemma_pow2_pos(a);
    if a < b {
        lemma_pow2_strictly_increases(a, b);
    }
}

/// Rounding stays between the powers of two that enclose a value.
pub proof fn lemma_near_range(num: int, den: int, a: nat, b: nat)
    requires
        den > 0,
        a <= b <= 2097,
        pow2(a) * den <= num <= pow2(b) * den,
    ensures
        pow2(a) <= mag(rounded(ratio(num, den))) <= pow2(b),
        pow2(b) < mag(INF_BITS as nat),
{
    lemma_mag_scaled(HIDDEN as nat, 2046);
    assert(HIDDEN + 2046 * HIDDEN == INF_BITS);
    lemma_pow2_adds(52, 2046);
    lemma2_to64_rest();
    lemma_pow2_strictly_increases(b, 2098);
    lemma_powers(a, b);
    let low = lemma_pattern_of(1, a);
    let high = lemma_pattern_of(1, b);
    if high > INF_BITS {
        lemma_mag_increasing(INF_BITS as nat, high);
    }
    if low > INF_BITS {
        lemma_mag_increasing(INF_BITS as nat, low);
    }
    lemma_near_exact(pow2(a) as int, 1, low);
    lemma_near_exact(pow2(b) as int, 1, high);
    lemma_ratio_order(pow2(a) as int, 1, num, den);
    lemma_ratio_order(num, den, pow2(b) as int, 1);
}

/// A number of size is positive, and normal if it is large enough.
pub proof fn lemma_sized(x: F64, low: int, high: int)
    requires
        sized(x, low, high),
    ensures
        x.units() > 0,
        !x.is_nan(),
        low >= -1022 ==> normal(x),
{
    lemma_pow2_pos((1074 + low) as nat);
    lemma_parts(x);
    if low >= -1022 {
        lemma_powers(52, (1074 + low) as nat);
        lemma2_to64_rest();
        lemma_mag_scaled(HIDDEN as nat, 0);
        lemma2_to64();
        if x.pattern() < HIDDEN {
            lemma_mag_increasing(x.pattern(), HIDDEN as nat);
        }
    }
}

/// Bounds may be widened.
pub proof fn lemma_sized_more(x: F64, low: int, high: int, lower: int, higher: int)
    requires
        sized(x, low, high),
        -1074 <= lower <= low,
        high <= higher <= 1023,
    ensures
        sized(x, lower, higher),
{
    lemma_powers((1074 + lower) as nat, (1074 + low) as nat);
    lemma_powers((1074 + high) as nat, (1074 + higher) as nat);
}

/// The size of a product.
pub proof fn lemma_sized_product(x: F64, y: F64, a: int, b: int, c: int, d: int)
    requires
        sized(x, a, b),
        sized(y, c, d),
        -1074 <= a + c,
        b + d <= 1023,
    ensures
        sized(x * y, a + c, b + d),
{
    lemma_product(x, y);
    lemma_parts(x);
    lemma_parts(y);
    let one = pow2(1074) as int;
    lemma_pow2_pos(1074);
    lemma_pow2_adds((1074 + a) as nat, (1074 + c) as nat);
    lemma_pow2_adds((1074 + a + c) as nat, 1074);
    lemma_pow2_adds((1074 + b) as nat, (1074 + d) as nat);
    lemma_pow2_adds((1074 + b + d) as nat, 1074);
    let (xa, xb, yc, yd) = (
        pow2((1074 + a) as nat) as int,
        pow2((1074 + b) as nat) as int,
        pow2((1074 + c) as nat) as int,
        pow2((1074 + d) as nat) as int,
    );
    lemma_pow2_pos((1074 + a) as nat);
    lemma_pow2_pos((1074 + c) as nat);
    let num = (mag(x.pattern()) * mag(y.pattern())) as int;
    let (u, v) = (x.units(), y.units());
    assert(xa * yc <= num <= xb * yd) by (nonlinear_arith)
        requires
            num == u * v,
            0 < xa <= u <= xb,
            0 < yc <= v <= yd,
    ;
    lemma_near_range(num, one, (1074 + a + c) as nat, (1074 + b + d) as nat);
    lemma_near(false, num, one);
    lemma_parts(x * y);
}

/// The size of a quotient.
pub proof fn lemma_sized_quotient(x: F64, y: F64, a: int, b: int, c: int, d: int)
    requires
        sized(x, a, b),
        sized(y, c, d),
        -1074 <= a - d,
        b - c <= 1023,
    ensures
        sized(x / y, a - d, b - c),
{
    lemma_sized(y, c, d);
    lemma_quotient(x, y);
    lemma_parts(x);
    lemma_parts(y);
    let one = pow2(1074) as int;
    let (xa, xb, yc, yd) = (
        pow2((1074 + a) as nat) as int,
        pow2((1074 + b) as nat) as int,
        pow2((1074 + c) as nat) as int,
        pow2((1074 + d) as nat) as int,
    );
    let (low, high) = (pow2((1074 + a - d) as nat) as int, pow2((1074 + b - c) as nat) as int);
    lemma_pow2_pos((1074 + a - d) as nat);
    lemma_pow2_pos((1074 + b - c) as nat);
    lemma_pow2_pos(1074);
    lemma_pow2_adds((1074 + a - d) as nat, (1074 + d) as nat);
    lemma_pow2_adds((1074 + a) as nat, 1074);
    lemma_pow2_adds((1074 + b - c) as nat, (1074 + c) as nat);
    lemma_pow2_adds((1074 + b) as nat, 1074);
    let (u, v) = (x.units(), y.units());
    let num = (mag(x.pattern()) * pow2(1074)) as int;
    assert(low * v <= num <= high * v) by (nonlinear_arith)
        requires
            num == u * one,
            low * yd == xa * one,
            high * yc == xb * one,
            xa <= u <= xb,
            yc <= v <= yd,
            low > 0,
            high > 0,
            one > 0,
    ;
    lemma_powers((1074 + a - d) as nat, (1074 + b - c) as nat);
    lemma_near_range(num, v, (1074 + a - d) as nat, (1074 + b - c) as nat);
    lemma_near(false, num, v);
    lemma_parts(x / y);
}

/// The size of a sum of a number of size and an amount.
pub proof fn lemma_sized_sum(x: F64, y: F64, low: int, high: int)
    requires
        sized(x, low, high),
        amount(y),
        y.units() <= pow2((1074 + high) as nat),
        high < 1023,
    ensures
        sized(x + y, low, high + 1),
        sized(y + x, low, high + 1),
{
    lemma_sum(x, y);
    lemma_sum(y, x);
    lemma_parts(x);
    lemma_parts(y);
    let total = x.units() + y.units();
    lemma_pow2_adds((1074 + high) as nat, 1);
    lemma2_to64();
    lemma_powers((1074 + low) as nat, (1074 + high + 1) as nat);
    lemma_near_range(total, 1, (1074 + low) as nat, (1074 + high + 1) as nat);
    lemma_near(false, total, 1);
    lemma_parts(x + y);
    lemma_parts(y + x);
}

/// Nothing, or a number of either sign from 2^`low` to 2^`high` in size.
pub open spec fn spans(x: F64, low: int, high: int) -> bool {
    &&& x.is_finite()
    &&& -1074 <= low <= high <= 1023
    &&& x.pattern() == 0 || pow2((1074 + low) as nat) <= mag(x.pattern()) <= pow2((1074 + high) as nat)
}

/// A number that spans is nothing or, if it is large enough, of full precision.
pub proof fn lemma_spans(x: F64, low: int, high: int)
    requires
        spans(x, low, high),
        low >= -1022,
    ensures
        x.units() == 0 || precise(x),
        amount(x) && x.units() != 0 ==> sized(x, low, high),
{
    lemma_parts(x);
    if x.pattern() != 0 {
        lemma_powers(52, (1074 + low) as nat);
        lemma2_to64_rest();
        lemma_mag_scaled(HIDDEN as nat, 0);
        lemma2_to64();
        if x.pattern() < HIDDEN {
            lemma_mag_increasing(x.pattern(), HIDDEN as nat);
        }
    }
}

/// A number of size spans as much.
pub proof fn lemma_sized_spans(x: F64, low: int, high: int)
    requires
        sized(x, low, high),
    ensures
        spans(x, low, high),
{
    lemma_parts(x);
}

/// Bounds may be widened.
pub proof fn lemma_spans_more(x: F64, low: int, high: int, lower: int, higher: int)
    requires
        spans(x, low, high),
        -1074 <= lower <= low,
        high <= higher <= 1023,
    ensures
        spans(x, lower, higher),
{
    lemma_powers((1074 + lower) as nat, (1074 + low) as nat);
    lemma_powers((1074 + high) as nat, (1074 + higher) as nat);
}

/// The span of a product.
pub proof fn lemma_spans_product(x: F64, y: F64, a: int, b: int, c: int, d: int)
    requires
        spans(x, a, b),
        spans(y, c, d),
        -1074 <= a + c,
        b + d <= 1023,
    ensures
        spans(x * y, a + c, b + d),
        (x * y).units() == 0 ==> x.units() == 0 || y.units() == 0,
{
    assert(mag(0) == 0);
    lemma_pow2_pos((1074 + a + c) as nat);
    lemma_product(x, y);
    lemma_parts(x);
    lemma_parts(y);
    let one = pow2(1074) as int;
    lemma_pow2_pos(1074);
    let num = (mag(x.pattern()) * mag(y.pattern())) as int;
    let negative = x.negative() != y.negative();
    lemma_near(negative, num, one);
    lemma_parts(x * y);
    if x.pattern() == 0 || y.pattern() == 0 {
        assert(num == 0) by (nonlinear_arith)
            requires
                num == mag(x.pattern()) * mag(y.pattern()),
                mag(x.pattern()) == 0 || mag(y.pattern()) == 0,
        ;
        lemma_near_exact(0, one, 0);
    } else {
        lemma_pow2_adds((1074 + a) as nat, (1074 + c) as nat);
        lemma_pow2_adds((1074 + a + c) as nat, 1074);
        lemma_pow2_adds((1074 + b) as nat, (1074 + d) as nat);
        lemma_pow2_adds((1074 + b + d) as nat, 1074);
        let (xa, xb, yc, yd) = (
            pow2((1074 + a) as nat) as int,
            pow2((1074 + b) as nat) as int,
            pow2((1074 + c) as nat) as int,
            pow2((1074 + d) as nat) as int,
        );
        lemma_pow2_pos((1074 + a) as nat);
        lemma_pow2_pos((1074 + c) as nat);
        let (u, v) = (mag(x.pattern()) as int, mag(y.pattern()) as int);
        assert(xa * yc <= num <= xb * yd) by (nonlinear_arith)
            requires
                num == u * v,
                0 < xa <= u <= xb,
                0 < yc <= v <= yd,
        ;
        lemma_near_range(num, one, (1074 + a + c) as nat, (1074 + b + d) as nat);
        lemma_not_infinite(x * y, (1074 + b + d) as nat);
    }
}

/// A number no larger than a power of two below the largest is finite.
proof fn lemma_not_infinite(x: F64, b: nat)
    requires
        mag(x.pattern()) <= pow2(b),
        pow2(b) < mag(INF_BITS as nat),
    ensures
        x.is_finite(),
{
    lemma_parts(x);
    if x.pattern() > INF_BITS {
        lemma_mag_increasing(INF_BITS as nat, x.pattern());
    }
}

/// The span of a quotient.
pub proof fn lemma_spans_quotient(x: F64, y: F64, a: int, b: int, c: int, d: int)
    requires
        spans(x, a, b),
        sized(y, c, d),
        -1074 <= a - d,
        b - c <= 1023,
    ensures
        spans(x / y, a - d, b - c),
        (x / y).units() == 0 ==> x.units() == 0,
{
    assert(mag(0) == 0);
    lemma_sized(y, c, d);
    lemma_quotient(x, y);
    lemma_parts(x);
    lemma_parts(y);
    let one = pow2(1074) as int;
    let v = y.units();
    let num = (mag(x.pattern()) * pow2(1074)) as int;
    lemma_near(x.negative() != y.negative(), num, v);
    lemma_parts(x / y);
    if x.pattern() == 0 {
        assert(num == 0) by (nonlinear_arith)
            requires
                num == mag(x.pattern()) * pow2(1074),
                mag(x.pattern()) == 0,
        ;
        lemma_near_exact(0, v, 0);
    } else {
        let (xa, xb, yc, yd) = (
            pow2((1074 + a) as nat) as int,
            pow2((1074 + b) as nat) as int,
            pow2((1074 + c) as nat) as int,
            pow2((1074 + d) as nat) as int,
        );
        let (low, high) = (pow2((1074 + a - d) as nat) as int, pow2((1074 + b - c) as nat) as int);
        lemma_pow2_pos((1074 + a - d) as nat);
        lemma_pow2_pos((1074 + b - c) as nat);
        lemma_pow2_pos(1074);
        lemma_pow2_adds((1074 + a - d) as nat, (1074 + d) as nat);
        lemma_pow2_adds((1074 + a) as nat, 1074);
        lemma_pow2_adds((1074 + b - c) as nat, (1074 + c) as nat);
        lemma_pow2_adds((1074 + b) as nat, 1074);
        let u = mag(x.pattern()) as int;
        assert(low * v <= num <= high * v) by (nonlinear_arith)
            requires
                num == u * one,
                low * yd == xa * one,
                high * yc == xb * one,
                xa <= u <= xb,
                yc <= v <= yd,
                low > 0,
                high > 0,
                one > 0,
        ;
        lemma_powers((1074 + a - d) as nat, (1074 + b - c) as nat);
        lemma_near_range(num, v, (1074 + a - d) as nat, (1074 + b - c) as nat);
        lemma_not_infinite(x / y, (1074 + b - c) as nat);
    }
}

/// A number of at least 2^`k` units of 2^52 is a multiple of 2^`k`.
proof fn lemma_grain(x: F64, k: nat) -> (n: int)
    requires
        x.pattern() == 0 || mag(x.pattern()) >= pow2(k + 52),
        !x.is_nan(),
    ensures
        x.units() == n * pow2(k),
{
    lemma_parts(x);
    let sign: int = if x.negative() {
        -1
    } else {
        1
    };
    if x.pattern() == 0 {
        assert(mag(0) == 0);
        0
    } else {
        let (t, j) = lemma_mag_split(x.pattern());
        if j < k {
            lemma_powers(j + 1, k);
            lemma_pow2_adds(j, 1);
            lemma_pow2_adds(k, 52);
            lemma2_to64();
            lemma2_to64_rest();
            lemma_pow2_pos(j);
            assert(false) by (nonlinear_arith)
                requires
                    t < 2 * HIDDEN,
                    t * pow2(j) >= pow2(k) * HIDDEN,
                    pow2(k) >= 2 * pow2(j),
                    pow2(j) > 0,
            ;
        }
        lemma_pow2_adds((j - k) as nat, k);
        let n = sign * (t * pow2((j - k) as nat));
        let all = t * pow2(j);
        assert(x.units() == sign * all) by (nonlinear_arith)
            requires
                sign == 1 && x.units() == all || sign == -1 && x.units() == -all,
        ;
        assert(x.units() == n * pow2(k)) by (nonlinear_arith)
            requires
                x.units() == sign * (t * pow2(j)),
                pow2(j) == pow2((j - k) as nat) * pow2(k),
                n == sign * (t * pow2((j - k) as nat)),
        ;
        n
    }
}

/// The span of a sum: what is left after cancellation is still a multiple of the least
/// digit of either number.
pub proof fn lemma_spans_sum(x: F64, y: F64, low: int, high: int)
    requires
        spans(x, low, high),
        spans(y, low, high),
        low >= -1022,
        high < 1023,
    ensures
        spans(x + y, low - 52, high + 1),
        spans(x - y, low - 52, high + 1),
        (x + y).units() == 0 ==> x.units() == -y.units(),
        (x - y).units() == 0 ==> x.units() == y.units(),
{
    lemma_negate(y);
    lemma_parts(y);
    lemma_parts(y.negate());
    lemma_spans_total(x, y, low, high);
    lemma_spans_total(x, y.negate(), low, high);
}

proof fn lemma_spans_total(x: F64, y: F64, low: int, high: int)
    requires
        spans(x, low, high),
        spans(y, low, high),
        low >= -1022,
        high < 1023,
    ensures
        spans(x + y, low - 52, high + 1),
        (x + y).units() == 0 ==> x.units() == -y.units(),
{
    lemma_parts(x);
    lemma_parts(y);
    lemma_sum(x, y);
    lemma_parts(x + y);
    let k = (1074 + low - 52) as nat;
    let m = lemma_grain(x, k);
    let n = lemma_grain(y, k);
    let g = pow2(k) as int;
    lemma_pow2_pos(k);
    let total = x.units() + y.units();
    let all = if total < 0 {
        -total
    } else {
        total
    };
    assert(total == (m + n) * g) by (nonlinear_arith)
        requires
            total == m * g + n * g,
    ;
    lemma_near(total < 0, all, 1);
    assert(mag(0) == 0);
    if total == 0 {
        lemma_near_exact(0, 1, 0);
    } else {
        assert(all >= g) by (nonlinear_arith)
            requires
                total == (m + n) * g,
                all == if total < 0 { -total } else { total },
                total != 0,
                g > 0,
        ;
        lemma_pow2_adds((1074 + high) as nat, 1);
        lemma2_to64();
        lemma_pow2_pos((1074 + high) as nat);
        lemma_powers(k, (1074 + high + 1) as nat);
        lemma_near_range(all, 1, k, (1074 + high + 1) as nat);
        lemma_not_infinite(x + y, (1074 + high + 1) as nat);
    }
}

} // verus!
