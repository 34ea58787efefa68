//! The doubles of particular decimals.
use super::{big, dec, decimal, lemma_one, whole, zero};
use super::exact::lemma_mul_one;
use super::locating::{lemma_ratio_decreasing, ratio};
use super::magnitude::{lemma_mag_increasing, lemma_mag_scaled, mag, HIDDEN, INF_BITS};
use super::nearness::{
    lemma_near, lemma_near_exact, lemma_near_order, lemma_parts, lemma_pattern_of, lemma_rounded_nearest,
    lemma_same_bits, lemma_signed, near,
};
use super::order::lemma_sum;
use super::rounding::nearest;
use vstd::arithmetic::power2::{
    lemma2_to64, lemma2_to64_rest, lemma_pow2_adds, lemma_pow2_pos, lemma_pow2_strictly_increases, lemma_pow2_unfold,
    pow2,
};
use vstd::arithmetic::power::{lemma_pow0, lemma_pow_increases, lemma_pow_positive, pow};
use vstd::prelude::*;

verus! {

/// A decimal with fraction digits is the double nearest to it.
pub proof fn lemma_decimal(m: u64, places: u32)
    ensures
        dec(m, places) == near(false, (m * pow2(1074)) as int, pow(10, places as nat)),
        pow(10, places as nat) > 0,
        !dec(m, places).is_nan(),
        zero() <= dec(m, places),
{
    reveal(decimal);
    lemma_one();
    lemma_pow_positive(10, places as nat);
    lemma_pow0(10);
    if places == 0 {
        assert(m * pow(10, 0) * pow2(1074) == m * pow2(1074)) by (nonlinear_arith)
            requires
                pow(10, 0) == 1,
        ;
    }
    lemma_near(false, (m * pow2(1074)) as int, pow(10, places as nat));
}

/// A whole number below 2^53 is held exactly.
pub proof fn lemma_whole(m: u64)
    requires
        m < 2 * HIDDEN,
    ensures
        whole(m).units() == m * pow2(1074),
        whole(m).is_finite(),
        !whole(m).is_nan(),
{
    reveal(decimal);
    lemma_pow0(10);
    assert(m * pow(10, 0) * pow2(1074) == m * pow2(1074)) by (nonlinear_arith)
        requires
            pow(10, 0) == 1,
    ;
    let p = lemma_pattern_of(m as nat, 1074);
    lemma_mag_scaled(HIDDEN as nat, 2046);
    assert(HIDDEN + 2046 * HIDDEN == INF_BITS);
    lemma_pow2_adds(53, 1074);
    lemma_pow2_strictly_increases(1127, 2046);
    lemma2_to64_rest();
    lemma_pow2_pos(1074);
    let (scale, top) = (pow2(1074) as int, pow2(2046) as int);
    assert(m * scale < HIDDEN * top) by (nonlinear_arith)
        requires
            m < 2 * HIDDEN,
            2 * HIDDEN * scale < top,
            scale > 0,
            HIDDEN >= 1,
            top >= 0,
    ;
    if p >= INF_BITS {
        if p > INF_BITS {
            lemma_mag_increasing(INF_BITS as nat, p);
        }
    }
    lemma_near_exact((m * pow2(1074)) as int, 1, p);
    lemma_near(false, (m * pow2(1074)) as int, 1);
    lemma_signed(false, p);
}

/// A decimal above zero is a double above zero.
pub proof fn lemma_positive_decimal(m: u64, places: u32)
    requires
        m >= 1,
        places <= 18,
    ensures
        zero() < dec(m, places),
{
    lemma_one();
    lemma_decimal(m, places);
    lemma_parts(dec(m, places));
    assert(mag(1) == 1);
    lemma_near_exact(1, 1, 1);
    lemma_near(false, 1, 1);
    lemma_pow2_adds(64, 1010);
    lemma2_to64();
    lemma_pow2_pos(1010);
    lemma_pow_increases(10, places as nat, 18);
    reveal_with_fuel(pow, 19);
    assert(1 * pow(10, places as nat) <= (m * pow2(1074)) * 1) by (nonlinear_arith)
        requires
            m >= 1,
            pow2(1074) == pow2(64) * pow2(1010),
            pow2(1010) >= 1,
            pow2(64) >= pow(10, places as nat),
    ;
    lemma_near_order(false, 1, 1, false, (m * pow2(1074)) as int, pow(10, places as nat));
}

/// A millionth of a millionth lies above zero.
pub proof fn lemma_small()
    ensures
        zero() < dec(1, 12),
        dec(1, 12).is_finite(),
{
    lemma_positive_decimal(1, 12);
    reveal_with_fuel(pow, 13);
    lemma_decimal_between(1, 12, 0, 1);
}

/// One half is held exactly.
pub proof fn lemma_half()
    ensures
        dec(5, 1).units() * 2 == pow2(1074),
        dec(5, 1).is_finite(),
        !dec(5, 1).negative(),
        zero() < dec(5, 1),
{
    lemma_one();
    lemma_decimal(5, 1);
    reveal_with_fuel(pow, 2);
    assert(pow(10, 1) == 10);
    lemma_pow2_unfold(1074);
    lemma_pow2_pos(1073);
    let unit = pow2(1073) as int;
    let p = lemma_pattern_of(1, 1073);
    assert(mag(p) == unit);
    lemma_parts(whole(1));
    if p >= INF_BITS {
        if p > INF_BITS {
            lemma_mag_increasing(INF_BITS as nat, p);
        }
    }
    lemma_near_exact(10 * unit, 10, p);
    lemma_near(false, 10 * unit, 10);
    assert(5 * pow2(1074) == 10 * unit);
    lemma_parts(dec(5, 1));
}

/// A few hundredths lie between zero and one half.
pub proof fn lemma_hundredths(m: u64)
    requires
        m <= 50,
    ensures
        zero() <= dec(m, 2),
        dec(m, 2) <= dec(5, 1),
        dec(m, 2).is_finite(),
{
    lemma_one();
    lemma_half();
    lemma_decimal(m, 2);
    lemma_decimal(5, 1);
    reveal_with_fuel(pow, 3);
    lemma_pow2_pos(1074);
    let unit = pow2(1074) as int;
    assert((m * unit) * 10 <= (5 * unit) * 100 && m * unit >= 0) by (nonlinear_arith)
        requires
            0 <= m <= 50,
            unit > 0,
    ;
    lemma_near(false, m * unit, 100);
    lemma_near_order(false, m * unit, 100, false, 5 * unit, 10);
    lemma_parts(dec(m, 2));
    lemma_parts(dec(5, 1));
}

/// A whole number with zeros behind it is not negative; a short one is held exactly.
pub proof fn lemma_big(m: u64, zeros: u32)
    ensures
        zero() <= big(m, zeros),
        forall|n: u64| n == m * pow(10, zeros as nat) ==> big(m, zeros) == #[trigger] whole(n),
{
    lemma_pow0(10);
    lemma_one();
    reveal(decimal);
    let v = m * pow(10, zeros as nat) * pow2(1074);
    lemma_near(false, v, 1);
}

/// A decimal between two whole numbers lies between their doubles.
pub proof fn lemma_decimal_between(m: u64, places: u32, low: u64, high: u64)
    requires
        low * pow(10, places as nat) <= m <= high * pow(10, places as nat),
        low < 2 * HIDDEN,
        high < 2 * HIDDEN,
    ensures
        whole(low) <= dec(m, places),
        dec(m, places) <= whole(high),
        dec(m, places).is_finite(),
        !dec(m, places).negative(),
{
    lemma_decimal(m, places);
    lemma_whole(low);
    lemma_whole(high);
    lemma_parts(whole(low));
    lemma_parts(whole(high));
    lemma_parts(dec(m, places));
    lemma_pow2_pos(1074);
    let unit = pow2(1074) as int;
    let tens = pow(10, places as nat);
    let (a, b) = (low * unit, high * unit);
    assert(a >= 0 && b >= 0 && m * unit >= 0) by (nonlinear_arith)
        requires
            a == low * unit,
            b == high * unit,
            low >= 0,
            high >= 0,
            m >= 0,
            unit > 0,
    ;
    lemma_near_exact(a, 1, whole(low).pattern());
    lemma_near_exact(b, 1, whole(high).pattern());
    lemma_near(false, a, 1);
    lemma_near(false, b, 1);
    lemma_near(false, m * unit, tens);
    assert(a * tens <= (m * unit) * 1 && (m * unit) * 1 <= b * tens) by (nonlinear_arith)
        requires
            a == low * unit,
            b == high * unit,
            low * tens <= m <= high * tens,
            unit > 0,
    ;
    lemma_near_order(false, a, 1, false, m * unit, tens);
    lemma_near_order(false, m * unit, tens, false, b, 1);
}

/// A decimal between the midpoints around `t` * 2^`j` units is that double.
pub proof fn lemma_decimal_at(m: u64, places: u32, t: nat, j: nat)
    requires
        HIDDEN < t < 2 * HIDDEN,
        j <= 1993,
        (2 * t - 1) * (pow2(j) * pow(10, places as nat)) < 2 * m * pow2(1074),
        2 * m * pow2(1074) < (2 * t + 1) * (pow2(j) * pow(10, places as nat)),
    ensures
        dec(m, places).units() == t * pow2(j),
        dec(m, places).is_finite(),
        !dec(m, places).negative(),
{
    lemma_decimal(m, places);
    let (num, den) = ((m * pow2(1074)) as int, pow(10, places as nat));
    let p = (t + j * HIDDEN) as nat;
    assert(p < INF_BITS) by (nonlinear_arith)
        requires
            p == t + j * HIDDEN,
            t < 2 * HIDDEN,
            j <= 1993,
            HIDDEN == 4_503_599_627_370_496,
            INF_BITS == 2047 * HIDDEN,
    ;
    lemma_mag_scaled(t, j);
    lemma_mag_scaled((t + 1) as nat, j);
    lemma_mag_scaled((t - 1) as nat, j);
    let scale = pow2(j) as int;
    let (below, above) = ((mag((p - 1) as nat) + mag(p)) as int, (mag(p) + mag(p + 1)) as int);
    assert(below == (2 * t - 1) * scale && above == (2 * t + 1) * scale) by (nonlinear_arith)
        requires
            below == (t - 1) * scale + t * scale,
            above == t * scale + (t + 1) * scale,
    ;
    assert(below * den < 2 * num && 2 * num < above * den) by (nonlinear_arith)
        requires
            num == m * pow2(1074),
            below == (2 * t - 1) * scale,
            above == (2 * t + 1) * scale,
            (2 * t - 1) * (scale * den) < 2 * m * pow2(1074),
            2 * m * pow2(1074) < (2 * t + 1) * (scale * den),
    ;
    assert(nearest(ratio(num, den), p));
    lemma_ratio_decreasing(num, den);
    lemma_rounded_nearest(ratio(num, den));
    lemma_near(false, num, den);
    lemma_signed(false, p);
}

/// The shares of the full-throttle temperature schedule make up one.
pub proof fn lemma_full_schedule()
    ensures
        dec(55, 2) + dec(45, 2) * whole(1) == whole(1),
{
    lemma_one();
    lemma_whole(1);
    lemma2_to64_rest();
    reveal_with_fuel(pow, 3);
    lemma_pow2_adds(53, 1021);
    lemma_pow2_adds(54, 1020);
    lemma_pow2_adds(1, 1020);
    lemma2_to64();
    lemma_pow2_pos(1020);
    lemma_pow2_pos(1021);
    let small = pow2(1020) as int;
    assert(pow(10, 2) == 100);
    assert(pow2(1021) * pow(10, 2) == 200 * small);
    assert(small * pow(10, 2) == 100 * small);
    assert(pow2(1074) == 18_014_398_509_481_984 * small);
    assert((2 * 4_953_959_590_107_546 - 1) * (200 * small) < 2 * 55 * pow2(1074) && 2 * 55 * pow2(1074) < (2 * 4_953_959_590_107_546 + 1) * (200
        * small)) by (nonlinear_arith)
        requires
            pow2(1074) == 18_014_398_509_481_984 * small,
            small > 0,
    ;
    assert((2 * 8_106_479_329_266_893 - 1) * (100 * small) < 2 * 45 * pow2(1074) && 2 * 45 * pow2(1074) < (2 * 8_106_479_329_266_893 + 1) * (100
        * small)) by (nonlinear_arith)
        requires
            pow2(1074) == 18_014_398_509_481_984 * small,
            small > 0,
    ;
    lemma_decimal_at(55, 2, 4_953_959_590_107_546, 1021);
    lemma_decimal_at(45, 2, 8_106_479_329_266_893, 1020);
    lemma_decimal(45, 2);
    lemma_mul_one(dec(45, 2));
    lemma_sum(dec(55, 2), dec(45, 2));
    let total = dec(55, 2).units() + dec(45, 2).units();
    assert(total == 18_014_398_509_481_985 * small);
    let p = (HIDDEN + 1022 * HIDDEN) as nat;
    lemma_mag_scaled(HIDDEN as nat, 1022);
    lemma_mag_scaled((HIDDEN + 1) as nat, 1022);
    lemma_mag_scaled((2 * HIDDEN - 1) as nat, 1021);
    lemma_pow2_adds(2, 1020);
    assert(mag(p) == 18_014_398_509_481_984 * small);
    assert(mag(p + 1) == 18_014_398_509_481_988 * small);
    assert((p - 1) as nat == ((2 * HIDDEN - 1) as nat + 1021 * HIDDEN) as nat);
    assert((2 * HIDDEN - 1) * pow2(1021) == 18_014_398_509_481_982 * small) by (nonlinear_arith)
        requires
            pow2(1021) == 2 * small,
            HIDDEN == 4_503_599_627_370_496,
    ;
    assert(mag((p - 1) as nat) == 18_014_398_509_481_982 * small);
    assert(nearest(ratio(total, 1), p));
    lemma_ratio_decreasing(total, 1);
    lemma_rounded_nearest(ratio(total, 1));
    lemma_near(false, total, 1);
    lemma_parts(dec(55, 2) + dec(45, 2));
    lemma_pow2_adds(52, 1022);
    lemma_same_bits(dec(55, 2) + dec(45, 2), whole(1));
}

} // verus!
