//! The nozzle: the exit Mach number that its solver returns, and what its contour
//! recovers.
use crate::constants::nozzle_efficiency;
use crate::error::Fault;
use crate::float::accuracy::{
    lemma_times_order, lemma_times_strict, lemma_unit_value, lemma_value_negated, lemma_value_order, lemma_zero_value,
    times, value,
};
use crate::float::{big, dec, decimal, lemma_one, whole, zero, F64};
use crate::float::decimals::{lemma_decimal, lemma_decimal_at, lemma_decimal_between, lemma_half, lemma_whole};
use crate::float::errors::{allowance, lemma_allowance, lemma_difference_close, size};
use crate::float::exact::{lemma_add_zero, lemma_close_difference, lemma_mul_one, lemma_sum_exact};
use crate::float::magnitude::{lemma_mag_increasing, INF_BITS};
use crate::float::nearness::{lemma_near, lemma_near_at_most_double, lemma_parts, lemma_signed};
use crate::float::order::{
    lemma_add_commutes, lemma_add_not_negative, lemma_add_order, lemma_lesser_twice, lemma_middle, lemma_mul_commutes,
    lemma_mul_order, lemma_negate, lemma_numbers, lemma_product, lemma_share, lemma_share_finite, lemma_shares_add,
    lemma_sqrt_order,
};
use crate::float::range::{lemma_near_range, lemma_powers};
use crate::liquid::divergence_of;
use crate::nozzle::{
    area_ratio_from_mach, bracket, falls_short, halvings, newton, newton_step_spec, solved_mach, thrust_coefficient,
    NewtonStep, NozzleContour, NozzleExitState,
};
use crate::numerics::{cos, ln, powf, Numerics};
use crate::propellant::PropellantThermo;
use vstd::arithmetic::power2::{lemma2_to64, lemma2_to64_rest, lemma_pow2_adds, lemma_pow2_pos, pow2};
use vstd::arithmetic::power::pow;
use vstd::prelude::*;

verus! {

/// The sonic throat is exact, and every exit Mach number that is returned is at least
/// sonic. Where Newton's iteration converges, the logarithm of the area ratio at the
/// Mach number meets that of the expansion ratio to within 1e-13.
pub proof fn lemma_solved_mach<M: Numerics>(math: &M, gamma: F64, expansion_ratio: F64, mach: F64)
    requires
        solved_mach(math, gamma, expansion_ratio) == Ok::<F64, Fault>(mach),
    ensures
        whole(1) <= mach,
        expansion_ratio.same(whole(1)) ==> mach == whole(1),
        ({
            let target = ln(math, expansion_ratio);
            let start = (whole(2) + target).max(dec(15, 1));
            !expansion_ratio.same(whole(1)) && newton(math, gamma, target, start, 64) is Some ==> (ln(
                math,
                area_ratio_from_mach(math, gamma, mach),
            ) - target).abs() < dec(1, 13)
        }),
{
    lemma_one();
    if !expansion_ratio.same(whole(1)) {
        let target = ln(math, expansion_ratio);
        let start = (whole(2) + target).max(dec(15, 1));
        reveal_with_fuel(pow, 2);
        lemma_above_one();
        lemma_parts(whole(2) + target);
        lemma_newton(math, gamma, target, start, 64);
        if newton(math, gamma, target, start, 64) is None {
            lemma_two();
            lemma_bracket(math, gamma, target, whole(2), 20);
            let high = bracket(math, gamma, target, whole(2), 20)->0;
            lemma_halvings(math, gamma, target, high, 200);
            let span = halvings(math, gamma, target, (whole(1), high), 200);
            lemma_bounded_twice(span.1);
            lemma_middle(span.0, span.1);
        }
    }
}

proof fn lemma_newton<M: Numerics>(math: &M, gamma: F64, target: F64, mach: F64, tries: nat)
    requires
        whole(1) < mach,
    ensures
        match newton(math, gamma, target, mach, tries) {
            Some(solved) => whole(1) < solved && (ln(math, area_ratio_from_mach(math, gamma, solved)) - target).abs() < dec(
                1,
                13,
            ),
            None => true,
        },
    decreases tries,
{
    if tries > 0 {
        match newton_step_spec(math, gamma, target, mach) {
            NewtonStep::Next(next) => {
                lemma_one();
                lemma_parts(next);
                lemma_newton(math, gamma, target, next, (tries - 1) as nat);
            },
            _ => {},
        }
    }
}

/// A million, and what is below it.
proof fn lemma_million()
    ensures
        big(1, 6) == whole(1_000_000),
        big(1, 6).is_finite(),
        (big(1, 6) + big(1, 6)).is_finite(),
{
    lemma_one();
    reveal(decimal);
    reveal_with_fuel(pow, 7);
    assert(1 * pow(10, 6) == 1_000_000 * pow(10, 0));
    lemma_whole(1_000_000);
    lemma_whole(2_000_000);
    lemma_parts(whole(2_000_000));
    lemma_parts(whole(1_000_000));
    lemma_pow2_pos(1074);
    let unit = pow2(1074) as int;
    assert(1_000_000 * unit + 1_000_000 * unit == 2_000_000 * unit);
    assert(0 < 2_000_000 * unit);
    lemma_sum_exact(whole(1_000_000), whole(1_000_000), whole(2_000_000).pattern());
}

proof fn lemma_two()
    ensures
        whole(1) <= whole(2),
        whole(2) <= big(1, 6),
{
    lemma_million();
    lemma_whole(1);
    lemma_whole(2);
    lemma_whole(1_000_000);
    lemma_pow2_pos(1074);
}

proof fn lemma_bounded_twice(x: F64)
    requires
        whole(1) <= x,
        x <= big(1, 6),
    ensures
        x.is_finite(),
        (x + x).is_finite(),
{
    lemma_one();
    lemma_million();
    lemma_parts(x);
    lemma_parts(big(1, 6));
    lemma_lesser_twice(x, big(1, 6));
}

proof fn lemma_bracket<M: Numerics>(math: &M, gamma: F64, target: F64, high: F64, doublings: nat)
    requires
        whole(1) <= high,
        high <= big(1, 6),
    ensures
        match bracket(math, gamma, target, high, doublings) {
            Some(found) => whole(1) <= found && found <= big(1, 6),
            None => true,
        },
    decreases doublings,
{
    if falls_short(math, gamma, target, high) && doublings > 0 && !(high * whole(2) > big(1, 6)) {
        lemma_one();
        lemma_million();
        lemma_two();
        lemma_parts(high);
        lemma_parts(big(1, 6));
        lemma_whole(2);
        lemma_product(high, whole(2));
        lemma_mul_one(high);
        lemma_mul_commutes(high, whole(2));
        lemma_mul_order(whole(1), whole(2), high);
        lemma_bracket(math, gamma, target, high * whole(2), (doublings - 1) as nat);
    }
}

proof fn lemma_halvings<M: Numerics>(math: &M, gamma: F64, target: F64, high: F64, n: nat)
    requires
        whole(1) <= high,
        high <= big(1, 6),
    ensures
        ({
            let span = halvings(math, gamma, target, (whole(1), high), n);
            whole(1) <= span.0 && span.0 <= span.1 && span.1 <= big(1, 6)
        }),
    decreases n,
{
    lemma_one();
    if n > 0 {
        lemma_halvings(math, gamma, target, high, (n - 1) as nat);
        let span = halvings(math, gamma, target, (whole(1), high), (n - 1) as nat);
        lemma_bounded_twice(span.1);
        lemma_middle(span.0, span.1);
    }
}

/// Where Newton's iteration converges, the Mach number is supersonic, and on a host whose
/// logarithms tell areas apart at a thousandth of their slope, the area ratio at it is the
/// expansion ratio to within a billionth.
pub proof fn lemma_round_trip<M: Numerics>(math: &M, gamma: F64, expansion_ratio: F64, mach: F64)
    requires
        solved_mach(math, gamma, expansion_ratio) == Ok::<F64, Fault>(mach),
        !expansion_ratio.same(whole(1)),
        newton(math, gamma, ln(math, expansion_ratio), (whole(2) + ln(math, expansion_ratio)).max(dec(15, 1)), 64) is Some,
        ln(math, expansion_ratio).is_finite(),
        ln(math, area_ratio_from_mach(math, gamma, mach)).is_finite(),
        ({
            let area = area_ratio_from_mach(math, gamma, mach);
            let apart = size(value(ln(math, area)) - value(ln(math, expansion_ratio)));
            size(value(area) - value(expansion_ratio)) <= times((1000 as real) * value(expansion_ratio), apart)
        }),
    ensures
        whole(1) < mach,
        size(value(area_ratio_from_mach(math, gamma, mach)) - value(expansion_ratio)) <= times(
            value(expansion_ratio),
            value(dec(1, 9)),
        ),
{
    let target = ln(math, expansion_ratio);
    let start = (whole(2) + target).max(dec(15, 1));
    let area = area_ratio_from_mach(math, gamma, mach);
    let found = ln(math, area);
    let residual = found - target;
    lemma_one();
    lemma_above_one();
    lemma_newton(math, gamma, target, start, 64);
    lemma_parts(expansion_ratio);
    lemma_value_order(zero(), expansion_ratio);
    lemma_zero_value();
    lemma_parts(residual);
    lemma_parts(residual.abs());
    lemma_signed(false, residual.pattern());
    lemma_parts(dec(1, 13));
    lemma_small_decimals();
    if residual.pattern() >= INF_BITS {
        if residual.pattern() > INF_BITS {
            lemma_mag_increasing(INF_BITS as nat, residual.pattern());
        }
    }
    lemma_difference_close(found, target);
    let (v, l) = (value(residual), value(found) - value(target));
    lemma_value_order(residual.abs(), dec(1, 13));
    lemma_value_order(residual, residual);
    lemma_value_of_size(residual);
    lemma_allowance(2, 2);
    lemma_allowance(4, 0);
    lemma_times_order(allowance(2), (1 as real) / (2 as real), size(l));
    assert(times(size(l), (1 as real) / (2 as real)) == size(l) / (2 as real)) by {
        reveal(times);
    }
    let e = value(expansion_ratio);
    let tiny = value(dec(1, 13));
    assert(size(l) <= tiny + tiny);
    lemma_times_order(size(l), tiny + tiny, (1000 as real) * e);
    assert(times((1000 as real) * e, tiny + tiny) == times(e, (2000 as real) * tiny)) by {
        reveal(times);
        assert((1000 as real) * e * (tiny + tiny) == e * ((2000 as real) * tiny)) by (nonlinear_arith);
    }
    lemma_times_order((2000 as real) * tiny, value(dec(1, 9)), e);
}

/// The start of Newton's iteration lies above one.
proof fn lemma_above_one()
    ensures
        whole(1) < dec(15, 1),
{
    lemma_one();
    lemma_whole(1);
    lemma_decimal(15, 1);
    reveal_with_fuel(pow, 2);
    lemma_pow2_adds(52, 1022);
    lemma2_to64_rest();
    lemma_pow2_pos(1022);
    let small = pow2(1022) as int;
    assert(pow(10, 1) == 10);
    assert((2 * 6_755_399_441_055_744 - 1) * (small * 10) < 2 * 15 * pow2(1074) && 2 * 15 * pow2(1074) < (2
        * 6_755_399_441_055_744 + 1) * (small * 10)) by (nonlinear_arith)
        requires
            pow2(1074) == 4_503_599_627_370_496 * small,
            small > 0,
    ;
    lemma_decimal_at(15, 1, 6_755_399_441_055_744, 1022);
}

/// The value of a number's size.
proof fn lemma_value_of_size(x: F64)
    requires
        x.is_finite(),
    ensures
        value(x.abs()) == size(value(x)),
{
    lemma_parts(x);
    lemma_signed(false, x.pattern());
    lemma_parts(x.abs());
    lemma_value_order(x, x);
    if x.negative() {
        lemma_negate(x);
        lemma_value_negated(x);
        assert(x.abs() == x.negate());
    }
}

/// Two thousand times 1e-13 is less than 1e-9.
proof fn lemma_small_decimals()
    ensures
        (2000 as real) * value(dec(1, 13)) <= value(dec(1, 9)),
        dec(1, 13).is_finite(),
        value(dec(1, 13)) >= (0 as real),
{
    let unit = pow2(1074) as int;
    lemma_one();
    lemma_pow2_pos(1074);
    reveal_with_fuel(pow, 14);
    lemma_decimal(1, 13);
    lemma_decimal(1, 9);
    lemma_decimal_between(1, 13, 0, 1);
    lemma_decimal_between(1, 9, 0, 1);
    let (small, big) = (dec(1, 13).units(), dec(1, 9).units());
    lemma_near_at_most_double(unit, pow(10, 13));
    lemma_near(false, unit, pow(10, 13));
    lemma_near(false, unit, pow(10, 9));
    lemma_pow2_adds(30, 1044);
    lemma_pow2_pos(1044);
    lemma2_to64();
    let g = pow2(1044) as int;
    assert(unit == 1_073_741_824 * g);
    assert(pow(10, 9) == 1_000_000_000 && pow(10, 13) == 10_000_000_000_000);
    lemma_powers(1044, 1074);
    lemma_near_range(unit, pow(10, 9), 1044, 1074);
    assert(2000 * small <= big) by (nonlinear_arith)
        requires
            small * 10_000_000_000_000 <= 2 * unit,
            unit == 1_073_741_824 * g,
            big >= g,
            g > 0,
    ;
    lemma_unit_value(dec(1, 13));
    lemma_unit_value(dec(1, 9));
    lemma_value_order(dec(1, 13), dec(1, 13));
    lemma_parts(dec(1, 13));
    let (v, w, p) = (value(dec(1, 13)), value(dec(1, 9)), unit as real);
    if (2000 as real) * v > w {
        lemma_times_strict(w, (2000 as real) * v, p);
        assert(times((2000 as real) * v, p) == (2000 as real) * times(v, p)) by {
            reveal(times);
            assert((2000 as real) * v * p == (2000 as real) * (v * p)) by (nonlinear_arith);
        }
    }
}

/// A bell recovers part of a cone's divergence loss and never more than all of it, on a
/// host whose cosine of the wall angle is a share.
pub proof fn lemma_bell_recovers<M: Numerics>(math: &M, wall_angle_rad: F64)
    requires
        zero() <= cos(math, wall_angle_rad),
        cos(math, wall_angle_rad) <= whole(1),
    ensures
        ({
            let cone = divergence_of(math, NozzleContour::Conical, wall_angle_rad);
            let bell = divergence_of(math, NozzleContour::Bell, wall_angle_rad);
            &&& dec(5, 1) <= cone
            &&& cone <= bell
            &&& bell <= whole(1)
        }),
{
    let c = cos(math, wall_angle_rad);
    let one = whole(1);
    let half = dec(5, 1);
    let cone = half * (one + c);
    lemma_one();
    lemma_half();
    lemma_whole(1);
    lemma_parts(one);
    lemma_parts(zero());
    lemma_shares_add(c, one);
    lemma_shares_add(one, one);
    lemma_parts(c);
    lemma_add_commutes(one, c);
    lemma_middle(c, one);
    lemma_parts(cone);
    // At least the half that a flat wall leaves.
    lemma_add_zero(one, zero());
    lemma_add_commutes(zero(), one);
    lemma_parts(one + zero());
    lemma_parts(c + one);
    lemma_add_order(zero(), c, one);
    lemma_parts(half);
    lemma_mul_one(half);
    lemma_mul_commutes(half, one);
    lemma_mul_commutes(half, one + c);
    lemma_parts(half * (one + c));
    lemma_mul_order(one, one + c, half);
    assert(half <= cone);
    lemma_close_difference(one, cone);
    let lost = one - cone;
    lemma_parts(lost);
    lemma_share_finite(lost, half);
    lemma_parts(lost * half);
    lemma_share(lost, half);
    lemma_add_not_negative(cone, lost * half);
    lemma_parts(cone + lost * half);
    lemma_add_commutes(cone, lost * half);
    lemma_add_commutes(cone, lost);
    lemma_add_order(lost * half, lost, cone);
}

/// With less divergence a nozzle pushes no less.
pub proof fn lemma_divergence_order<M: Numerics>(
    math: &M,
    thermo: &PropellantThermo,
    chamber_pa: F64,
    exit: &NozzleExitState,
    expansion_ratio: F64,
    ambient_pa: F64,
    low: F64,
    high: F64,
)
    requires
        zero() <= low,
        low <= high,
        high <= whole(1),
        !thrust_coefficient(math, thermo, chamber_pa, exit, expansion_ratio, ambient_pa, low).is_nan(),
        !thrust_coefficient(math, thermo, chamber_pa, exit, expansion_ratio, ambient_pa, high).is_nan(),
    ensures
        thrust_coefficient(math, thermo, chamber_pa, exit, expansion_ratio, ambient_pa, low) <= thrust_coefficient(
            math,
            thermo,
            chamber_pa,
            exit,
            expansion_ratio,
            ambient_pa,
            high,
        ),
{
    let gamma = thermo.gamma;
    let squared = (whole(2) * gamma * gamma / (gamma - whole(1))) * powf(
        math,
        whole(2) / (gamma + whole(1)),
        (gamma + whole(1)) / (gamma - whole(1)),
    ) * (whole(1) - powf(math, exit.exit_pressure_ratio, (gamma - whole(1)) / gamma));
    let pressure = (exit.exit_pressure_ratio * chamber_pa - ambient_pa) / chamber_pa * expansion_ratio;
    let efficiency = nozzle_efficiency();
    lemma_one();
    lemma_decimal(95, 2);
    lemma_numbers(low * efficiency * squared.sqrt(), pressure);
    lemma_numbers(high * efficiency * squared.sqrt(), pressure);
    lemma_numbers(low * efficiency, squared.sqrt());
    lemma_numbers(high * efficiency, squared.sqrt());
    lemma_mul_order(low, high, efficiency);
    lemma_root_not_negative(squared);
    lemma_mul_order(low * efficiency, high * efficiency, squared.sqrt());
    lemma_add_order(low * efficiency * squared.sqrt(), high * efficiency * squared.sqrt(), pressure);
}

/// A root that exists is not negative.
proof fn lemma_root_not_negative(x: F64)
    requires
        !x.sqrt().is_nan(),
    ensures
        zero() <= x.sqrt(),
{
    lemma_one();
    lemma_parts(x);
    lemma_parts(F64::nan_spec());
    reveal(F64::sqrt_spec);
    lemma_sqrt_order(x, x);
}

} // verus!
