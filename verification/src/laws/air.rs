//! Air-breathing engines: no air, no oxygen or no drive gives no thrust.
use crate::air::{
    air_cp_j_kg_k, air_gamma, combustor_efficiency, compressor_poly_efficiency, customer_bleed_fraction,
    intake_design_capture_mach, lagged, turbine_cooling_bleed, AirCycle, AirOperatingPoint, CompiledAirbreather,
    FlightCondition, IntakeKind,
};
use crate::cycle_core::{conditioning_invalid, cycle_combustion, cycle_compression, cycle_inlet, rotor_ratio, Inlet};
use crate::error::Fault;
use crate::float::{dec, lemma_one, whole, zero, F64};
use crate::float::decimals::{
    lemma_big, lemma_decimal, lemma_decimal_between, lemma_half, lemma_hundredths, lemma_whole,
};
use crate::float::exact::{
    lemma_add_zero, lemma_mul_one, lemma_nothing, lemma_nothing_by, lemma_nothing_over, lemma_sub_self,
    lemma_sum_exact, lemma_vanishing,
};
use crate::float::magnitude::mag;
use crate::float::nearness::{lemma_near, lemma_near_exact, lemma_near_order, lemma_parts, lemma_signed};
use crate::float::order::{
    lemma_add_not_negative, lemma_add_order, lemma_at_least_itself, lemma_div_order, lemma_finite_difference,
    lemma_less, lemma_mul_commutes, lemma_mul_not_negative, lemma_nearly_all, lemma_negate, lemma_numbers,
    lemma_product, lemma_quotient, lemma_share_finite, lemma_sub_order, lemma_sum,
};
use crate::numerics::{exp, powf, Numerics};
use crate::shaft::ShaftBalance;
use vstd::arithmetic::power2::{lemma_pow2_pos, pow2};
use vstd::arithmetic::power::pow;
use vstd::prelude::*;

verus! {

/// An engine that gives no thrust and burns nothing.
pub open spec fn dead(point: AirOperatingPoint) -> bool {
    &&& point.thrust_n == zero()
    &&& point.fuel_flow_kg_s == zero()
    &&& point.bulk_fuel_flow_kg_s == zero()
    &&& point.boost_fuel_flow_kg_s == zero()
    &&& !point.lit
}

/// What the intake of an engine captures at a spool speed, without a precooler.
pub open spec fn captured<M: Numerics>(
    engine: &CompiledAirbreather,
    math: &M,
    condition: &FlightCondition,
    throttle: F64,
    spool_n: F64,
    ignition: bool,
) -> Inlet {
    cycle_inlet(math, &engine.effective_spec(throttle), condition, &engine.drive(spool_n, ignition, zero(), None))
}

/// A vacuum with an ordinary speed of sound.
pub open spec fn airless(condition: &FlightCondition) -> bool {
    condition.ambient_pa.same(zero()) && (air_gamma() * whole(287) * condition.ambient_temp_k).sqrt().is_finite()
}

/// No airspeed, in air of an ordinary density.
pub open spec fn at_rest(engine: &CompiledAirbreather, condition: &FlightCondition) -> bool {
    condition.airspeed_mps.same(zero()) && (condition.ambient_pa / (whole(287) * condition.ambient_temp_k)
        * engine.intake_area_m2).is_finite()
}

/// A lit engine burns fuel; one that its turbine cannot drive is dead.
pub proof fn lemma_lit_burns<M: Numerics>(
    engine: &CompiledAirbreather,
    math: &M,
    condition: &FlightCondition,
    throttle: F64,
    point: AirOperatingPoint,
)
    requires
        engine.steady(math, condition, throttle) == Ok::<AirOperatingPoint, Fault>(point),
    ensures
        point.lit ==> zero() < point.fuel_flow_kg_s,
        point.drive_limited ==> dead(point),
        throttle.same(zero()) ==> dead(point),
{
    lemma_one();
}

/// An engine that captures no air is dead, whatever its spool speed.
pub proof fn lemma_no_air_no_thrust<M: Numerics>(
    engine: &CompiledAirbreather,
    math: &M,
    condition: &FlightCondition,
    throttle: F64,
    spool_n: F64,
    ignition: bool,
    result: (AirOperatingPoint, ShaftBalance),
)
    requires
        captured(engine, math, condition, throttle, spool_n, ignition).mdot_air_kg_s <= zero(),
        engine.at_spool(math, condition, throttle, spool_n, ignition, zero(), None) == Ok::<
            (AirOperatingPoint, ShaftBalance),
            Fault,
        >(result),
    ensures
        dead(result.0),
        result.0.air_limited,
        result.0.air_flow_kg_s == zero(),
{
}

/// In a vacuum the intake captures nothing.
pub proof fn lemma_vacuum_captures_nothing<M: Numerics>(
    engine: &CompiledAirbreather,
    math: &M,
    condition: &FlightCondition,
    throttle: F64,
    spool_n: F64,
    ignition: bool,
)
    requires
        condition.fault() is None,
        airless(condition),
        engine.intake_area_m2.is_finite(),
        zero() <= spool_n,
        spool_n <= whole(1),
    ensures
        captured(engine, math, condition, throttle, spool_n, ignition).mdot_air_kg_s <= zero(),
{
    lemma_one();
    let sound = (air_gamma() * whole(287) * condition.ambient_temp_k).sqrt();
    let density = condition.ambient_pa / (whole(287) * condition.ambient_temp_k);
    lemma_empty_density(condition);
    lemma_parts(density);
    let area = engine.intake_area_m2;
    lemma_nothing(area, density);
    lemma_mul_commutes(area, density);
    lemma_product(density, area);
    lemma_parts(density * area);
    let spool = spool_n.clamp_unit();
    let design = intake_design_capture_mach();
    lemma_half();
    lemma_one();
    lemma_share_finite(sound, design);
    lemma_mul_commutes(sound, design);
    lemma_share_finite(design * sound, spool);
    let suction = if engine.cycle.is_passive() { zero() } else { design * sound * spool };
    let speed = condition.airspeed_mps.max(suction);
    lemma_parts(condition.airspeed_mps);
    lemma_parts(suction);
    assert(speed.is_finite());
    lemma_nothing(speed, density * area);
    lemma_mul_commutes(speed, density * area);
    lemma_product(density * area, speed);
    lemma_parts(density * area * speed);
}

/// The density of a vacuum is zero.
proof fn lemma_empty_density(condition: &FlightCondition)
    requires
        condition.fault() is None,
        condition.ambient_pa.same(zero()),
    ensures
        (condition.ambient_pa / (whole(287) * condition.ambient_temp_k)).same(zero()),
        (condition.ambient_pa / (whole(287) * condition.ambient_temp_k)).is_finite(),
{
    lemma_one();
    lemma_whole(287);
    lemma_pow2_pos(1074);
    let p = condition.ambient_pa;
    let t = condition.ambient_temp_k;
    let d = whole(287) * t;
    lemma_parts(p);
    lemma_parts(t);
    lemma_parts(whole(287));
    lemma_at_least_itself(t, whole(287));
    lemma_parts(d);
    lemma_parts(p / d);
    assert(mag(0) == 0 && 0 * pow2(1074) == 0);
    if d.is_finite() {
        lemma_quotient(p, d);
        lemma_near_exact(0, mag(d.pattern()) as int, 0);
        lemma_near(p.negative() != d.negative(), 0, mag(d.pattern()) as int);
    } else {
        reveal(F64::quotient);
        lemma_signed(p.negative() != d.negative(), 0);
    }
}

/// A cycle without a compressor draws no air in at rest.
pub proof fn lemma_passive_at_rest<M: Numerics>(
    engine: &CompiledAirbreather,
    math: &M,
    condition: &FlightCondition,
    throttle: F64,
    spool_n: F64,
    ignition: bool,
)
    requires
        engine.cycle.is_passive(),
        at_rest(engine, condition),
    ensures
        captured(engine, math, condition, throttle, spool_n, ignition).mdot_air_kg_s <= zero(),
{
    lemma_one();
    let stream = condition.ambient_pa / (whole(287) * condition.ambient_temp_k) * engine.intake_area_m2;
    let speed = condition.airspeed_mps.max(zero());
    lemma_parts(condition.airspeed_mps);
    lemma_parts(speed);
    lemma_nothing(stream, speed);
    lemma_product(stream, speed);
    lemma_parts(stream * speed);
}

/// A passive cycle at rest, and any cycle in a vacuum, gives no thrust and burns
/// nothing at any throttle.
pub proof fn lemma_flames_out_without_air<M: Numerics>(
    engine: &CompiledAirbreather,
    math: &M,
    condition: &FlightCondition,
    throttle: F64,
    point: AirOperatingPoint,
)
    requires
        engine.steady(math, condition, throttle) == Ok::<AirOperatingPoint, Fault>(point),
        engine.intake_area_m2.is_finite(),
        airless(condition) || (engine.cycle.is_passive() && at_rest(engine, condition)),
    ensures
        dead(point),
{
    lemma_one();
    if !throttle.same(zero()) {
        let solved = if engine.cycle.has_shaft() {
            engine.steady_spool(math, condition, throttle)
        } else {
            Ok(whole(1))
        };
        let spool_n = solved->Ok_0;
        let tried = if spool_n > zero() { spool_n } else { whole(1) };
        let result = engine.at_spool(math, condition, throttle, tried, true, zero(), None)->Ok_0;
        if airless(condition) {
            lemma_vacuum_captures_nothing(engine, math, condition, throttle, tried, true);
        } else {
            lemma_passive_at_rest(engine, math, condition, throttle, tried, true);
        }
        lemma_no_air_no_thrust(engine, math, condition, throttle, tried, true, result);
    }
}

/// Without ignition, and in a scramjet at or below the speed of sound, an engine that
/// captures air burns nothing and gives no thrust.
pub proof fn lemma_unlit_is_dead<M: Numerics>(
    engine: &CompiledAirbreather,
    math: &M,
    condition: &FlightCondition,
    throttle: F64,
    spool_n: F64,
    ignition: bool,
    result: (AirOperatingPoint, ShaftBalance),
)
    requires
        !ignition || (engine.cycle == AirCycle::Scramjet && condition.mach <= whole(1)),
        zero() < captured(engine, math, condition, throttle, spool_n, ignition).mdot_core_kg_s,
        engine.at_spool(math, condition, throttle, spool_n, ignition, zero(), None) == Ok::<
            (AirOperatingPoint, ShaftBalance),
            Fault,
        >(result),
    ensures
        dead(result.0),
        engine.cycle == AirCycle::Scramjet && condition.mach <= whole(1) ==> result.0.scramjet_limited,
{
    lemma_one();
    lemma_nothing_burns();
}

/// Flows of nothing add up to nothing.
proof fn lemma_nothing_burns()
    ensures
        zero() + zero() + zero() <= zero(),
{
    lemma_one();
    lemma_parts(zero());
    lemma_add_zero(zero(), zero());
    lemma_parts(zero() + zero());
    lemma_add_zero(zero() + zero(), zero());
    lemma_parts(zero() + zero() + zero());
}

/// The share of core air that is left to the combustor lies between zero and one.
proof fn lemma_combustor_share(bleed: F64)
    requires
        bleed == zero() || bleed == turbine_cooling_bleed(),
    ensures
        zero() <= whole(1) - bleed - customer_bleed_fraction(),
        whole(1) - bleed - customer_bleed_fraction() <= whole(1),
{
    lemma_one();
    lemma_half();
    lemma_hundredths(10);
    lemma_hundredths(3);
    let half = dec(5, 1);
    let taken = customer_bleed_fraction();
    lemma_parts(half);
    lemma_parts(bleed);
    lemma_parts(whole(1));
    lemma_parts(zero());
    lemma_negate(half);
    lemma_negate(bleed);
    lemma_negate(taken);
    lemma_sum_exact(whole(1), half.negate(), half.pattern());
    lemma_parts(whole(1) - half);
    lemma_finite_difference(whole(1), bleed);
    lemma_parts(whole(1) - bleed);
    lemma_sub_order(bleed, half, whole(1));
    lemma_less(whole(1), bleed);
    assert(half <= whole(1) - bleed);
    lemma_finite_difference(whole(1) - bleed, taken);
    lemma_parts(whole(1) - bleed - taken);
    lemma_finite_difference(half, taken);
    lemma_parts(half - taken);
    lemma_add_order(half, whole(1) - bleed, taken.negate());
    lemma_sub_self(half);
    lemma_sub_order(taken, half, half);
    lemma_less(whole(1) - bleed, taken);
}

/// In air without oxygen nothing burns, so an engine gives no thrust.
pub proof fn lemma_anoxic_is_dead<M: Numerics>(
    engine: &CompiledAirbreather,
    math: &M,
    condition: &FlightCondition,
    throttle: F64,
    spool_n: F64,
    ignition: bool,
    result: (AirOperatingPoint, ShaftBalance),
)
    requires
        condition.composition.oxygen_mass_fraction.same(zero()),
        zero() < captured(engine, math, condition, throttle, spool_n, ignition).mdot_core_kg_s,
        captured(engine, math, condition, throttle, spool_n, ignition).mdot_core_kg_s.is_finite(),
        engine.at_spool(math, condition, throttle, spool_n, ignition, zero(), None) == Ok::<
            (AirOperatingPoint, ShaftBalance),
            Fault,
        >(result),
    ensures
        dead(result.0),
{
    lemma_one();
    lemma_nothing_burns();
    let spec = engine.effective_spec(throttle);
    let fuel = engine.fuel.properties();
    let drive = engine.drive(spool_n, ignition, zero(), None);
    let inlet = captured(engine, math, condition, throttle, spool_n, ignition);
    let compression = cycle_compression(math, &spec, &inlet);
    let combustion = cycle_combustion(
        &spec,
        fuel,
        condition,
        engine.scheduled_temp_k(throttle),
        &drive,
        &inlet,
        &compression,
    );
    let oxygen = condition.composition.oxygen_mass_fraction;
    let core = inlet.mdot_core_kg_s;
    let share = whole(1) - combustion.bleed - customer_bleed_fraction();
    lemma_parts(oxygen);
    lemma_combustor_share(combustion.bleed);
    lemma_share_finite(core, share);
    let burned_air = core * share;
    lemma_parts(burned_air);
    lemma_nothing(burned_air, oxygen);
    lemma_product(burned_air, oxygen);
    lemma_parts(burned_air * oxygen);
    lemma_vanishing(burned_air, oxygen);
    let per_fuel = fuel.2;
    lemma_oxygen_demand(engine);
    let cap = if burned_air > zero() {
        burned_air * oxygen / (burned_air * per_fuel)
    } else {
        zero()
    };
    if burned_air > zero() {
        lemma_at_least_itself(burned_air, per_fuel);
        lemma_mul_commutes(burned_air, per_fuel);
        lemma_nothing_over(burned_air * oxygen, burned_air * per_fuel);
    }
    assert(cap.units() == 0 && !cap.is_nan());
    assert(combustion.fuel_air <= zero());
}

/// Every fuel takes more than its own mass in oxygen.
proof fn lemma_oxygen_demand(engine: &CompiledAirbreather)
    ensures
        whole(1) <= engine.fuel.properties().2,
        engine.fuel.properties().2.is_finite(),
{
    lemma_one();
    lemma_whole(8);
    lemma_pow2_pos(1074);
    reveal_with_fuel(pow, 3);
    lemma_decimal_between(341, 2, 1, 4);
    lemma_decimal_between(399, 2, 1, 4);
}

/// The exponent of polytropic compression.
pub open spec fn compression_exponent() -> F64 {
    (air_gamma() - whole(1)) / (air_gamma() * compressor_poly_efficiency())
}

/// A cycle without a shaft is never limited by one, on a host that raises one to one.
pub proof fn lemma_passive_never_drive_limited<M: Numerics>(
    engine: &CompiledAirbreather,
    math: &M,
    condition: &FlightCondition,
    throttle: F64,
    spool_n: F64,
    ignition: bool,
    result: (AirOperatingPoint, ShaftBalance),
)
    requires
        engine.cycle.is_passive(),
        powf(math, whole(1), compression_exponent()) == whole(1),
        engine.at_spool(math, condition, throttle, spool_n, ignition, zero(), None) == Ok::<
            (AirOperatingPoint, ShaftBalance),
            Fault,
        >(result),
    ensures
        !result.0.drive_limited,
{
    lemma_one();
    let spec = engine.effective_spec(throttle);
    let fuel = engine.fuel.properties();
    let drive = engine.drive(spool_n, ignition, zero(), None);
    let inlet = captured(engine, math, condition, throttle, spool_n, ignition);
    let compression = cycle_compression(math, &spec, &inlet);
    let combustion = cycle_combustion(
        &spec,
        fuel,
        condition,
        engine.scheduled_temp_k(throttle),
        &drive,
        &inlet,
        &compression,
    );
    let entry_k = inlet.compressor_temp_k;
    if !conditioning_invalid(&inlet) && zero() < combustion.fuel_air {
        lemma_parts(entry_k);
        lemma_mul_one(entry_k);
        assert(compression.t_comp_exit == entry_k);
        lemma_sub_self(entry_k);
        lemma_whole(1005);
        lemma_vanishing(air_cp_j_kg_k(), zero());
        assert(compression.work_comp.same(zero()));
        lemma_add_zero(compression.work_comp, zero());
        let work = compression.work_comp + compression.work_fan;
        lemma_parts(work);
        lemma_nothing_by(work, combustion.cp * rotor_ratio(&combustion));
        // Combustion only adds to the delivery temperature.
        let lhv = fuel.0;
        lemma_fuel_heat(engine);
        lemma_decimal(95, 2);
        let gain = combustion.fuel_air * combustor_efficiency() * lhv / air_cp_j_kg_k();
        lemma_gain(combustion.fuel_air, lhv);
        let hot_k = combustion.turbine_temp_k;
        assert(hot_k == entry_k + gain);
        lemma_numbers(entry_k, gain);
        if !hot_k.is_nan() {
            lemma_add_not_negative(entry_k, gain);
            lemma_nearly_all(hot_k);
        } else {
            lemma_numbers(hot_k, dec(95, 2));
        }
    }
}

/// What combustion adds to a temperature is not negative.
proof fn lemma_gain(fuel_air: F64, lhv: F64)
    requires
        zero() <= fuel_air,
        zero() <= lhv,
    ensures
        !(fuel_air * combustor_efficiency() * lhv / air_cp_j_kg_k() < zero()),
{
    lemma_one();
    lemma_decimal(95, 2);
    lemma_whole(1005);
    lemma_pow2_pos(1074);
    let part = fuel_air * combustor_efficiency();
    let heat = part * lhv;
    let cp = air_cp_j_kg_k();
    lemma_numbers(heat, cp);
    lemma_numbers(part, lhv);
    if !(heat / cp).is_nan() {
        lemma_mul_not_negative(fuel_air, combustor_efficiency());
        lemma_mul_not_negative(part, lhv);
        lemma_parts(zero());
        lemma_nothing_over(zero(), cp);
        lemma_div_order(zero(), heat, cp);
    }
}

/// Every fuel heats.
proof fn lemma_fuel_heat(engine: &CompiledAirbreather)
    ensures
        zero() <= engine.fuel.properties().0,
{
    lemma_big(431, 5);
    lemma_big(50, 6);
    lemma_big(120, 6);
}

/// Intake recovery never falls below its floor, whatever the host's powers are.
pub proof fn lemma_recovery_floor<M: Numerics>(intake: IntakeKind, math: &M, mach: F64)
    ensures
        dec(3, 1) <= intake.recovery(math, mach),
        mach <= whole(1) ==> intake.recovery(math, mach) == dec(97, 2),
{
    lemma_one();
    lemma_decimal(3, 1);
    lemma_decimal(97, 2);
    reveal_with_fuel(pow, 3);
    lemma_pow2_pos(1074);
    let unit = pow2(1074) as int;
    assert((3 * unit) * 100 <= (97 * unit) * 10) by (nonlinear_arith)
        requires
            unit > 0,
    ;
    lemma_near_order(false, 3 * unit, 10, false, 97 * unit, 100);
}

/// A lagged spool stays between shut and full, and holds still at its target.
pub proof fn lemma_lag<M: Numerics>(math: &M, current_effective: F64, target: F64, dt_s: F64, tau_s: F64, lagged_n: F64)
    requires
        lagged(math, current_effective, target, dt_s, tau_s) == Ok::<F64, Fault>(lagged_n),
    ensures
        lagged_n.is_nan() || (zero() <= lagged_n && lagged_n <= whole(1)),
        current_effective == target && exp(math, dt_s.negate() / tau_s).is_finite() && zero() <= exp(
            math,
            dt_s.negate() / tau_s,
        ) ==> lagged_n.same(target),
{
    lemma_one();
    lemma_parts(target);
    if current_effective == target {
        let answer = exp(math, dt_s.negate() / tau_s);
        if answer.is_finite() && zero() <= answer {
            lemma_parts(answer);
            lemma_parts(whole(1));
            lemma_negate(answer);
            lemma_sum(whole(1), answer.negate());
            let alpha = whole(1) - answer;
            lemma_sub_self(target);
            lemma_parts(alpha);
            lemma_finite_difference(whole(1), answer);
            lemma_nothing(alpha, zero());
            lemma_mul_commutes(alpha, zero());
            lemma_product(zero(), alpha);
            lemma_parts(zero());
            lemma_parts(zero() * alpha);
            lemma_add_zero(target, zero() * alpha);
            lemma_parts(target + zero() * alpha);
        }
    }
}

} // verus!
