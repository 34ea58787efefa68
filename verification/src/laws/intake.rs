//! Densities, design flows, schedules and what an intake recovers.
use crate::air::{
    air_gamma, intake_design_capture_mach, sea_level_density, sea_level_sound, AirbreathingSpec, CompiledAirbreather,
    FlightCondition, IntakeKind,
};
use crate::float::accuracy::{
    about, amount, lemma_about_product, lemma_about_same, lemma_about_sum, lemma_over, lemma_times_adds,
    lemma_times_associates, lemma_times_one, lemma_times_positive, normal, over, times, value,
};
use crate::float::{dec, lemma_one, whole, zero, F64};
use crate::float::decimals::lemma_decimal_between;
use crate::float::errors::size;
use crate::float::exact::{lemma_add_zero, lemma_vanishing};
use crate::float::nearness::lemma_parts;
use crate::float::order::lemma_add_commutes;
use crate::float::tracking::{
    lemma_about_itself, lemma_about_over, lemma_about_plus, lemma_about_times, lemma_half_value,
    lemma_tracks_exact_product, lemma_tracks_sum, lemma_whole_value, tracks, unlost,
};
use crate::laws::sizing::{lemma_own, lemma_term};
use crate::nuclear::NtrSupplement;
use crate::numerics::{powf, Numerics};
use vstd::arithmetic::power::pow;
use vstd::prelude::*;

verus! {

/// A gas at rest keeps its law: density times gas constant times temperature is pressure,
/// to within two roundings.
pub proof fn lemma_density(condition: &FlightCondition)
    requires
        ({
            let (r, t, p) = (condition.composition.gas_constant_j_kg_k, condition.ambient_temp_k, condition.ambient_pa);
            normal(r) && normal(t) && normal(p) && normal(r * t) && normal(p / (r * t))
        }),
    ensures
        about(
            times(
                value(condition.density_kg_m3()),
                times(value(condition.composition.gas_constant_j_kg_k), value(condition.ambient_temp_k)),
            ),
            value(condition.ambient_pa),
            2,
        ),
{
    let (r, t, p) = (condition.composition.gas_constant_j_kg_k, condition.ambient_temp_k, condition.ambient_pa);
    let thermal = times(value(r), value(t));
    lemma_own(r);
    lemma_own(t);
    lemma_own(p);
    lemma_own(r * t);
    lemma_one();
    lemma_parts(r);
    lemma_parts(t);
    lemma_parts(p);
    lemma_parts(zero());
    lemma_term(r, t, value(r), value(t), 0, 0);
    lemma_times_positive(value(r), value(t));
    lemma_about_over(p, r * t, value(p), thermal, 0, 1);
    lemma_over(value(p), thermal);
    lemma_about_same(thermal);
    lemma_about_product(value(p / (r * t)), over(value(p), thermal), thermal, thermal, 2, 0);
}

/// A design flow, no term of which is lost to underflow or overflow.
pub open spec fn design_kept(density: F64, area: F64, speed: F64) -> bool {
    normal(density) && normal(area) && normal(speed) && normal(density * area) && normal(density * area * speed)
}

/// What an area sweeps.
proof fn lemma_swept(density: F64, area: F64, speed: F64)
    requires
        design_kept(density, area, speed),
    ensures
        about(value(density * area * speed), times(value(density), times(value(area), value(speed))), 2),
{
    lemma_own(density);
    lemma_own(area);
    lemma_own(speed);
    lemma_term(density, area, value(density), value(area), 0, 0);
    lemma_term(density * area, speed, times(value(density), value(area)), value(speed), 1, 0);
    lemma_times_associates(value(density), value(area), value(speed));
}

/// A passive engine is designed for what its intake sweeps at the design airspeed: a ramjet
/// at sea-level density, a scramjet at that of its design altitude, to within two roundings.
pub proof fn lemma_passive_design_flow(spec: &AirbreathingSpec, design: &FlightCondition)
    requires
        spec.cycle is Ramjet || spec.cycle is Scramjet,
        design_kept(
            if spec.cycle is Ramjet {
                sea_level_density()
            } else {
                design.ambient_pa / (whole(287) * design.ambient_temp_k)
            },
            spec.intake_area_m2,
            design.airspeed_mps,
        ),
    ensures
        about(
            value(spec.design_flow_kg_s(design)),
            times(
                value(
                    if spec.cycle is Ramjet {
                        sea_level_density()
                    } else {
                        design.ambient_pa / (whole(287) * design.ambient_temp_k)
                    },
                ),
                times(value(spec.intake_area_m2), value(design.airspeed_mps)),
            ),
            2,
        ),
{
    lemma_swept(
        if spec.cycle is Ramjet {
            sea_level_density()
        } else {
            design.ambient_pa / (whole(287) * design.ambient_temp_k)
        },
        spec.intake_area_m2,
        design.airspeed_mps,
    );
}

/// An engine with a shaft is designed for what its intake draws at sea level at half the
/// speed of sound, to within three roundings, whatever the flight condition.
pub proof fn lemma_shaft_design_flow(spec: &AirbreathingSpec, design: &FlightCondition)
    requires
        !(spec.cycle is Ramjet) && !(spec.cycle is Scramjet),
        ({
            let drawn = sea_level_density() * spec.intake_area_m2;
            &&& normal(sea_level_density()) && normal(spec.intake_area_m2) && normal(drawn) && normal(sea_level_sound())
            &&& normal(drawn * dec(5, 1)) && normal(drawn * dec(5, 1) * sea_level_sound())
        }),
    ensures
        ({
            let flow = value(spec.design_flow_kg_s(design));
            about(
                times(2 as real, flow),
                times(times(value(sea_level_density()), value(spec.intake_area_m2)), value(sea_level_sound())),
                3,
            )
        }),
{
    let (density, area, half, sound) = (sea_level_density(), spec.intake_area_m2, dec(5, 1), sea_level_sound());
    let drawn = density * area;
    let exact = times(value(density), value(area));
    lemma_half_value();
    lemma_own(density);
    lemma_own(area);
    lemma_own(half);
    lemma_own(sound);
    lemma_term(density, area, value(density), value(area), 0, 0);
    lemma_term(drawn, half, exact, value(half), 1, 0);
    lemma_term(drawn * half, sound, times(exact, value(half)), value(sound), 2, 0);
    let flow = value(drawn * half * sound);
    let part = times(times(exact, value(half)), value(sound));
    lemma_about_sum(flow, part, flow, part, 3);
    lemma_times_one(flow);
    lemma_times_adds(times(exact, value(half)), times(exact, value(half)), value(sound));
    lemma_times_adds(value(half), value(half), exact);
    lemma_times_one(exact);
}

/// The part of the pressure that an intake loses to each unit of its shock.
pub open spec fn shock_loss(intake: IntakeKind) -> F64 {
    match intake {
        IntakeKind::Pitot => dec(75, 3),
        IntakeKind::Ramp => dec(5, 2),
    }
}

/// Above the speed of sound an intake loses its share of a power of the excess, to within
/// eight roundings, unless it is at its floor.
pub proof fn lemma_recovery_falls<M: Numerics>(intake: IntakeKind, math: &M, mach: F64)
    requires
        whole(1) < mach,
        ({
            let shock = powf(math, mach - whole(1), dec(135, 2));
            &&& shock.is_finite() && unlost(shock_loss(intake), shock)
            &&& (whole(1) - shock_loss(intake) * shock).is_finite()
            &&& dec(3, 1) < intake.recovery(math, mach)
        }),
    ensures
        ({
            let lost = times(value(shock_loss(intake)), value(powf(math, mach - whole(1), dec(135, 2))));
            tracks(intake.recovery(math, mach), (1 as real) - lost, (1 as real) + size(lost), 8)
        }),
{
    let shock = powf(math, mach - whole(1), dec(135, 2));
    let slope = shock_loss(intake);
    let lost = times(value(slope), value(shock));
    let left = whole(1) - slope * shock;
    lemma_one();
    reveal_with_fuel(pow, 4);
    lemma_decimal_between(75, 3, 0, 1);
    lemma_decimal_between(5, 2, 0, 1);
    lemma_decimal_between(3, 1, 0, 1);
    lemma_parts(mach);
    lemma_parts(whole(1));
    lemma_parts(left);
    lemma_parts(dec(3, 1));
    lemma_whole_value(1);
    lemma_tracks_exact_product(slope, shock);
    lemma_tracks_sum(whole(1), slope * shock, 1 as real, lost, 1 as real, size(lost), 0, 4);
    assert(intake.recovery(math, mach) == left);
}

/// A turbine's schedule rises in a straight line with the throttle from its idle share to
/// the full inlet temperature, to within three roundings.
pub proof fn lemma_schedule(engine: &CompiledAirbreather, throttle: F64)
    requires
        amount(throttle),
        normal(engine.turbine_inlet_temp_k),
        normal(dec(45, 2) * throttle),
        normal(dec(55, 2) + dec(45, 2) * throttle),
        normal(engine.turbine_inlet_temp_k * (dec(55, 2) + dec(45, 2) * throttle)),
    ensures
        about(
            value(engine.scheduled_temp_k(throttle)),
            times(
                value(engine.turbine_inlet_temp_k),
                value(dec(55, 2)) + times(value(dec(45, 2)), value(throttle)),
            ),
            3,
        ),
{
    let t = engine.turbine_inlet_temp_k;
    let (idle, rise) = (dec(55, 2), dec(45, 2));
    reveal_with_fuel(pow, 3);
    lemma_decimal_between(55, 2, 0, 1);
    lemma_decimal_between(45, 2, 0, 1);
    lemma_own(t);
    lemma_about_itself(throttle);
    lemma_about_itself(idle);
    lemma_about_itself(rise);
    lemma_own(rise * throttle);
    lemma_about_times(rise, throttle, value(rise), value(throttle), 0, 0);
    let exact = times(value(rise), value(throttle));
    lemma_about_plus(idle, rise * throttle, value(idle), exact, 0, 1);
    lemma_term(t, idle + rise * throttle, value(t), value(idle) + exact, 0, 2);
}

/// Standing still, an engine whose shaft turns and that takes in air draws it by suction;
/// one without a shaft never does.
pub proof fn lemma_suction(engine: &CompiledAirbreather, condition: &FlightCondition, spool_n: F64, mdot_air: F64)
    requires
        condition.airspeed_mps.same(zero()),
        (condition.ambient_pa / (whole(287) * condition.ambient_temp_k) * engine.intake_area_m2).is_finite(),
    ensures
        engine.cycle.is_passive() ==> !engine.suction_assisted(condition, spool_n, mdot_air),
        !engine.cycle.is_passive() && dec(1, 9) < mdot_air && zero() < intake_design_capture_mach() * (air_gamma()
            * whole(287) * condition.ambient_temp_k).sqrt() * spool_n ==> engine.suction_assisted(
            condition,
            spool_n,
            mdot_air,
        ),
        mdot_air <= dec(1, 9) ==> !engine.suction_assisted(condition, spool_n, mdot_air),
{
    let swept = condition.ambient_pa / (whole(287) * condition.ambient_temp_k) * engine.intake_area_m2;
    lemma_one();
    reveal_with_fuel(pow, 10);
    lemma_decimal_between(1, 9, 0, 1);
    lemma_vanishing(swept, condition.airspeed_mps);
    let ram = swept * condition.airspeed_mps;
    lemma_parts(ram);
    lemma_parts(condition.airspeed_mps);
    lemma_add_zero(dec(1, 9), ram);
    lemma_add_commutes(dec(1, 9), ram);
    lemma_parts(dec(1, 9));
    lemma_parts(ram + dec(1, 9));
    lemma_parts(mdot_air);
    lemma_parts(zero());
}

/// A reactor that shut down after a burn gives its fraction of the burn's impulse again
/// while it cools, to within one rounding; after no burn it gives nothing.
pub proof fn lemma_cooldown_tail(reactor: &NtrSupplement, burn_impulse_ns: F64)
    ensures
        burn_impulse_ns <= zero() ==> reactor.cooldown_impulse_ns(burn_impulse_ns) == zero(),
        amount(reactor.cooldown_fraction) && normal(burn_impulse_ns) && normal(
            reactor.cooldown_fraction * burn_impulse_ns,
        ) ==> about(
            value(reactor.cooldown_impulse_ns(burn_impulse_ns)),
            times(value(reactor.cooldown_fraction), value(burn_impulse_ns)),
            1,
        ),
{
    if amount(reactor.cooldown_fraction) && normal(burn_impulse_ns) && normal(
        reactor.cooldown_fraction * burn_impulse_ns,
    ) {
        lemma_own(burn_impulse_ns);
        lemma_one();
        lemma_parts(burn_impulse_ns);
        lemma_parts(zero());
        lemma_about_itself(reactor.cooldown_fraction);
        lemma_about_times(
            reactor.cooldown_fraction,
            burn_impulse_ns,
            value(reactor.cooldown_fraction),
            value(burn_impulse_ns),
            0,
            0,
        );
    }
}

} // verus!
