//! Momentum of the streams that an engine takes in and gives off.
use crate::air::{
    air_gamma, convergent_nozzle, nozzle_capacity_kg_s, AirOperatingPoint, AirbreathingSpec, CompiledAirbreather,
    FlightCondition, NozzleFlow,
};
use crate::constants::standard_gravity_mps2;
use crate::cycle_core::CycleState;
use crate::error::Fault;
use crate::estoc::{CompiledEjector, CompiledEstoc, EstocPoint};
use crate::float::accuracy::{
    about, at_most, lemma_about_product, lemma_about_same, lemma_at_most, lemma_normal, lemma_over,
    lemma_times_commutes, lemma_times_order, lemma_value_order, normal, over, times, value,
};
use crate::float::errors::{allowance, lemma_times_difference, size};
use crate::float::{lemma_one, pi, whole, zero, F64};
use crate::float::nearness::lemma_parts;
use crate::float::tracking::{
    lemma_about_itself, lemma_about_over, lemma_about_root, lemma_product_closes, lemma_tracks_exact_product,
    lemma_tracks_itself, lemma_tracks_product, lemma_tracks_sum, unlost,
};
use crate::jet::JetMount;
use crate::numerics::Numerics;
use vstd::prelude::*;

verus! {

/// The fan stream of a cycle state: the air that passes by the core.
pub open spec fn fan_stream<M: Numerics>(
    engine: &CompiledAirbreather,
    math: &M,
    condition: &FlightCondition,
    state: &CycleState,
    scale: F64,
) -> NozzleFlow {
    convergent_nozzle(
        math,
        (state.mdot_air_kg_s - state.mdot_core_kg_s) * scale,
        state.fan_total_temp_k,
        state.fan_total_pressure_pa,
        engine.exit_area_fan_m2,
        air_gamma(),
        whole(287),
        condition.ambient_pa,
    )
}

/// Net thrust pays the ram drag of all the air that is taken aboard. The net thrust and
/// the incoming momentum of the whole reported air flow add up to the gross thrusts of
/// core and fan, up to eight roundings of the terms, whatever the cycle and its bypass.
pub proof fn lemma_ram_drag<M: Numerics>(
    engine: &CompiledAirbreather,
    math: &M,
    condition: &FlightCondition,
    throttle: F64,
    spool_n: F64,
    state: &CycleState,
    scale: F64,
    core: NozzleFlow,
    separation_risk: bool,
)
    requires
        ({
            let point = engine.burning_point(math, condition, throttle, spool_n, state, scale, core, separation_risk);
            let fan = fan_stream(engine, math, condition, state, scale);
            &&& core.thrust_gross_n.is_finite() && fan.thrust_gross_n.is_finite()
            &&& (core.thrust_gross_n + fan.thrust_gross_n).is_finite() && point.thrust_n.is_finite()
            &&& point.air_flow_kg_s.is_finite() && condition.airspeed_mps.is_finite()
            &&& unlost(point.air_flow_kg_s, condition.airspeed_mps)
        }),
    ensures
        ({
            let point = engine.burning_point(math, condition, throttle, spool_n, state, scale, core, separation_risk);
            let fan = fan_stream(engine, math, condition, state, scale);
            let ram = times(value(point.air_flow_kg_s), value(condition.airspeed_mps));
            let (hot, cold) = (value(core.thrust_gross_n), value(fan.thrust_gross_n));
            size((value(point.thrust_n) + ram) - (hot + cold)) <= times(
                size(hot) + size(cold) + size(ram),
                allowance(8),
            )
        }),
{
    let point = engine.burning_point(math, condition, throttle, spool_n, state, scale, core, separation_risk);
    let fan = fan_stream(engine, math, condition, state, scale);
    let (air, speed) = (point.air_flow_kg_s, condition.airspeed_mps);
    let (hot, cold) = (core.thrust_gross_n, fan.thrust_gross_n);
    let ram = times(value(air), value(speed));
    lemma_tracks_itself(hot);
    lemma_tracks_itself(cold);
    lemma_product_closes(air, speed);
    lemma_tracks_exact_product(air, speed);
    lemma_tracks_sum(hot, cold, value(hot), value(cold), size(value(hot)), size(value(cold)), 0, 0);
    lemma_tracks_sum(
        hot + cold,
        air * speed,
        value(hot) + value(cold),
        ram,
        size(value(hot)) + size(value(cold)),
        size(ram),
        4,
        4,
    );
}

/// Flying faster on the same streams costs the whole air flow its gain in speed: with the
/// gross thrusts and flows given, the fall in net thrust is the reported air flow times
/// the gain in airspeed, up to eight roundings of the terms at either speed.
pub proof fn lemma_faster_costs_ram<M: Numerics>(
    engine: &CompiledAirbreather,
    math: &M,
    slow: &FlightCondition,
    fast: &FlightCondition,
    throttle: F64,
    spool_n: F64,
    state: &CycleState,
    scale: F64,
    core: NozzleFlow,
    separation_risk: bool,
)
    requires
        fast.ambient_pa == slow.ambient_pa,
        ({
            let (one, other) = (
                engine.burning_point(math, slow, throttle, spool_n, state, scale, core, separation_risk),
                engine.burning_point(math, fast, throttle, spool_n, state, scale, core, separation_risk),
            );
            let fan = fan_stream(engine, math, slow, state, scale);
            &&& core.thrust_gross_n.is_finite() && fan.thrust_gross_n.is_finite()
            &&& (core.thrust_gross_n + fan.thrust_gross_n).is_finite()
            &&& one.thrust_n.is_finite() && other.thrust_n.is_finite() && one.air_flow_kg_s.is_finite()
            &&& slow.airspeed_mps.is_finite() && fast.airspeed_mps.is_finite()
            &&& unlost(one.air_flow_kg_s, slow.airspeed_mps) && unlost(one.air_flow_kg_s, fast.airspeed_mps)
        }),
    ensures
        ({
            let (one, other) = (
                engine.burning_point(math, slow, throttle, spool_n, state, scale, core, separation_risk),
                engine.burning_point(math, fast, throttle, spool_n, state, scale, core, separation_risk),
            );
            let fan = fan_stream(engine, math, slow, state, scale);
            let (air, v, w) = (value(one.air_flow_kg_s), value(slow.airspeed_mps), value(fast.airspeed_mps));
            let gross = size(value(core.thrust_gross_n)) + size(value(fan.thrust_gross_n));
            &&& other.air_flow_kg_s == one.air_flow_kg_s
            &&& size((value(one.thrust_n) - value(other.thrust_n)) - times(air, w - v)) <= times(
                gross + size(times(air, v)),
                allowance(8),
            ) + times(gross + size(times(air, w)), allowance(8))
        }),
{
    lemma_ram_drag(engine, math, slow, throttle, spool_n, state, scale, core, separation_risk);
    lemma_ram_drag(engine, math, fast, throttle, spool_n, state, scale, core, separation_risk);
    let one = engine.burning_point(math, slow, throttle, spool_n, state, scale, core, separation_risk);
    let (air, v, w) = (value(one.air_flow_kg_s), value(slow.airspeed_mps), value(fast.airspeed_mps));
    lemma_times_difference(w, v, air);
    lemma_times_commutes(air, w);
    lemma_times_commutes(air, v);
    lemma_times_commutes(air, w - v);
}

/// The terms of an ejector's momentum balance, none of which is lost to underflow or
/// overflow.
pub open spec fn ejector_kept(rocket: EstocPoint, point: EstocPoint, airspeed_mps: F64) -> bool {
    let motive = rocket.fuel_flow_kg_s + rocket.oxidizer_flow_kg_s;
    let mixed = motive + point.air_flow_kg_s;
    let (jet, ram) = (mixed * point.exhaust_velocity_mps, point.air_flow_kg_s * airspeed_mps);
    let push = motive * rocket.exhaust_velocity_mps;
    &&& rocket.fuel_flow_kg_s.is_finite() && rocket.oxidizer_flow_kg_s.is_finite() && rocket.thrust_n.is_finite()
    &&& rocket.exhaust_velocity_mps.is_finite() && point.exhaust_velocity_mps.is_finite()
    &&& point.air_flow_kg_s.is_finite() && airspeed_mps.is_finite() && point.thrust_n.is_finite()
    &&& motive.is_finite() && mixed.is_finite() && (jet - ram).is_finite() && (rocket.thrust_n - push).is_finite()
    &&& unlost(mixed, point.exhaust_velocity_mps) && unlost(point.air_flow_kg_s, airspeed_mps)
    &&& unlost(motive, rocket.exhaust_velocity_mps)
}

/// An ejector closes its momentum. Its thrust and the incoming momentum of the air it
/// entrains add up to the momentum of all that leaves (fuel, oxidizer and air at the
/// exhaust velocity) and to what the rocket's thrust exceeds the momentum of its own jet,
/// up to twenty-eight roundings of the terms. The ejector burns what the rocket burns.
pub proof fn lemma_ejector_momentum<M: Numerics>(
    engine: &CompiledEstoc,
    math: &M,
    throttle: F64,
    condition: &FlightCondition,
    ejector: CompiledEjector,
)
    requires
        ejector_kept(
            engine.rocket_point(math, throttle, condition.ambient_pa),
            engine.mixed_point(math, throttle, condition, ejector),
            condition.airspeed_mps,
        ),
    ensures
        ({
            let rocket = engine.rocket_point(math, throttle, condition.ambient_pa);
            let point = engine.mixed_point(math, throttle, condition, ejector);
            let (air, jet) = (value(point.air_flow_kg_s), value(point.exhaust_velocity_mps));
            let (fuel, oxidizer) = (value(point.fuel_flow_kg_s), value(point.oxidizer_flow_kg_s));
            let (push, own) = (value(rocket.thrust_n), value(rocket.exhaust_velocity_mps));
            let ram = times(air, value(condition.airspeed_mps));
            let excess = push - times(fuel + oxidizer, own);
            let terms = times(size(fuel) + size(oxidizer) + size(air), size(jet)) + size(ram) + (size(push) + times(
                size(fuel) + size(oxidizer),
                size(own),
            ));
            &&& size((value(point.thrust_n) + ram) - (times(fuel + oxidizer + air, jet) + excess)) <= times(
                terms,
                allowance(28),
            )
            &&& point.fuel_flow_kg_s == rocket.fuel_flow_kg_s
            &&& point.oxidizer_flow_kg_s == rocket.oxidizer_flow_kg_s
        }),
{
    let rocket = engine.rocket_point(math, throttle, condition.ambient_pa);
    let point = engine.mixed_point(math, throttle, condition, ejector);
    let (air, jet, speed) = (point.air_flow_kg_s, point.exhaust_velocity_mps, condition.airspeed_mps);
    let (fuel, oxidizer) = (rocket.fuel_flow_kg_s, rocket.oxidizer_flow_kg_s);
    let (push, own) = (rocket.thrust_n, rocket.exhaust_velocity_mps);
    let (motive, mixed) = (fuel + oxidizer, fuel + oxidizer + air);
    let burnt = size(value(fuel)) + size(value(oxidizer));
    let (sum, all) = (value(fuel) + value(oxidizer), value(fuel) + value(oxidizer) + value(air));
    lemma_tracks_itself(fuel);
    lemma_tracks_itself(oxidizer);
    lemma_tracks_itself(air);
    lemma_tracks_itself(jet);
    lemma_tracks_itself(own);
    lemma_tracks_itself(push);
    lemma_tracks_sum(fuel, oxidizer, value(fuel), value(oxidizer), size(value(fuel)), size(value(oxidizer)), 0, 0);
    lemma_tracks_sum(motive, air, sum, value(air), burnt, size(value(air)), 4, 0);
    lemma_tracks_product(mixed, jet, all, value(jet), burnt + size(value(air)), size(value(jet)), 8, 0);
    lemma_tracks_exact_product(air, speed);
    let ram = times(value(air), value(speed));
    let leaves = times(burnt + size(value(air)), size(value(jet)));
    lemma_tracks_sum(mixed * jet, air * speed, times(all, value(jet)), ram, leaves, size(ram), 20, 4);
    lemma_tracks_product(motive, own, sum, value(own), burnt, size(value(own)), 4, 0);
    let spent = times(burnt, size(value(own)));
    lemma_tracks_sum(push, motive * own, value(push), times(sum, value(own)), size(value(push)), spent, 0, 12);
    lemma_tracks_sum(
        mixed * jet - air * speed,
        push - motive * own,
        times(all, value(jet)) - ram,
        value(push) - times(sum, value(own)),
        leaves + size(ram),
        size(value(push)) + spent,
        24,
        16,
    );
}

/// The static thrust that an engine is rated at pays the ram drag of all its air too: with
/// the gross thrusts of core and fan at the sized exits, rated thrust and the momentum of
/// all the design air add up to them, up to eight roundings of the terms.
pub proof fn lemma_rated_thrust<M: Numerics>(
    spec: &AirbreathingSpec,
    math: &M,
    design: &FlightCondition,
    state: &CycleState,
    core: NozzleFlow,
    fan: NozzleFlow,
)
    requires
        ({
            let engine = spec.sized(math, design, state);
            let (_, _, _, gamma_b, r_b, _) = spec.fuel.properties();
            let (air, speed) = (state.mdot_air_kg_s, design.airspeed_mps);
            &&& core == convergent_nozzle(
                math,
                state.nozzle_flow_kg_s,
                state.core_total_temp_k,
                state.core_total_pressure_pa,
                engine.exit_area_core_m2,
                gamma_b,
                r_b,
                design.ambient_pa,
            )
            &&& fan == convergent_nozzle(
                math,
                state.mdot_air_kg_s - state.mdot_core_kg_s,
                state.fan_total_temp_k,
                state.fan_total_pressure_pa,
                engine.exit_area_fan_m2,
                air_gamma(),
                whole(287),
                design.ambient_pa,
            )
            &&& core.thrust_gross_n.is_finite() && fan.thrust_gross_n.is_finite()
            &&& (core.thrust_gross_n + fan.thrust_gross_n).is_finite() && engine.design_static_thrust_n.is_finite()
            &&& air.is_finite() && speed.is_finite() && unlost(air, speed)
        }),
    ensures
        ({
            let engine = spec.sized(math, design, state);
            let ram = times(value(state.mdot_air_kg_s), value(design.airspeed_mps));
            let (hot, cold) = (value(core.thrust_gross_n), value(fan.thrust_gross_n));
            &&& size((value(engine.design_static_thrust_n) + ram) - (hot + cold)) <= times(
                size(hot) + size(cold) + size(ram),
                allowance(8),
            )
            &&& engine.design_fuel_flow_kg_s == state.fuel_flow_kg_s + state.fuel_ab_flow_kg_s
            &&& zero() < engine.design_fuel_flow_kg_s ==> engine.design_isp_s == engine.design_static_thrust_n / (
            engine.design_fuel_flow_kg_s * standard_gravity_mps2())
        }),
{
    let (air, speed) = (state.mdot_air_kg_s, design.airspeed_mps);
    let (hot, cold) = (core.thrust_gross_n, fan.thrust_gross_n);
    let ram = times(value(air), value(speed));
    lemma_tracks_itself(hot);
    lemma_tracks_itself(cold);
    lemma_tracks_exact_product(air, speed);
    lemma_tracks_sum(hot, cold, value(hot), value(cold), size(value(hot)), size(value(cold)), 0, 0);
    lemma_tracks_sum(
        hot + cold,
        air * speed,
        value(hot) + value(cold),
        ram,
        size(value(hot)) + size(value(cold)),
        size(ram),
        4,
        4,
    );
}

/// The figures of a burning point agree: its flows are the matched share of the cycle's, its
/// fuel is all that burns (core, afterburner and boost), its specific impulse the thrust of
/// a unit of fuel weight, its exhaust velocity the core's thrust of a unit of core flow, and
/// it is matched down only where a nozzle limits it.
pub proof fn lemma_burning_figures<M: Numerics>(
    engine: &CompiledAirbreather,
    math: &M,
    condition: &FlightCondition,
    throttle: F64,
    spool_n: F64,
    state: &CycleState,
    scale: F64,
    core: NozzleFlow,
    separation_risk: bool,
)
    ensures
        ({
            let point = engine.burning_point(math, condition, throttle, spool_n, state, scale, core, separation_risk);
            &&& point.air_flow_kg_s == state.mdot_air_kg_s * scale
            &&& point.bulk_fuel_flow_kg_s == state.fuel_flow_kg_s * scale + state.fuel_ab_flow_kg_s * scale
            &&& point.boost_fuel_flow_kg_s == state.boost_fuel_flow_kg_s * scale
            &&& point.fuel_flow_kg_s == point.bulk_fuel_flow_kg_s + point.boost_fuel_flow_kg_s
            &&& point.isp_s == point.thrust_n / (point.fuel_flow_kg_s * standard_gravity_mps2())
            &&& point.lit == (point.fuel_flow_kg_s > zero())
            &&& state.nozzle_flow_kg_s * scale > zero() ==> point.exhaust_velocity_mps == core.thrust_gross_n / (
            state.nozzle_flow_kg_s * scale)
            &&& point.exhaust_temp_k == core.exit_temp_k && point.exit_pressure_pa == core.exit_pressure_pa
            &&& point.exit_mach == core.exit_mach && point.separation_risk == separation_risk
            &&& point.nozzle_limited == (scale < whole(1))
            &&& point.precooler_heat_flow_w == state.precooler_heat_flow_w * scale
            &&& point.spool_n == spool_n
            &&& point.air_limited == state.air_starved && point.oxygen_limited == state.oxygen_limited
            &&& point.reheat_limited == state.reheat_limited
        }),
{
}

/// No nozzle passes more than it can choke: the matched share of the core's flow is no more
/// than the throat's capacity, to within one rounding, and never more than all of it.
pub proof fn lemma_nozzle_match<M: Numerics>(engine: &CompiledAirbreather, math: &M, state: &CycleState)
    requires
        ({
            let cap = nozzle_capacity_kg_s(
                math,
                state.core_total_temp_k,
                state.core_total_pressure_pa,
                engine.throat_area_core_m2,
                state.core_gamma,
                state.core_gas_constant_j_kg_k,
            );
            &&& normal(cap) && normal(state.nozzle_flow_kg_s) && normal(cap / state.nozzle_flow_kg_s)
            &&& normal(engine.nozzle_scale(math, state))
        }),
    ensures
        ({
            let scale = engine.nozzle_scale(math, state);
            let cap = nozzle_capacity_kg_s(
                math,
                state.core_total_temp_k,
                state.core_total_pressure_pa,
                engine.throat_area_core_m2,
                state.core_gamma,
                state.core_gas_constant_j_kg_k,
            );
            &&& at_most(times(value(scale), value(state.nozzle_flow_kg_s)), value(cap), 1)
            &&& scale <= whole(1)
        }),
{
    let scale = engine.nozzle_scale(math, state);
    let flow = state.nozzle_flow_kg_s;
    let cap = nozzle_capacity_kg_s(
        math,
        state.core_total_temp_k,
        state.core_total_pressure_pa,
        engine.throat_area_core_m2,
        state.core_gamma,
        state.core_gas_constant_j_kg_k,
    );
    let most = cap / flow;
    lemma_one();
    lemma_normal(cap);
    lemma_normal(flow);
    lemma_normal(most);
    lemma_normal(scale);
    lemma_parts(most);
    lemma_parts(scale);
    assert(scale.units() <= most.units());
    lemma_value_order(scale, most);
    lemma_about_itself(cap);
    lemma_about_itself(flow);
    lemma_about_over(cap, flow, value(cap), value(flow), 0, 0);
    lemma_about_same(value(flow));
    lemma_about_product(value(most), over(value(cap), value(flow)), value(flow), value(flow), 1, 0);
    lemma_over(value(cap), value(flow));
    lemma_at_most(times(value(most), value(flow)), value(cap), 1);
    lemma_times_order(value(scale), value(most), value(flow));
}

/// A plume carries all that leaves: fuel, oxidizer and air; and its exit is as wide as the
/// core's exit area, to within three roundings.
pub proof fn lemma_plume(air: &CompiledAirbreather, point: &EstocPoint)
    requires
        normal(air.exit_area_core_m2),
        normal(pi()),
        normal(air.exit_area_core_m2 / pi()),
        normal((air.exit_area_core_m2 / pi()).sqrt()),
    ensures
        ({
            let plume = JetMount::plume_of(air, point);
            let radius = value(plume.exit_radius_m);
            &&& plume.mass_flow_kg_s == point.fuel_flow_kg_s + point.oxidizer_flow_kg_s + point.air_flow_kg_s
            &&& about(times(times(radius, radius), value(pi())), value(air.exit_area_core_m2), 3)
            &&& plume.exhaust_velocity_mps == point.exhaust_velocity_mps
            &&& plume.exit_pressure_pa == point.exit_pressure_pa && plume.exit_temp_k == point.exhaust_temp_k
        }),
{
    let area = air.exit_area_core_m2;
    lemma_normal(area);
    lemma_normal(pi());
    lemma_normal(area / pi());
    lemma_about_itself(area);
    lemma_about_itself(pi());
    let (a, p) = (value(area), value(pi()));
    lemma_about_over(area, pi(), a, p, 0, 0);
    lemma_about_root(area / pi(), over(a, p), 1);
    let r = value((area / pi()).sqrt());
    lemma_about_same(p);
    lemma_about_product(times(r, r), over(a, p), p, p, 3, 0);
    lemma_over(a, p);
}

/// The terms of an evaluated point's momentum, none of which is lost to underflow or
/// overflow.
pub open spec fn streams_kept(core: NozzleFlow, fan: NozzleFlow, point: AirOperatingPoint, airspeed_mps: F64) -> bool {
    &&& core.thrust_gross_n.is_finite() && fan.thrust_gross_n.is_finite()
    &&& (core.thrust_gross_n + fan.thrust_gross_n).is_finite() && point.thrust_n.is_finite()
    &&& point.air_flow_kg_s.is_finite() && airspeed_mps.is_finite() && unlost(point.air_flow_kg_s, airspeed_mps)
}

/// A point closes its momentum over the streams that its cycle state sends through the
/// nozzles: `core` is what the core's nozzle makes of the matched core flow, and the fan's
/// stream what the fan's nozzle makes of the air that passes by the core. What the point
/// reports of its exit is the core's.
pub proof fn lemma_point_momentum<M: Numerics>(
    engine: &CompiledAirbreather,
    math: &M,
    condition: &FlightCondition,
    throttle: F64,
    spool_n: F64,
    state: &CycleState,
    point: AirOperatingPoint,
    core: NozzleFlow,
    separation_risk: bool,
)
    requires
        engine.point_of_state(math, condition, throttle, spool_n, state) == Ok::<AirOperatingPoint, Fault>(point),
        !state.drive_limited,
        !(state.mdot_air_kg_s <= zero()),
        !(state.fuel_flow_kg_s + state.fuel_ab_flow_kg_s + state.boost_fuel_flow_kg_s <= zero()),
        engine.core_flow(
            math,
            condition,
            state,
            state.nozzle_flow_kg_s * engine.nozzle_scale(math, state),
        ) == Ok::<(NozzleFlow, bool), Fault>((core, separation_risk)),
        streams_kept(
            core,
            fan_stream(engine, math, condition, state, engine.nozzle_scale(math, state)),
            point,
            condition.airspeed_mps,
        ),
    ensures
        ({
            let fan = fan_stream(engine, math, condition, state, engine.nozzle_scale(math, state));
            let ram = times(value(point.air_flow_kg_s), value(condition.airspeed_mps));
            let (hot, cold) = (value(core.thrust_gross_n), value(fan.thrust_gross_n));
            &&& size((value(point.thrust_n) + ram) - (hot + cold)) <= times(
                size(hot) + size(cold) + size(ram),
                allowance(8),
            )
            &&& point.air_flow_kg_s == state.mdot_air_kg_s * engine.nozzle_scale(math, state)
            &&& point.exhaust_temp_k == core.exit_temp_k && point.exit_pressure_pa == core.exit_pressure_pa
            &&& point.exit_mach == core.exit_mach && point.separation_risk == separation_risk
            &&& point.spool_n == spool_n
        }),
{
    let scale = engine.nozzle_scale(math, state);
    lemma_ram_drag(engine, math, condition, throttle, spool_n, state, scale, core, separation_risk);
}

/// A jet with a shaft expands its core through its exit area: its core stream is that of a
/// convergent nozzle at the state's total temperature and pressure.
pub proof fn lemma_core_stream<M: Numerics>(
    engine: &CompiledAirbreather,
    math: &M,
    condition: &FlightCondition,
    state: &CycleState,
    core_flow_kg_s: F64,
)
    requires
        !(engine.cycle is Ramjet),
        !(engine.cycle is Scramjet),
    ensures
        engine.core_flow(math, condition, state, core_flow_kg_s) == Ok::<(NozzleFlow, bool), Fault>(
            (
                convergent_nozzle(
                    math,
                    core_flow_kg_s,
                    state.core_total_temp_k,
                    state.core_total_pressure_pa,
                    engine.exit_area_core_m2,
                    state.core_gamma,
                    state.core_gas_constant_j_kg_k,
                    condition.ambient_pa,
                ),
                false,
            ),
        ),
{
}

} // verus!
