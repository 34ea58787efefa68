//! Balances of the gas-turbine cycle: mass at the intake, work on the shaft, heat in the
//! combustor and in the afterburner.
use crate::air::{
    air_cp_j_kg_k, combustor_efficiency, customer_bleed_fraction, turbine_poly_efficiency, AirbreathingSpec,
    FlightCondition,
};
use crate::cycle_core::{
    after_takeoff, cycle_combustion, cycle_compression, cycle_inlet, cycle_reheat, cycle_turbine, rotor_drop_k,
    rotor_ratio, running_state, scramjet_blocked, AirCycleConditioning, Combustion, Compression, CycleDriveInput,
    Inlet, Reheat, TurbineExit,
};
use crate::float::accuracy::{
    about, amount, at_most, lemma_about_chain, lemma_about_more, lemma_about_product, lemma_about_same,
    lemma_about_sum, lemma_about_turned, lemma_amount, lemma_at_most, lemma_difference_about, lemma_normal,
    lemma_over, lemma_times_adds, lemma_times_associates, lemma_times_commutes, lemma_times_one, lemma_times_positive,
    lemma_value_order, lemma_zero_value, normal, over, times, value,
};
use crate::float::{dec, lemma_one, whole, zero, F64};
use crate::float::errors::{allowance, lemma_within_more, size};
use crate::float::exact::lemma_sub_self;
use crate::float::nearness::lemma_parts;
use crate::float::tracking::{
    lemma_about_itself, lemma_about_over, lemma_about_plus, lemma_about_times, lemma_tracks_exact_product,
    lemma_tracks_itself, lemma_tracks_product, lemma_tracks_sum, lemma_whole_value, unlost,
};
use crate::numerics::Numerics;
use vstd::prelude::*;

verus! {

/// Warming by a heat over a capacity, multiplied out.
proof fn lemma_warmed(warm: real, cold: real, heat: real, capacity: real, flow: real, k: nat)
    requires
        about(warm, cold + over(heat, capacity), k),
        capacity > (0 as real),
        flow >= (0 as real),
    ensures
        about(times(warm, times(capacity, flow)), times(cold, times(capacity, flow)) + times(heat, flow), k),
{
    let all = times(capacity, flow);
    lemma_times_positive(capacity, flow);
    lemma_about_same(all);
    lemma_about_product(warm, cold + over(heat, capacity), all, all, k, 0);
    lemma_times_adds(cold, over(heat, capacity), all);
    lemma_over(heat, capacity);
    lemma_times_associates(over(heat, capacity), capacity, flow);
}

/// The intake of a cycle, no term of which is lost to underflow or overflow.
pub open spec fn intake_kept<M: Numerics>(
    math: &M,
    spec: &AirbreathingSpec,
    condition: &FlightCondition,
    drive: &CycleDriveInput,
) -> bool {
    let inlet = cycle_inlet(math, spec, condition, drive);
    let gas = whole(287) * condition.ambient_temp_k;
    let density = condition.ambient_pa / gas;
    &&& normal(inlet.mdot_air_kg_s) && normal(inlet.mdot_core_kg_s) && amount(inlet.bypass)
    &&& normal(whole(1) + inlet.bypass)
    &&& normal(condition.ambient_pa) && normal(condition.ambient_temp_k) && normal(gas) && normal(density)
    &&& normal(spec.intake_area_m2) && normal(density * spec.intake_area_m2) && normal(condition.airspeed_mps)
    &&& normal(density * spec.intake_area_m2 * condition.airspeed_mps)
}

/// Core and fan share the captured air by the bypass ratio: core flow and as many times
/// the bypass ratio make up all of it, to within two roundings. A cycle without a fan has
/// all of its air in the core. A passive intake captures no more than it sweeps up: air of
/// ambient density through its area at the airspeed, to within four.
pub proof fn lemma_intake_shares<M: Numerics>(
    math: &M,
    spec: &AirbreathingSpec,
    condition: &FlightCondition,
    drive: &CycleDriveInput,
)
    requires
        intake_kept(math, spec, condition, drive),
    ensures
        ({
            let inlet = cycle_inlet(math, spec, condition, drive);
            let (air, core) = (value(inlet.mdot_air_kg_s), value(inlet.mdot_core_kg_s));
            let bypass = if spec.cycle is Turbofan {
                value(spec.bypass_ratio)
            } else {
                0 as real
            };
            let density = over(value(condition.ambient_pa), times(287 as real, value(condition.ambient_temp_k)));
            &&& about(times(core, (1 as real) + bypass), air, 2)
            &&& spec.cycle.is_passive() ==> at_most(
                air,
                times(times(density, value(spec.intake_area_m2)), value(condition.airspeed_mps)),
                4,
            )
        }),
{
    let inlet = cycle_inlet(math, spec, condition, drive);
    let (air, total) = (inlet.mdot_air_kg_s, whole(1) + inlet.bypass);
    lemma_one();
    lemma_zero_value();
    lemma_normal(air);
    lemma_normal(inlet.mdot_core_kg_s);
    lemma_normal(total);
    lemma_whole_value(1);
    lemma_about_itself(whole(1));
    lemma_about_itself(inlet.bypass);
    lemma_about_itself(air);
    let b = value(inlet.bypass);
    lemma_amount(inlet.bypass);
    lemma_about_plus(whole(1), inlet.bypass, 1 as real, b, 0, 0);
    lemma_about_over(air, total, value(air), (1 as real) + b, 0, 1);
    lemma_about_same((1 as real) + b);
    lemma_about_product(
        value(inlet.mdot_core_kg_s),
        over(value(air), (1 as real) + b),
        (1 as real) + b,
        (1 as real) + b,
        2,
        0,
    );
    lemma_over(value(air), (1 as real) + b);
    if spec.cycle.is_passive() {
        let (pa, temp, area, speed) = (
            condition.ambient_pa,
            condition.ambient_temp_k,
            spec.intake_area_m2,
            condition.airspeed_mps,
        );
        let gas = whole(287) * temp;
        let density = pa / gas;
        lemma_normal(pa);
        lemma_normal(temp);
        lemma_normal(gas);
        lemma_normal(density);
        lemma_normal(area);
        lemma_normal(density * area);
        lemma_normal(speed);
        lemma_normal(density * area * speed);
        lemma_whole_value(287);
        lemma_about_itself(whole(287));
        lemma_about_itself(pa);
        lemma_about_itself(temp);
        lemma_about_itself(area);
        lemma_about_itself(speed);
        lemma_about_times(whole(287), temp, 287 as real, value(temp), 0, 0);
        lemma_times_positive(287 as real, value(temp));
        lemma_about_over(pa, gas, value(pa), times(287 as real, value(temp)), 0, 1);
        let d = over(value(pa), times(287 as real, value(temp)));
        lemma_about_times(density, area, d, value(area), 2, 0);
        lemma_about_times(density * area, speed, times(d, value(area)), value(speed), 3, 0);
        lemma_parts(speed);
        lemma_parts(zero());
        let available = density * area * speed;
        assert(speed.max(zero()) == speed);
        lemma_parts(air);
        lemma_parts(available);
        assert(air.units() <= available.units());
        lemma_value_order(air, available);
        lemma_at_most(value(available), times(times(d, value(area)), value(speed)), 4);
    }
}

/// The work of the compressors, no term of which is lost to underflow or overflow.
pub open spec fn work_kept(inlet: &Inlet, compression: &Compression) -> bool {
    let (core_rise, fan_rise) = (compression.t_comp_exit - inlet.compressor_temp_k, compression.t_fan_exit - inlet.t_ram);
    let cp = air_cp_j_kg_k();
    let work = cp * core_rise + if zero() < inlet.bypass {
        inlet.bypass * cp * fan_rise
    } else {
        zero()
    };
    &&& normal(cp) && normal(inlet.mdot_core_kg_s) && normal(core_rise) && normal(cp * core_rise)
    &&& compression.t_comp_exit.is_finite() && inlet.compressor_temp_k.is_finite()
    &&& inlet.compressor_temp_k <= compression.t_comp_exit
    &&& zero() < inlet.bypass ==> {
        &&& normal(inlet.bypass) && normal(fan_rise) && normal(inlet.bypass * cp) && normal(inlet.bypass * cp * fan_rise)
        &&& compression.t_fan_exit.is_finite() && inlet.t_ram.is_finite() && inlet.t_ram <= compression.t_fan_exit
    }
    &&& normal(work) && normal(inlet.mdot_core_kg_s * work)
}

/// The shaft is asked for the work of both compressors: the core flow warmed from the
/// compressor's face to its exit, and the bypass ratio's multiple of it warmed from the ram
/// temperature to the fan's exit, to within five roundings.
pub proof fn lemma_shaft_work<M: Numerics>(
    math: &M,
    spec: &AirbreathingSpec,
    condition: &FlightCondition,
    inlet: &Inlet,
    combustion: &Combustion,
    turbine: &TurbineExit,
    reheat: &Reheat,
)
    requires
        work_kept(inlet, &cycle_compression(math, spec, inlet)),
        zero() <= inlet.bypass,
    ensures
        ({
            let compression = cycle_compression(math, spec, inlet);
            let state = running_state(spec, condition, inlet, &compression, combustion, turbine, reheat);
            let (cp, core) = (value(air_cp_j_kg_k()), value(inlet.mdot_core_kg_s));
            let core_rise = value(compression.t_comp_exit) - value(inlet.compressor_temp_k);
            let fan_rise = value(compression.t_fan_exit) - value(inlet.t_ram);
            let fan = if zero() < inlet.bypass {
                times(times(value(inlet.bypass), cp), fan_rise)
            } else {
                0 as real
            };
            about(value(state.shaft_demand_w), times(core, times(cp, core_rise) + fan), 5)
        }),
{
    let compression = cycle_compression(math, spec, inlet);
    let cp = air_cp_j_kg_k();
    let rise = compression.t_comp_exit - inlet.compressor_temp_k;
    let (hot, cold) = (value(compression.t_comp_exit), value(inlet.compressor_temp_k));
    let core = inlet.mdot_core_kg_s;
    lemma_one();
    lemma_parts(zero());
    lemma_parts(inlet.bypass);
    lemma_zero_value();
    lemma_normal(cp);
    lemma_normal(core);
    lemma_normal(rise);
    lemma_normal(cp * rise);
    lemma_parts(compression.t_comp_exit);
    lemma_parts(inlet.compressor_temp_k);
    lemma_difference_about(compression.t_comp_exit, inlet.compressor_temp_k);
    lemma_about_itself(cp);
    lemma_about_itself(core);
    lemma_about_times(cp, rise, value(cp), hot - cold, 0, 1);
    lemma_about_more(value(cp * rise), times(value(cp), hot - cold), 2, 3);
    let first = times(value(cp), hot - cold);
    if zero() < inlet.bypass {
        let lift = compression.t_fan_exit - inlet.t_ram;
        let (b, up) = (inlet.bypass, value(compression.t_fan_exit) - value(inlet.t_ram));
        lemma_normal(b);
        lemma_normal(lift);
        lemma_normal(b * cp);
        lemma_normal(b * cp * lift);
        lemma_parts(compression.t_fan_exit);
        lemma_parts(inlet.t_ram);
        lemma_difference_about(compression.t_fan_exit, inlet.t_ram);
        lemma_about_itself(b);
        lemma_about_times(b, cp, value(b), value(cp), 0, 0);
        lemma_about_times(b * cp, lift, times(value(b), value(cp)), up, 1, 1);
        let second = times(times(value(b), value(cp)), up);
        lemma_about_plus(cp * rise, b * cp * lift, first, second, 3, 3);
        let work = cp * rise + b * cp * lift;
        lemma_normal(work);
        lemma_about_times(core, work, value(core), first + second, 0, 4);
    } else {
        lemma_about_itself(zero());
        lemma_about_more(0 as real, 0 as real, 0, 3);
        lemma_about_plus(cp * rise, zero(), first, 0 as real, 3, 3);
        let work = cp * rise + zero();
        lemma_normal(work);
        lemma_about_times(core, work, value(core), first + (0 as real), 0, 4);
    }
}

/// The turbine pays for the compressors: its drop in temperature, times the heat capacity
/// and the flow through the rotor for a unit of core flow, is the work of compressor and
/// fan, to within three roundings.
pub proof fn lemma_rotor_work(compression: &Compression, combustion: &Combustion)
    requires
        normal(combustion.cp),
        normal(rotor_ratio(combustion)),
        normal(combustion.cp * rotor_ratio(combustion)),
        amount(compression.work_comp),
        amount(compression.work_fan),
        normal(compression.work_comp + compression.work_fan),
        normal(rotor_drop_k(compression, combustion)),
    ensures
        about(
            times(
                value(rotor_drop_k(compression, combustion)),
                times(value(combustion.cp), value(rotor_ratio(combustion))),
            ),
            value(compression.work_comp) + value(compression.work_fan),
            3,
        ),
{
    let (cp, ratio) = (combustion.cp, rotor_ratio(combustion));
    let (a, b) = (compression.work_comp, compression.work_fan);
    lemma_normal(cp);
    lemma_normal(ratio);
    lemma_normal(cp * ratio);
    lemma_normal(a + b);
    lemma_about_itself(cp);
    lemma_about_itself(ratio);
    lemma_about_itself(a);
    lemma_about_itself(b);
    let both = times(value(cp), value(ratio));
    lemma_times_positive(value(cp), value(ratio));
    lemma_about_times(cp, ratio, value(cp), value(ratio), 0, 0);
    lemma_about_plus(a, b, value(a), value(b), 0, 0);
    lemma_about_over(a + b, cp * ratio, value(a) + value(b), both, 1, 1);
    lemma_about_same(both);
    lemma_over(value(a) + value(b), both);
    lemma_about_product(value((a + b) / (cp * ratio)), over(value(a) + value(b), both), both, both, 3, 0);
}

/// Plain combustion, no term of which is lost to underflow or overflow.
pub open spec fn burning_kept(
    combustion: Combustion,
    core: F64,
    compressed_k: F64,
    burnt_share: F64,
    lhv: F64,
) -> bool {
    let (eta, cp, f) = (combustor_efficiency(), air_cp_j_kg_k(), combustion.fuel_air);
    &&& normal(eta) && normal(cp) && normal(f) && normal(lhv) && normal(core) && normal(burnt_share)
    &&& normal(compressed_k)
    &&& normal(f * core) && normal(combustion.fuel_flow_kg_s) && normal(combustion.fuel_flow_kg_s * eta)
    &&& normal(combustion.heat_release_w) && normal(f * eta) && normal(f * eta * lhv) && normal(f * eta * lhv / cp)
    &&& normal(combustion.turbine_temp_k)
}

/// Fuel burns to heat, and the heat warms the air it burns in. Without a precooler, the heat
/// release is the fuel flow at its heating value and the combustor's efficiency, to within
/// two roundings; and the air of the combustor, the core flow less its bleeds, gains it
/// between compressor exit and turbine inlet, to within eight.
pub proof fn lemma_combustor_heat(
    spec: &AirbreathingSpec,
    fuel: (F64, F64, F64, F64, F64, F64),
    condition: &FlightCondition,
    turbine_temp_k: F64,
    drive: &CycleDriveInput,
    inlet: &Inlet,
    compression: &Compression,
)
    requires
        drive.conditioning is None,
        ({
            let combustion = cycle_combustion(spec, fuel, condition, turbine_temp_k, drive, inlet, compression);
            burning_kept(
                combustion,
                inlet.mdot_core_kg_s,
                compression.t_comp_exit,
                whole(1) - combustion.bleed - customer_bleed_fraction(),
                fuel.0,
            )
        }),
    ensures
        ({
            let combustion = cycle_combustion(spec, fuel, condition, turbine_temp_k, drive, inlet, compression);
            let (eta, cp, lhv) = (value(combustor_efficiency()), value(air_cp_j_kg_k()), value(fuel.0));
            let air = times(
                value(inlet.mdot_core_kg_s),
                value(whole(1) - combustion.bleed - customer_bleed_fraction()),
            );
            let heat = value(combustion.heat_release_w);
            &&& about(heat, times(times(value(combustion.fuel_flow_kg_s), eta), lhv), 2)
            &&& about(
                times(value(combustion.turbine_temp_k), times(cp, air)),
                times(value(compression.t_comp_exit), times(cp, air)) + heat,
                8,
            )
        }),
{
    let combustion = cycle_combustion(spec, fuel, condition, turbine_temp_k, drive, inlet, compression);
    let (eta, cp, f, lhv) = (combustor_efficiency(), air_cp_j_kg_k(), combustion.fuel_air, fuel.0);
    let (core, share) = (inlet.mdot_core_kg_s, whole(1) - combustion.bleed - customer_bleed_fraction());
    let (flow, heat, cold) = (combustion.fuel_flow_kg_s, combustion.heat_release_w, compression.t_comp_exit);
    lemma_one();
    lemma_sub_self(zero());
    assert(flow == f * core * share);
    assert(heat == flow * eta * lhv);
    assert(combustion.turbine_temp_k == cold + f * eta * lhv / cp);
    lemma_normal(eta);
    lemma_normal(cp);
    lemma_normal(f);
    lemma_normal(lhv);
    lemma_normal(core);
    lemma_normal(share);
    lemma_normal(cold);
    lemma_normal(f * core);
    lemma_normal(flow);
    lemma_normal(flow * eta);
    lemma_normal(f * eta);
    lemma_normal(f * eta * lhv);
    lemma_normal(f * eta * lhv / cp);
    lemma_about_itself(eta);
    lemma_about_itself(cp);
    lemma_about_itself(f);
    lemma_about_itself(lhv);
    lemma_about_itself(core);
    lemma_about_itself(share);
    lemma_about_itself(cold);
    lemma_about_itself(flow);
    let (e, c, x, l, m, s) = (value(eta), value(cp), value(f), value(lhv), value(core), value(share));
    lemma_about_times(flow, eta, value(flow), e, 0, 0);
    lemma_about_times(flow * eta, lhv, times(value(flow), e), l, 1, 0);
    // The warming.
    lemma_about_times(f, eta, x, e, 0, 0);
    lemma_about_times(f * eta, lhv, times(x, e), l, 1, 0);
    let gain = times(times(x, e), l);
    lemma_about_over(f * eta * lhv, cp, gain, c, 2, 0);
    lemma_about_plus(cold, f * eta * lhv / cp, value(cold), over(gain, c), 0, 3);
    let air = times(m, s);
    lemma_times_positive(m, s);
    lemma_warmed(value(combustion.turbine_temp_k), value(cold), gain, c, air, 4);
    // The heat, through the fuel flow.
    lemma_about_times(f, core, x, m, 0, 0);
    lemma_about_times(f * core, share, times(x, m), s, 1, 0);
    let ideal = times(times(x, m), s);
    lemma_about_same(e);
    lemma_about_same(l);
    lemma_about_product(value(flow), ideal, e, e, 2, 0);
    lemma_about_product(times(value(flow), e), times(ideal, e), l, l, 2, 0);
    lemma_about_chain(value(heat), times(times(value(flow), e), l), times(times(ideal, e), l), 2, 2);
    lemma_gathered(x, m, s, e, l);
    lemma_about_turned(value(heat), times(gain, air), 4);
    let base = times(value(cold), times(c, air));
    lemma_times_positive(c, air);
    lemma_times_positive(value(cold), times(c, air));
    lemma_about_same(base);
    lemma_about_more(base, base, 0, 4);
    lemma_about_sum(base, base, times(gain, air), value(heat), 4);
    lemma_about_chain(
        times(value(combustion.turbine_temp_k), times(c, air)),
        base + times(gain, air),
        base + value(heat),
        4,
        4,
    );
}

/// A product gathered another way.
proof fn lemma_gathered(x: real, m: real, s: real, e: real, l: real)
    ensures
        times(times(times(times(x, m), s), e), l) == times(times(times(x, e), l), times(m, s)),
{
    let air = times(m, s);
    lemma_times_associates(x, m, s);
    // ((x air) e) l == (x air) (e l) == (e l) (x air) ... == ((x e) l) air
    lemma_times_associates(times(x, air), e, l);
    lemma_times_associates(x, air, times(e, l));
    lemma_times_commutes(air, times(e, l));
    lemma_times_associates(x, times(e, l), air);
    lemma_times_associates(x, e, l);
}

/// Reheat, no term of which is lost to underflow or overflow.
pub open spec fn reheat_kept(reheat: Reheat, stream: F64, share: F64, turbine_k: F64, cp: F64, lhv: F64) -> bool {
    let eta = combustor_efficiency();
    &&& normal(eta) && normal(cp) && normal(lhv) && normal(stream) && normal(share) && normal(turbine_k)
    &&& normal(reheat.fuel_ab_flow_kg_s) && normal(share * eta) && normal(share * eta * lhv)
    &&& normal(share * eta * lhv / cp) && normal(reheat.t_nozzle)
}

/// The afterburner's heat warms the stream that leaves the turbine: the fuel it burns, at its
/// heating value and the combustor's efficiency, is what the stream gains between turbine
/// and nozzle, to within five roundings. Here `share` is the fuel of a unit of the stream.
pub proof fn lemma_reheat_heat(
    spec: &AirbreathingSpec,
    fuel: (F64, F64, F64, F64, F64, F64),
    drive: &CycleDriveInput,
    inlet: &Inlet,
    combustion: &Combustion,
    turbine: &TurbineExit,
) -> (r: (F64, F64))
    requires
        spec.afterburner,
        zero() < inlet.mdot_core_kg_s,
    ensures
        ({
            let (stream, share) = r;
            let reheat = cycle_reheat(spec, fuel, drive, inlet, combustion, turbine);
            let cp = fuel.3 * fuel.4 / (fuel.3 - whole(1));
            &&& stream == inlet.mdot_core_kg_s * (turbine.rotor_flow_ratio + combustion.bleed)
                + combustion.fuel_flow_kg_s + combustion.boost_fuel_flow_kg_s
            &&& reheat.fuel_ab_flow_kg_s == share * stream
            &&& reheat_kept(reheat, stream, share, turbine.t_turb_exit, cp, fuel.0) ==> about(
                times(value(reheat.t_nozzle), times(value(cp), value(stream))),
                times(value(turbine.t_turb_exit), times(value(cp), value(stream))) + times(
                    times(value(reheat.fuel_ab_flow_kg_s), value(combustor_efficiency())),
                    value(fuel.0),
                ),
                5,
            )
        }),
{
    let reheat = cycle_reheat(spec, fuel, drive, inlet, combustion, turbine);
    let cp = fuel.3 * fuel.4 / (fuel.3 - whole(1));
    let (eta, lhv) = (combustor_efficiency(), fuel.0);
    let boost_o2 = match drive.conditioning {
        Some(input) => input.boost_fuel.properties().2,
        None => zero(),
    };
    let used = combustion.fuel_flow_kg_s * fuel.2 + combustion.boost_fuel_flow_kg_s * boost_o2;
    let left = (combustion.o2_avail_kg_s - used + inlet.mdot_core_kg_s * combustion.bleed
        * combustion.o2_mass_fraction).max(zero());
    let stream = inlet.mdot_core_kg_s * (turbine.rotor_flow_ratio + combustion.bleed) + combustion.fuel_flow_kg_s
        + combustion.boost_fuel_flow_kg_s;
    let want = cp * (spec.reheat_temp_k - turbine.t_turb_exit).max(zero()) / (eta * lhv);
    let cap = if stream > zero() {
        left / (stream * fuel.2)
    } else {
        zero()
    };
    let share = want.min(cap);
    if reheat_kept(reheat, stream, share, turbine.t_turb_exit, cp, lhv) {
        let (e, l, c, f, m) = (value(eta), value(lhv), value(cp), value(share), value(stream));
        let cold = value(turbine.t_turb_exit);
        lemma_normal(eta);
        lemma_normal(lhv);
        lemma_normal(cp);
        lemma_normal(share);
        lemma_normal(stream);
        lemma_normal(turbine.t_turb_exit);
        lemma_normal(share * eta);
        lemma_normal(share * eta * lhv);
        lemma_normal(share * eta * lhv / cp);
        lemma_about_itself(eta);
        lemma_about_itself(lhv);
        lemma_about_itself(cp);
        lemma_about_itself(share);
        lemma_about_itself(stream);
        lemma_about_itself(turbine.t_turb_exit);
        lemma_about_times(share, eta, f, e, 0, 0);
        lemma_about_times(share * eta, lhv, times(f, e), l, 1, 0);
        let gain = times(times(f, e), l);
        lemma_about_over(share * eta * lhv, cp, gain, c, 2, 0);
        lemma_about_plus(turbine.t_turb_exit, share * eta * lhv / cp, cold, over(gain, c), 0, 3);
        lemma_warmed(value(reheat.t_nozzle), cold, gain, c, m, 4);
        // gain m == f m e l ~ fuel e l
        let fuel_flow = value(reheat.fuel_ab_flow_kg_s);
        lemma_about_times(share, stream, f, m, 0, 0);
        lemma_about_same(e);
        lemma_about_same(l);
        lemma_about_product(fuel_flow, times(f, m), e, e, 1, 0);
        lemma_about_product(times(fuel_flow, e), times(times(f, m), e), l, l, 1, 0);
        lemma_times_associates(times(f, m), e, l);
        lemma_times_associates(f, m, times(e, l));
        lemma_times_commutes(m, times(e, l));
        lemma_times_associates(f, times(e, l), m);
        lemma_times_associates(f, e, l);
        let heat = times(times(fuel_flow, e), l);
        lemma_about_turned(heat, times(gain, m), 1);
        let base = times(cold, times(c, m));
        lemma_times_positive(c, m);
        lemma_times_positive(cold, times(c, m));
        lemma_about_same(base);
        lemma_about_more(base, base, 0, 1);
        lemma_about_sum(base, base, times(gain, m), heat, 1);
        lemma_about_chain(times(value(reheat.t_nozzle), times(c, m)), base + times(gain, m), base + heat, 4, 1);
    }
    (stream, share)
}

/// A spool at rest compresses nothing, and one at full speed by its whole ratio: the
/// compressor's gain in pressure over one grows with the square of the speed, and its exit
/// pressure is that at its face times its gain, up to forty-eight roundings of the terms.
pub proof fn lemma_compressor_pressure<M: Numerics>(math: &M, spec: &AirbreathingSpec, inlet: &Inlet)
    requires
        ({
            let (n, r) = (inlet.spool_n, spec.compressor_ratio);
            let gain = whole(1) + (r - whole(1)) * n * n;
            &&& n.is_finite() && r.is_finite() && (r - whole(1)).is_finite() && unlost(r - whole(1), n)
            &&& unlost((r - whole(1)) * n, n) && gain.is_finite()
            &&& inlet.p_ram.is_finite() && inlet.pressure_recovery.is_finite()
            &&& unlost(inlet.p_ram, inlet.pressure_recovery) && unlost(inlet.p_ram * inlet.pressure_recovery, gain)
        }),
        !(spec.cycle is Ramjet),
        !(spec.cycle is Scramjet),
    ensures
        ({
            let (n, r) = (value(inlet.spool_n), value(spec.compressor_ratio));
            let face = times(value(inlet.p_ram), value(inlet.pressure_recovery));
            let gain = (1 as real) + times(times(r - (1 as real), n), n);
            let bound = (1 as real) + times(times(size(r) + (1 as real), size(n)), size(n));
            let exit = cycle_compression(math, spec, inlet).p_comp_exit;
            size(value(exit) - times(face, gain)) <= times(times(size(face), bound), allowance(48))
        }),
{
    let (n, r) = (inlet.spool_n, spec.compressor_ratio);
    let (over_one, x, one) = (r - whole(1), value(n), 1 as real);
    let gain = whole(1) + over_one * n * n;
    lemma_whole_value(1);
    lemma_tracks_itself(n);
    lemma_tracks_itself(r);
    lemma_tracks_sum(r, whole(1), value(r), one, size(value(r)), one, 0, 0);
    lemma_tracks_product(over_one, n, value(r) - one, x, size(value(r)) + one, size(x), 4, 0);
    let (first, bound) = (times(value(r) - one, x), times(size(value(r)) + one, size(x)));
    lemma_tracks_product(over_one * n, n, first, x, bound, size(x), 12, 0);
    lemma_tracks_sum(whole(1), over_one * n * n, one, times(first, x), one, times(bound, size(x)), 0, 28);
    let (p, q) = (inlet.p_ram, inlet.pressure_recovery);
    let face = times(value(p), value(q));
    lemma_tracks_exact_product(p, q);
    lemma_tracks_product(
        p * q,
        gain,
        face,
        one + times(first, x),
        size(face),
        one + times(bound, size(x)),
        4,
        32,
    );
    let scale = times(size(face), one + times(bound, size(x)));
    lemma_within_more(value(p * q * gain), times(face, one + times(first, x)), scale, 44, scale, 48);
}

/// What a running cycle's nozzle passes, no term of which is lost to underflow or overflow.
pub open spec fn passed_kept(inlet: &Inlet, combustion: &Combustion, turbine: &TurbineExit, reheat: &Reheat) -> bool {
    let share = turbine.rotor_flow_ratio + combustion.bleed;
    let core = inlet.mdot_core_kg_s * share;
    let (fuel, boost, ab) = (
        combustion.fuel_flow_kg_s,
        combustion.boost_fuel_flow_kg_s,
        reheat.fuel_ab_flow_kg_s,
    );
    &&& amount(inlet.mdot_core_kg_s) && amount(share) && normal(share) && normal(core) && amount(turbine.rotor_flow_ratio)
    &&& amount(combustion.bleed) && amount(fuel) && amount(boost) && amount(ab)
    &&& normal(core + fuel) && normal(core + fuel + boost) && normal(core + fuel + boost + ab)
}

/// The core's nozzle passes all that is burnt: the rotor's and the cooling air's share of
/// the core flow, and the fuel of combustor, precooler and afterburner besides, to within
/// five roundings. The cycle's flows are its parts' own, its hot stream comes from the
/// afterburner and its cold one from the fan.
pub proof fn lemma_nozzle_flow(
    spec: &AirbreathingSpec,
    condition: &FlightCondition,
    inlet: &Inlet,
    compression: &Compression,
    combustion: &Combustion,
    turbine: &TurbineExit,
    reheat: &Reheat,
)
    requires
        passed_kept(inlet, combustion, turbine, reheat),
    ensures
        ({
            let state = running_state(spec, condition, inlet, compression, combustion, turbine, reheat);
            let core = times(
                value(inlet.mdot_core_kg_s),
                value(turbine.rotor_flow_ratio) + value(combustion.bleed),
            );
            &&& about(
                value(state.nozzle_flow_kg_s),
                core + value(state.fuel_flow_kg_s) + value(state.boost_fuel_flow_kg_s) + value(state.fuel_ab_flow_kg_s),
                5,
            )
            &&& state.fuel_flow_kg_s == combustion.fuel_flow_kg_s
            &&& state.boost_fuel_flow_kg_s == combustion.boost_fuel_flow_kg_s
            &&& state.fuel_ab_flow_kg_s == reheat.fuel_ab_flow_kg_s
            &&& state.mdot_air_kg_s == inlet.mdot_air_kg_s && state.mdot_core_kg_s == inlet.mdot_core_kg_s
            &&& state.core_total_temp_k == reheat.t_nozzle && state.core_total_pressure_pa == reheat.p_nozzle
            &&& state.fan_total_temp_k == compression.t_fan_exit
            &&& state.fan_total_pressure_pa == compression.p_fan_exit
            &&& state.precooler_heat_flow_w == combustion.coolant_heat_flow_w + combustion.wall_heat_flow_w
        }),
{
    let share = turbine.rotor_flow_ratio + combustion.bleed;
    let core = inlet.mdot_core_kg_s * share;
    let (fuel, boost, ab) = (
        combustion.fuel_flow_kg_s,
        combustion.boost_fuel_flow_kg_s,
        reheat.fuel_ab_flow_kg_s,
    );
    lemma_about_itself(inlet.mdot_core_kg_s);
    lemma_about_itself(turbine.rotor_flow_ratio);
    lemma_about_itself(combustion.bleed);
    lemma_about_itself(fuel);
    lemma_about_itself(boost);
    lemma_about_itself(ab);
    let exact = value(turbine.rotor_flow_ratio) + value(combustion.bleed);
    lemma_about_plus(
        turbine.rotor_flow_ratio,
        combustion.bleed,
        value(turbine.rotor_flow_ratio),
        value(combustion.bleed),
        0,
        0,
    );
    lemma_about_times(inlet.mdot_core_kg_s, share, value(inlet.mdot_core_kg_s), exact, 0, 1);
    let ideal = times(value(inlet.mdot_core_kg_s), exact);
    lemma_normal(core);
    lemma_normal(core + fuel);
    lemma_normal(core + fuel + boost);
    lemma_about_plus(core, fuel, ideal, value(fuel), 2, 0);
    lemma_about_plus(core + fuel, boost, ideal + value(fuel), value(boost), 3, 0);
    lemma_about_plus(core + fuel + boost, ab, ideal + value(fuel) + value(boost), value(ab), 4, 0);
}

/// Combustion with a boost fuel, no term of which is lost to underflow or overflow.
pub open spec fn boosted_kept(
    combustion: Combustion,
    core: F64,
    compressed_k: F64,
    lhv: F64,
    boost_lhv: F64,
) -> bool {
    let (eta, cp) = (combustor_efficiency(), air_cp_j_kg_k());
    let (bulk, boost) = (combustion.fuel_flow_kg_s * lhv, combustion.boost_fuel_flow_kg_s * boost_lhv);
    &&& normal(eta) && normal(cp) && normal(lhv) && normal(boost_lhv) && normal(compressed_k) && normal(core)
    &&& normal(combustion.fuel_flow_kg_s) && normal(combustion.boost_fuel_flow_kg_s)
    &&& normal(bulk) && normal(boost) && normal(bulk + boost) && normal(eta * (bulk + boost))
    &&& amount(combustion.coolant_heat_flow_w) && normal(combustion.heat_release_w)
    &&& core.max(dec(1, 12)) == core && normal(cp * core) && normal(combustion.heat_release_w / (cp * core))
    &&& normal(combustion.turbine_temp_k)
}

/// A precooled combustor burns both fuels and gives back the coolant's heat: the heat release
/// is both flows at their heating values and the combustor's efficiency, and the heat that
/// the boost fuel brought along, to within four roundings; and the core flow gains all of it
/// between compressor exit and turbine inlet, to within three.
pub proof fn lemma_boosted_heat(
    spec: &AirbreathingSpec,
    fuel: (F64, F64, F64, F64, F64, F64),
    condition: &FlightCondition,
    turbine_temp_k: F64,
    drive: &CycleDriveInput,
    inlet: &Inlet,
    compression: &Compression,
    input: AirCycleConditioning,
)
    requires
        drive.conditioning == Some(input),
        drive.ignition,
        !scramjet_blocked(spec, condition),
        input.boost_fuel_flow_kg_s > zero(),
        boosted_kept(
            cycle_combustion(spec, fuel, condition, turbine_temp_k, drive, inlet, compression),
            inlet.mdot_core_kg_s,
            compression.t_comp_exit,
            fuel.0,
            input.boost_fuel.properties().0,
        ),
    ensures
        ({
            let combustion = cycle_combustion(spec, fuel, condition, turbine_temp_k, drive, inlet, compression);
            let (eta, cp) = (value(combustor_efficiency()), value(air_cp_j_kg_k()));
            let (bulk, boost) = (
                times(value(combustion.fuel_flow_kg_s), value(fuel.0)),
                times(value(combustion.boost_fuel_flow_kg_s), value(input.boost_fuel.properties().0)),
            );
            let (heat, core) = (value(combustion.heat_release_w), value(inlet.mdot_core_kg_s));
            &&& about(heat, times(eta, bulk + boost) + value(combustion.coolant_heat_flow_w), 4)
            &&& about(
                times(value(combustion.turbine_temp_k), times(cp, core)),
                times(value(compression.t_comp_exit), times(cp, core)) + heat,
                3,
            )
        }),
{
    let combustion = cycle_combustion(spec, fuel, condition, turbine_temp_k, drive, inlet, compression);
    let (eta, cp, lhv, other) = (
        combustor_efficiency(),
        air_cp_j_kg_k(),
        fuel.0,
        input.boost_fuel.properties().0,
    );
    let (flow, extra, core) = (combustion.fuel_flow_kg_s, combustion.boost_fuel_flow_kg_s, inlet.mdot_core_kg_s);
    let (heat, cold, back) = (combustion.heat_release_w, compression.t_comp_exit, combustion.coolant_heat_flow_w);
    assert(heat == eta * (flow * lhv + extra * other) + back);
    assert(combustion.turbine_temp_k == cold + heat / (cp * core));
    lemma_normal(eta);
    lemma_normal(cp);
    lemma_normal(lhv);
    lemma_normal(other);
    lemma_normal(cold);
    lemma_normal(core);
    lemma_normal(flow);
    lemma_normal(extra);
    lemma_normal(flow * lhv);
    lemma_normal(extra * other);
    lemma_normal(flow * lhv + extra * other);
    lemma_normal(eta * (flow * lhv + extra * other));
    lemma_normal(heat);
    lemma_normal(cp * core);
    lemma_normal(heat / (cp * core));
    lemma_about_itself(eta);
    lemma_about_itself(cp);
    lemma_about_itself(lhv);
    lemma_about_itself(other);
    lemma_about_itself(cold);
    lemma_about_itself(core);
    lemma_about_itself(flow);
    lemma_about_itself(extra);
    lemma_about_itself(back);
    lemma_about_itself(heat);
    let (bulk, boost) = (times(value(flow), value(lhv)), times(value(extra), value(other)));
    lemma_about_times(flow, lhv, value(flow), value(lhv), 0, 0);
    lemma_about_times(extra, other, value(extra), value(other), 0, 0);
    lemma_about_plus(flow * lhv, extra * other, bulk, boost, 1, 1);
    lemma_about_times(eta, flow * lhv + extra * other, value(eta), bulk + boost, 0, 2);
    lemma_about_plus(
        eta * (flow * lhv + extra * other),
        back,
        times(value(eta), bulk + boost),
        value(back),
        3,
        0,
    );
    let c = times(value(cp), value(core));
    lemma_times_positive(value(cp), value(core));
    lemma_about_times(cp, core, value(cp), value(core), 0, 0);
    lemma_about_over(heat, cp * core, value(heat), c, 0, 1);
    lemma_about_plus(cold, heat / (cp * core), value(cold), over(value(heat), c), 0, 2);
    lemma_warmed(value(combustion.turbine_temp_k), value(cold), value(heat), c, 1 as real, 3);
    lemma_times_one(c);
    lemma_times_one(value(heat));
}

/// No fuel burns without its oxygen. Without a precooler, the fuel of a unit of combustor air
/// is no more than its oxygen can burn, and none at all without ignition; and where the
/// combustor is not short of oxygen, it burns what its temperature asks for.
pub proof fn lemma_oxygen_bound(
    spec: &AirbreathingSpec,
    fuel: (F64, F64, F64, F64, F64, F64),
    condition: &FlightCondition,
    turbine_temp_k: F64,
    drive: &CycleDriveInput,
    inlet: &Inlet,
    compression: &Compression,
)
    requires
        drive.conditioning is None,
        ({
            let combustion = cycle_combustion(spec, fuel, condition, turbine_temp_k, drive, inlet, compression);
            let air = inlet.mdot_core_kg_s * (whole(1) - combustion.bleed - customer_bleed_fraction());
            &&& air > zero()
            &&& !combustion.f_for_tit.is_nan()
            &&& !(combustion.o2_avail_kg_s / (air * fuel.2)).is_nan()
        }),
    ensures
        ({
            let combustion = cycle_combustion(spec, fuel, condition, turbine_temp_k, drive, inlet, compression);
            let air = inlet.mdot_core_kg_s * (whole(1) - combustion.bleed - customer_bleed_fraction());
            let cap = combustion.o2_avail_kg_s / (air * fuel.2);
            let burns = drive.ignition && !scramjet_blocked(spec, condition);
            &&& combustion.o2_avail_kg_s == air * condition.composition.oxygen_mass_fraction
            &&& burns ==> combustion.fuel_air <= cap
            &&& !burns ==> combustion.fuel_air == zero()
            &&& burns && !combustion.oxygen_limited && zero() < combustion.f_for_tit ==> combustion.fuel_air.same(
                combustion.f_for_tit,
            )
            &&& combustion.oxygen_limited ==> cap < combustion.f_for_tit
        }),
{
    let combustion = cycle_combustion(spec, fuel, condition, turbine_temp_k, drive, inlet, compression);
    let air = inlet.mdot_core_kg_s * (whole(1) - combustion.bleed - customer_bleed_fraction());
    let cap = combustion.o2_avail_kg_s / (air * fuel.2);
    lemma_one();
    lemma_parts(zero());
    lemma_parts(cap);
    lemma_parts(combustion.f_for_tit);
}

/// A fan's exit pressure is the ram pressure times its gain, less what its duct loses: its
/// gain over one grows with the square of the spool's speed, and there is none without a
/// bypass. It holds up to a hundred roundings of the terms.
pub proof fn lemma_fan_pressure<M: Numerics>(math: &M, spec: &AirbreathingSpec, inlet: &Inlet)
    requires
        ({
            let (n, r) = (inlet.spool_n, spec.fan_pressure_ratio);
            let gain = whole(1) + (r - whole(1)) * n * n;
            &&& zero() < inlet.bypass && n.is_finite() && r.is_finite() && (r - whole(1)).is_finite()
            &&& unlost(r - whole(1), n) && unlost((r - whole(1)) * n, n) && gain.is_finite() && inlet.p_ram.is_finite()
            &&& unlost(inlet.p_ram, gain) && dec(98, 2).is_finite() && unlost(inlet.p_ram * gain, dec(98, 2))
        }),
    ensures
        ({
            let (n, r, ram) = (value(inlet.spool_n), value(spec.fan_pressure_ratio), value(inlet.p_ram));
            let gain = (1 as real) + times(times(r - (1 as real), n), n);
            let bound = (1 as real) + times(times(size(r) + (1 as real), size(n)), size(n));
            let keep = value(dec(98, 2));
            let exit = cycle_compression(math, spec, inlet).p_fan_exit;
            size(value(exit) - times(times(ram, gain), keep)) <= times(
                times(times(size(ram), bound), size(keep)),
                allowance(100),
            )
        }),
{
    let (n, r) = (inlet.spool_n, spec.fan_pressure_ratio);
    let (over_one, x, one) = (r - whole(1), value(n), 1 as real);
    let gain = whole(1) + over_one * n * n;
    lemma_one();
    lemma_whole_value(1);
    lemma_tracks_itself(n);
    lemma_tracks_itself(r);
    lemma_tracks_itself(dec(98, 2));
    lemma_tracks_itself(inlet.p_ram);
    lemma_tracks_sum(r, whole(1), value(r), one, size(value(r)), one, 0, 0);
    lemma_tracks_product(over_one, n, value(r) - one, x, size(value(r)) + one, size(x), 4, 0);
    let (first, bound) = (times(value(r) - one, x), times(size(value(r)) + one, size(x)));
    lemma_tracks_product(over_one * n, n, first, x, bound, size(x), 12, 0);
    lemma_tracks_sum(whole(1), over_one * n * n, one, times(first, x), one, times(bound, size(x)), 0, 28);
    let (ram, keep) = (value(inlet.p_ram), value(dec(98, 2)));
    let (ideal, most) = (one + times(first, x), one + times(bound, size(x)));
    lemma_tracks_product(inlet.p_ram, gain, ram, ideal, size(ram), most, 0, 32);
    lemma_tracks_product(
        inlet.p_ram * gain,
        dec(98, 2),
        times(ram, ideal),
        keep,
        times(size(ram), most),
        size(keep),
        36,
        0,
    );
    let scale = times(times(size(ram), most), size(keep));
    lemma_within_more(
        value(inlet.p_ram * gain * dec(98, 2)),
        times(times(ram, ideal), keep),
        scale,
        76,
        scale,
        100,
    );
}

/// Cooling air joins the stream behind the rotor: where `share` of the stream is cooling air
/// at the compressor's exit temperature, the turbine's exit temperature is the mean, so
/// weighted, of that and of the turbine's inlet temperature less the rotor's drop, up to
/// twenty roundings of the terms.
pub proof fn lemma_turbine_mixing<M: Numerics>(
    math: &M,
    condition: &FlightCondition,
    drive: &CycleDriveInput,
    inlet: &Inlet,
    compression: &Compression,
    combustion: &Combustion,
)
    requires
        ({
            let drop = rotor_drop_k(compression, combustion);
            let (hot, cold) = (combustion.turbine_temp_k - drop, compression.t_comp_exit);
            let share = combustion.bleed / rotor_ratio(combustion).max(dec(1, 12));
            &&& combustion.turbine_temp_k.is_finite() && drop.is_finite() && hot.is_finite() && cold.is_finite()
            &&& share.is_finite() && (whole(1) - share).is_finite() && unlost(hot, whole(1) - share)
            &&& unlost(cold, share) && (hot * (whole(1) - share) + cold * share).is_finite()
        }),
    ensures
        ({
            let exit = cycle_turbine(math, condition, drive, inlet, compression, combustion);
            let (top, drop, cold) = (
                value(combustion.turbine_temp_k),
                value(rotor_drop_k(compression, combustion)),
                value(compression.t_comp_exit),
            );
            let share = value(combustion.bleed / rotor_ratio(combustion).max(dec(1, 12)));
            let mean = times(top - drop, (1 as real) - share) + times(cold, share);
            let bound = times(size(top) + size(drop), (1 as real) + size(share)) + size(times(cold, share));
            &&& size(value(exit.t_turb_exit) - mean) <= times(bound, allowance(20))
            &&& exit.rotor_flow_ratio == rotor_ratio(combustion)
        }),
{
    let drop = rotor_drop_k(compression, combustion);
    let (hot, cold) = (combustion.turbine_temp_k - drop, compression.t_comp_exit);
    let share = combustion.bleed / rotor_ratio(combustion).max(dec(1, 12));
    let (top, d, s, one) = (value(combustion.turbine_temp_k), value(drop), value(share), 1 as real);
    lemma_whole_value(1);
    lemma_tracks_itself(combustion.turbine_temp_k);
    lemma_tracks_itself(drop);
    lemma_tracks_itself(share);
    lemma_tracks_sum(combustion.turbine_temp_k, drop, top, d, size(top), size(d), 0, 0);
    lemma_tracks_sum(whole(1), share, one, s, one, size(s), 0, 0);
    lemma_tracks_product(hot, whole(1) - share, top - d, one - s, size(top) + size(d), one + size(s), 4, 4);
    lemma_tracks_exact_product(cold, share);
    let (first, second) = (times(top - d, one - s), times(value(cold), s));
    lemma_tracks_sum(
        hot * (whole(1) - share),
        cold * share,
        first,
        second,
        times(size(top) + size(d), one + size(s)),
        size(second),
        16,
        4,
    );
}

/// A power turbine cools the stream by what it takes off: the hot flow's heat capacity at the
/// turbine's efficiency, times its drop in temperature, is the power taken, to within three
/// roundings; the exit temperature is lower by that drop, and the flow unchanged. Without a
/// load nothing changes.
pub proof fn lemma_takeoff<M: Numerics>(
    math: &M,
    drive: &CycleDriveInput,
    combustion: &Combustion,
    turbine: &TurbineExit,
)
    requires
        ({
            let (flow, cp, eta) = (turbine.hot_flow_kg_s, combustion.cp, turbine_poly_efficiency());
            &&& normal(drive.power_takeoff_w) && normal(flow) && normal(cp) && normal(eta) && normal(flow * cp)
            &&& normal(flow * cp * eta) && normal(drive.power_takeoff_w / (flow * cp * eta))
        }),
    ensures
        ({
            let after = after_takeoff(math, drive, combustion, turbine);
            let drop = drive.power_takeoff_w / (turbine.hot_flow_kg_s * combustion.cp * turbine_poly_efficiency());
            let rate = times(
                times(value(turbine.hot_flow_kg_s), value(combustion.cp)),
                value(turbine_poly_efficiency()),
            );
            &&& after.t_turb_exit == turbine.t_turb_exit - drop
            &&& about(times(value(drop), rate), value(drive.power_takeoff_w), 3)
            &&& after.hot_flow_kg_s == turbine.hot_flow_kg_s
            &&& after.rotor_flow_ratio == turbine.rotor_flow_ratio
        }),
{
    let (flow, cp, eta, load) = (
        turbine.hot_flow_kg_s,
        combustion.cp,
        turbine_poly_efficiency(),
        drive.power_takeoff_w,
    );
    lemma_one();
    lemma_normal(load);
    lemma_parts(load);
    lemma_normal(flow);
    lemma_normal(cp);
    lemma_normal(eta);
    lemma_normal(flow * cp);
    lemma_normal(flow * cp * eta);
    lemma_about_itself(load);
    lemma_about_itself(flow);
    lemma_about_itself(cp);
    lemma_about_itself(eta);
    let both = times(value(flow), value(cp));
    let rate = times(both, value(eta));
    lemma_times_positive(value(flow), value(cp));
    lemma_times_positive(both, value(eta));
    lemma_about_times(flow, cp, value(flow), value(cp), 0, 0);
    lemma_about_times(flow * cp, eta, both, value(eta), 1, 0);
    lemma_about_over(load, flow * cp * eta, value(load), rate, 0, 2);
    lemma_about_same(rate);
    lemma_about_product(value(load / (flow * cp * eta)), over(value(load), rate), rate, rate, 3, 0);
    lemma_over(value(load), rate);
}

} // verus!
