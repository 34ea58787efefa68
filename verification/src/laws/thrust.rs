//! Thrust and flow of rocket engines against ambient pressure and throttle.
use crate::analyze::{rows_of, AltitudePoint};
use crate::atmosphere::SampledAltitude;
use crate::constants::{separation_pressure_ratio, standard_gravity_mps2};
use crate::engine::{curve_fault, CompiledEngine, EngineOperatingPoint};
use crate::error::Fault;
use crate::float::{all_finite_in, dec, lemma_one, whole, zero, F64};
use crate::float::decimals::{lemma_decimal, lemma_decimal_between, lemma_small};
use crate::float::exact::{
    double, lemma_add_double, lemma_add_zero, lemma_div_double, lemma_double, lemma_mul_double, lemma_mul_one,
    lemma_nothing, lemma_vanishing, roomy,
};
use crate::float::nearness::{lemma_near, lemma_parts};
use crate::float::order::{
    lemma_add_both, lemma_add_commutes, lemma_add_order, lemma_between_not_negative, lemma_div_order,
    lemma_finite_less, lemma_mul_commutes, lemma_mul_not_negative, lemma_mul_not_negative_or_nan, lemma_mul_order,
    lemma_mul_sign, lemma_negate, lemma_number_over, lemma_numbers, lemma_positive_product, lemma_product,
    lemma_sub_order, lemma_sum, lemma_sum_sign, lemma_sum_with, lemma_zero_divisor,
};
use crate::liquid::CompiledLiquid;
use crate::nozzle::{thrust_coefficient, NozzleContour, NozzleExitState};
use crate::numerics::Numerics;
use crate::propellant::PropellantThermo;
use crate::solid::{BurnPoint, CompiledSolid};
use vstd::arithmetic::power2::pow2;
use vstd::arithmetic::power::pow;
use vstd::prelude::*;

verus! {

/// A thrust less the ambient push on an area does not rise with ambient pressure.
proof fn lemma_base_drag(thrust: F64, area: F64, less: F64, more: F64)
    requires
        zero() <= area,
        area.is_finite(),
        zero() <= less,
        less <= more,
        more.is_finite(),
    ensures
        (thrust - more * area).max(zero()) <= (thrust - less * area).max(zero()),
        zero() <= (thrust - more * area).max(zero()),
{
    lemma_one();
    lemma_parts(less);
    lemma_parts(more);
    lemma_product(less, area);
    lemma_product(more, area);
    lemma_mul_order(less, more, area);
    let (a, b) = (less * area, more * area);
    lemma_mul_not_negative(less, area);
    lemma_parts(a);
    lemma_parts(b);
    lemma_parts(thrust);
    if thrust.is_finite() {
        lemma_finite_less(thrust, a);
        lemma_finite_less(thrust, b);
        lemma_sub_order(a, b, thrust);
    } else {
        lemma_negate(a);
        lemma_negate(b);
        lemma_parts(thrust - a);
        lemma_parts(thrust - b);
        reveal(F64::spec_add);
        reveal(F64::is_nan_spec);
    }
}

/// The main nozzle's thrust does not rise with ambient pressure.
proof fn lemma_nozzle_falls<M: Numerics>(
    math: &M,
    thermo: &PropellantThermo,
    chamber_pa: F64,
    exit: &NozzleExitState,
    expansion_ratio: F64,
    less: F64,
    more: F64,
    divergence_factor: F64,
)
    requires
        zero() <= chamber_pa,
        zero() < expansion_ratio,
        less <= more,
        !(thrust_coefficient(math, thermo, chamber_pa, exit, expansion_ratio, less, divergence_factor) * chamber_pa).is_nan(),
        !(thrust_coefficient(math, thermo, chamber_pa, exit, expansion_ratio, more, divergence_factor) * chamber_pa).is_nan(),
    ensures
        thrust_coefficient(math, thermo, chamber_pa, exit, expansion_ratio, more, divergence_factor) * chamber_pa
            <= thrust_coefficient(math, thermo, chamber_pa, exit, expansion_ratio, less, divergence_factor) * chamber_pa,
{
    let cf_less = thrust_coefficient(math, thermo, chamber_pa, exit, expansion_ratio, less, divergence_factor);
    let cf_more = thrust_coefficient(math, thermo, chamber_pa, exit, expansion_ratio, more, divergence_factor);
    let exit_pa = exit.exit_pressure_ratio * chamber_pa;
    let momentum = choose|m: F64|
        cf_less == m + (exit_pa - less) / chamber_pa * expansion_ratio && cf_more == m + (exit_pa - more) / chamber_pa
            * expansion_ratio;
    let (d1, d2) = (exit_pa - less, exit_pa - more);
    let (q1, q2) = (d1 / chamber_pa, d2 / chamber_pa);
    let (s1, s2) = (q1 * expansion_ratio, q2 * expansion_ratio);
    lemma_one();
    if chamber_pa.units() == 0 {
        lemma_zero_divisor(d1, chamber_pa, expansion_ratio, momentum);
    }
    lemma_numbers(cf_less, chamber_pa);
    lemma_numbers(cf_more, chamber_pa);
    lemma_numbers(momentum, s1);
    lemma_numbers(momentum, s2);
    lemma_numbers(q1, expansion_ratio);
    lemma_numbers(q2, expansion_ratio);
    lemma_numbers(d1, chamber_pa);
    lemma_numbers(d2, chamber_pa);
    lemma_sub_order(less, more, exit_pa);
    lemma_div_order(d2, d1, chamber_pa);
    lemma_mul_order(q2, q1, expansion_ratio);
    lemma_add_commutes(momentum, s1);
    lemma_add_commutes(momentum, s2);
    lemma_add_order(s2, s1, momentum);
    lemma_mul_order(cf_more, cf_less, chamber_pa);
}

/// The ambient areas of a liquid engine are not negative.
pub open spec fn liquid_areas(engine: &CompiledLiquid) -> bool {
    zero() <= engine.aerospike_base_area_m2 && zero() <= engine.gg_exit_area_m2
}

proof fn lemma_liquid_falls<M: Numerics>(engine: &CompiledLiquid, math: &M, throttle: F64, less: F64, more: F64)
    requires
        engine.fault() is None,
        liquid_areas(engine),
        zero() < throttle,
        throttle <= whole(1),
        zero() <= less,
        less <= more,
        more.is_finite(),
        !engine.burning_point(math, throttle, less).thrust_n.is_nan(),
        !engine.burning_point(math, throttle, more).thrust_n.is_nan(),
    ensures
        engine.burning_point(math, throttle, more).thrust_n <= engine.burning_point(math, throttle, less).thrust_n,
{
    lemma_one();
    lemma_finite_fields(engine);
    lemma_parts(less);
    lemma_parts(more);
    if engine.contour == NozzleContour::Aerospike {
        lemma_base_drag(engine.thrust_vac_n * throttle, engine.aerospike_base_area_m2, less, more);
    } else {
        let chamber_pa = engine.chamber_pressure_pa * throttle;
        let cf_less = thrust_coefficient(
            math,
            &engine.thermo_ref(),
            chamber_pa,
            &engine.exit_ref(),
            engine.expansion_ratio,
            less,
            engine.divergence_factor,
        );
        let cf_more = thrust_coefficient(
            math,
            &engine.thermo_ref(),
            chamber_pa,
            &engine.exit_ref(),
            engine.expansion_ratio,
            more,
            engine.divergence_factor,
        );
        let (gg_less, gg_more) = (engine.gg_thrust_at(throttle, less), engine.gg_thrust_at(throttle, more));
        lemma_base_drag(engine.gg_thrust_vac_n * throttle, engine.gg_exit_area_m2, less, more);
        lemma_base_drag(engine.gg_thrust_vac_n * throttle, engine.gg_exit_area_m2, less, less);
        let (a1, a2) = (cf_less * chamber_pa, cf_more * chamber_pa);
        let (b1, b2) = (a1 * engine.throat_area_m2, a2 * engine.throat_area_m2);
        let (c1, c2) = (b1 * engine.kinetic_efficiency, b2 * engine.kinetic_efficiency);
        lemma_numbers(c1, gg_less);
        lemma_numbers(c2, gg_more);
        lemma_numbers(b1, engine.kinetic_efficiency);
        lemma_numbers(b2, engine.kinetic_efficiency);
        lemma_numbers(a1, engine.throat_area_m2);
        lemma_numbers(a2, engine.throat_area_m2);
        lemma_numbers(cf_less, chamber_pa);
        lemma_mul_not_negative(engine.chamber_pressure_pa, throttle);
        lemma_nozzle_falls(
            math,
            &engine.thermo_ref(),
            chamber_pa,
            &engine.exit_ref(),
            engine.expansion_ratio,
            less,
            more,
            engine.divergence_factor,
        );
        lemma_mul_order(a2, a1, engine.throat_area_m2);
        lemma_mul_order(b2, b1, engine.kinetic_efficiency);
        lemma_sum_with(c1, gg_more, gg_less);
        lemma_add_both(c2, c1, gg_more, gg_less);
    }
}

/// What a sound liquid engine's data say of its numbers.
proof fn lemma_finite_fields(engine: &CompiledLiquid)
    requires
        engine.fault() is None,
    ensures
        zero() < engine.chamber_pressure_pa,
        zero() < engine.throat_area_m2,
        zero() < engine.full_flow_kg_s,
        engine.expansion_ratio.is_finite(),
        zero() < engine.expansion_ratio,
        zero() < engine.kinetic_efficiency,
        zero() < engine.exit_pressure_pa,
        engine.thrust_vac_n.is_finite(),
        engine.gg_thrust_vac_n.is_finite(),
        engine.gg_exit_area_m2.is_finite(),
        engine.aerospike_base_area_m2.is_finite(),
{
    lemma_one();
    lemma_parts(engine.expansion_ratio);
    lemma_parts(engine.kinetic_efficiency);
    lemma_parts(engine.exit_pressure_pa);
    let values = seq![
        engine.exit_temp_k,
        engine.c_star_mps,
        engine.thrust_sl_n,
        engine.thrust_vac_n,
        engine.isp_sl_s,
        engine.isp_vac_s,
        engine.gg_thrust_sl_n,
        engine.gg_thrust_vac_n,
        engine.gg_exit_area_m2,
        engine.gg_isp_s,
        engine.aerospike_base_area_m2,
        engine.nozzle_wall_area_m2,
        engine.pump_power_w,
        engine.feed_pressure_required_pa,
        engine.exit_radius_m,
        engine.nozzle_length_m,
        engine.chamber_pressure_pa,
        engine.throat_area_m2,
        engine.full_flow_kg_s,
        engine.spool_tau_s,
        engine.gas_constant_j_kg_k,
        engine.chamber_temp_k,
        engine.exhaust_velocity_mps,
        engine.exit_mach,
        engine.dry_mass_kg,
        engine.gimbal_range_rad,
    ];
    assert(all_finite_in(values));
    assert(values[3].is_finite() && values[7].is_finite() && values[8].is_finite() && values[10].is_finite());
}

/// The number of seconds that thrust and flow give keeps the order of thrusts.
proof fn lemma_isp_order(low: F64, high: F64, flow: F64)
    requires
        low <= high,
        !flow.negative(),
        !(low / (flow * standard_gravity_mps2())).is_nan(),
        !(high / (flow * standard_gravity_mps2())).is_nan(),
    ensures
        low / (flow * standard_gravity_mps2()) <= high / (flow * standard_gravity_mps2()),
{
    let weight = flow * standard_gravity_mps2();
    lemma_one();
    lemma_numbers(low, weight);
    lemma_decimal(980_665, 5);
    lemma_near(false, (980_665 * pow2(1074)) as int, pow(10, 5));
    lemma_mul_sign(flow, standard_gravity_mps2());
    lemma_parts(weight);
    lemma_div_order(low, high, weight);
}

/// What a sound burn trace says of its stations.
pub proof fn lemma_stations(curve: Seq<BurnPoint>, i: int)
    requires
        0 <= i,
        curve_fault(curve, i) is None,
    ensures
        forall|k: int|
            #![trigger curve[k]]
            i <= k < curve.len() ==> {
                &&& curve[k].time_s.is_finite() && zero() <= curve[k].time_s
                &&& curve[k].chamber_pa.is_finite() && zero() <= curve[k].chamber_pa
                &&& curve[k].mass_flow_kg_s.is_finite() && zero() <= curve[k].mass_flow_kg_s
                &&& k > 0 ==> curve[k - 1].time_s <= curve[k].time_s || !curve[k - 1].time_s.is_finite()
                &&& k + 1 < curve.len() ==> zero() < curve[k].mass_flow_kg_s
            },
    decreases curve.len() - i,
{
    lemma_one();
    if i < curve.len() {
        let point = curve[i];
        let values = seq![
            point.time_s,
            point.web_burned_m,
            point.chamber_pa,
            point.mass_flow_kg_s,
            point.thrust_sl_n,
            point.thrust_vac_n,
        ];
        assert(all_finite_in(values));
        assert(values[0].is_finite() && values[2].is_finite() && values[3].is_finite());
        lemma_parts(point.time_s);
        lemma_parts(point.chamber_pa);
        lemma_parts(point.mass_flow_kg_s);
        if i > 0 {
            lemma_parts(curve[i - 1].time_s);
        }
        lemma_stations(curve, i + 1);
    }
}

/// The share of the way from one station to the next.
pub proof fn lemma_way(a: BurnPoint, b: BurnPoint, burn_time_s: F64)
    requires
        a.time_s.is_finite(),
        zero() <= a.time_s,
        b.time_s.is_finite(),
        zero() <= b.time_s,
        burn_time_s.is_finite(),
    ensures
        ({
            let span = (b.time_s - a.time_s).max(dec(1, 12));
            let share = ((burn_time_s - a.time_s) / span).clamp_unit();
            zero() <= share && share <= whole(1)
        }),
{
    lemma_one();
    lemma_parts(a.time_s);
    lemma_parts(b.time_s);
    lemma_parts(burn_time_s);
    lemma_negate(a.time_s);
    lemma_sum(b.time_s, a.time_s.negate());
    lemma_sum(burn_time_s, a.time_s.negate());
    lemma_small();
    let span = (b.time_s - a.time_s).max(dec(1, 12));
    let way = burn_time_s - a.time_s;
    lemma_parts(way);
    lemma_parts(span);
    lemma_negate(zero());
    lemma_parts(zero());
    lemma_add_zero(b.time_s, zero().negate());
    lemma_parts(b.time_s - zero());
    lemma_sub_order(zero(), a.time_s, b.time_s);
    assert(b.time_s - a.time_s <= b.time_s);
    assert(span.is_finite());
    lemma_number_over(way, span);
}

/// Where a query of a sound motor lands, pressure and flow are not negative.
proof fn lemma_read(engine: &CompiledSolid, burn_time_s: F64)
    requires
        engine.fault() is None,
        burn_time_s.is_finite(),
        burn_time_s < engine.burn_time_s,
    ensures
        zero() <= engine.read_at(burn_time_s).chamber_pa,
        zero() <= engine.read_at(burn_time_s).mass_flow_kg_s,
        !engine.read_at(burn_time_s).mass_flow_kg_s.negative(),
{
    let curve = engine.burn_curve@;
    lemma_one();
    lemma_stations(curve, 0);
    lemma_parts(curve[0].mass_flow_kg_s);
    if !(burn_time_s <= zero()) {
        lemma_read_from(engine, burn_time_s, 1);
    }
}

proof fn lemma_read_from(engine: &CompiledSolid, burn_time_s: F64, i: int)
    requires
        engine.fault() is None,
        burn_time_s.is_finite(),
        burn_time_s < engine.burn_time_s,
        1 <= i <= engine.burn_curve@.len(),
        i == engine.burn_curve@.len() ==> engine.burn_curve@.last().time_s < burn_time_s || i == 1,
    ensures
        ({
            let station = CompiledSolid::read_from(engine.burn_curve@, burn_time_s, i);
            zero() <= station.chamber_pa && zero() <= station.mass_flow_kg_s && !station.mass_flow_kg_s.negative()
        }),
    decreases engine.burn_curve@.len() - i,
{
    let curve = engine.burn_curve@;
    lemma_one();
    lemma_stations(curve, 0);
    if i >= curve.len() {
        lemma_parts(curve.last().mass_flow_kg_s);
        lemma_parts(curve.last().time_s);
        lemma_parts(curve.last().chamber_pa);
    } else if burn_time_s <= curve[i].time_s {
        let (a, b) = (curve[i - 1], curve[i]);
        lemma_way(a, b, burn_time_s);
        let span = (b.time_s - a.time_s).max(dec(1, 12));
        let share = ((burn_time_s - a.time_s) / span).clamp_unit();
        lemma_between_not_negative(a.chamber_pa, b.chamber_pa, share);
        lemma_between_not_negative(a.mass_flow_kg_s, b.mass_flow_kg_s, share);
        let flow = a.mass_flow_kg_s + (b.mass_flow_kg_s - a.mass_flow_kg_s) * share;
        lemma_parts(flow);
        lemma_parts(a.mass_flow_kg_s);
        lemma_sum_sign(a.mass_flow_kg_s, (b.mass_flow_kg_s - a.mass_flow_kg_s) * share);
    } else {
        lemma_parts(curve[i].time_s);
        lemma_parts(burn_time_s);
        lemma_read_from(engine, burn_time_s, i + 1);
    }
}

proof fn lemma_solid_falls<M: Numerics>(engine: &CompiledSolid, math: &M, burn_time_s: F64, less: F64, more: F64)
    requires
        engine.fault() is None,
        zero() <= engine.aerospike_base_area_m2,
        burn_time_s.is_finite(),
        burn_time_s < engine.burn_time_s,
        zero() <= less,
        less <= more,
        more.is_finite(),
    ensures
        ({
            let station = engine.read_at(burn_time_s);
            let thin = engine.point_at_station(math, station, less);
            let thick = engine.point_at_station(math, station, more);
            &&& !thin.thrust_n.is_nan() && !thick.thrust_n.is_nan() ==> thick.thrust_n <= thin.thrust_n
            &&& !thin.isp_s.is_nan() && !thick.isp_s.is_nan() ==> thick.isp_s <= thin.isp_s
        }),
{
    let station = engine.read_at(burn_time_s);
    let thin = engine.point_at_station(math, station, less);
    let thick = engine.point_at_station(math, station, more);
    lemma_one();
    lemma_read(engine, burn_time_s);
    lemma_parts(engine.expansion_ratio);
    let values = seq![
        engine.total_impulse_ns,
        engine.avg_isp_s,
        engine.peak_pressure_pa,
        engine.peak_thrust_sl_n,
        engine.c_star_mps,
        engine.exit_temp_k,
        engine.aerospike_base_area_m2,
        engine.throat_radius_m,
        engine.exit_radius_m,
        engine.grain_outer_radius_m,
        engine.grain_length_m,
    ];
    assert(all_finite_in(values));
    assert(values[6].is_finite());
    let weight = station.mass_flow_kg_s * standard_gravity_mps2();
    lemma_numbers(thin.thrust_n, weight);
    lemma_numbers(thick.thrust_n, weight);
    if !thin.thrust_n.is_nan() && !thick.thrust_n.is_nan() {
        if engine.contour == NozzleContour::Aerospike {
            lemma_base_drag(station.thrust_vac_n, engine.aerospike_base_area_m2, less, more);
        } else {
            let thermo = engine.thermo_ref();
            let exit = engine.exit_state(math);
            let cf_less = thrust_coefficient(
                math,
                &thermo,
                station.chamber_pa,
                &exit,
                engine.expansion_ratio,
                less,
                engine.divergence_factor,
            );
            let cf_more = thrust_coefficient(
                math,
                &thermo,
                station.chamber_pa,
                &exit,
                engine.expansion_ratio,
                more,
                engine.divergence_factor,
            );
            lemma_numbers(cf_less * station.chamber_pa, engine.throat_area_m2);
            lemma_numbers(cf_more * station.chamber_pa, engine.throat_area_m2);
            lemma_nozzle_falls(
                math,
                &thermo,
                station.chamber_pa,
                &exit,
                engine.expansion_ratio,
                less,
                more,
                engine.divergence_factor,
            );
            lemma_mul_order(cf_more * station.chamber_pa, cf_less * station.chamber_pa, engine.throat_area_m2);
        }
        if !thin.isp_s.is_nan() && !thick.isp_s.is_nan() {
            lemma_isp_order(thick.thrust_n, thin.thrust_n, station.mass_flow_kg_s);
        }
    }
}

/// The ambient areas of an engine are not negative.
pub open spec fn areas(engine: &CompiledEngine) -> bool {
    match engine {
        CompiledEngine::Liquid(engine) => liquid_areas(engine),
        CompiledEngine::Solid(engine) => zero() <= engine.aerospike_base_area_m2,
    }
}

/// At a throttle and burn clock, more ambient pressure never gives more thrust, nor
/// more specific impulse, and changes neither the flow nor the exhaust.
pub proof fn lemma_thrust_falls_with_ambient<M: Numerics>(
    engine: &CompiledEngine,
    math: &M,
    throttle: F64,
    less: F64,
    more: F64,
    burn_time_s: F64,
    thin: EngineOperatingPoint,
    thick: EngineOperatingPoint,
)
    requires
        engine.fault() is None,
        areas(engine),
        less <= more,
        engine.point(math, throttle, less, burn_time_s) == Ok::<EngineOperatingPoint, Fault>(thin),
        engine.point(math, throttle, more, burn_time_s) == Ok::<EngineOperatingPoint, Fault>(thick),
    ensures
        thick.mass_flow_kg_s == thin.mass_flow_kg_s,
        thick.exhaust_velocity_mps == thin.exhaust_velocity_mps,
        thick.exit_temp_k == thin.exit_temp_k,
        thick.exit_mach == thin.exit_mach,
        !thin.thrust_n.is_nan() && !thick.thrust_n.is_nan() ==> thick.thrust_n <= thin.thrust_n,
        !thin.isp_s.is_nan() && !thick.isp_s.is_nan() ==> thick.isp_s <= thin.isp_s,
{
    lemma_one();
    lemma_parts(less);
    lemma_parts(more);
    lemma_parts(throttle);
    match engine {
        CompiledEngine::Liquid(engine) => {
            if !throttle.same(zero()) {
                lemma_finite_fields(engine);
                let flow = engine.full_flow_kg_s * throttle;
                lemma_numbers(thin.thrust_n, flow * standard_gravity_mps2());
                lemma_numbers(thick.thrust_n, flow * standard_gravity_mps2());
                if !thin.thrust_n.is_nan() && !thick.thrust_n.is_nan() {
                    lemma_liquid_falls(engine, math, throttle, less, more);
                    if !thin.isp_s.is_nan() && !thick.isp_s.is_nan() {
                        lemma_numbers(flow, standard_gravity_mps2());
                        lemma_mul_sign(engine.full_flow_kg_s, throttle);
                        lemma_parts(engine.full_flow_kg_s);
                        lemma_isp_order(thick.thrust_n, thin.thrust_n, flow);
                    }
                }
            }
        },
        CompiledEngine::Solid(engine) => {
            if !(burn_time_s >= engine.burn_time_s) {
                lemma_parts(burn_time_s);
                lemma_solid_falls(engine, math, burn_time_s, less, more);
            }
        },
    }
}

/// Along an analysis, where the air is thinner the thrust is not less, and the flow
/// is the same at every altitude.
pub proof fn lemma_curve_rises_as_air_thins<M: Numerics>(
    math: &M,
    engine: &CompiledEngine,
    altitudes: Seq<SampledAltitude>,
    throttle: F64,
    burn_time_s: F64,
    rows: Seq<AltitudePoint>,
    i: int,
    j: int,
)
    requires
        engine.fault() is None,
        areas(engine),
        rows_of(math, engine, altitudes, throttle, burn_time_s) == Ok::<Seq<AltitudePoint>, Fault>(rows),
        0 <= i < rows.len(),
        0 <= j < rows.len(),
        rows[j].ambient_pa <= rows[i].ambient_pa,
    ensures
        rows.len() == altitudes.len(),
        rows[j].mass_flow_kg_s == rows[i].mass_flow_kg_s,
        !rows[i].thrust_n.is_nan() && !rows[j].thrust_n.is_nan() ==> rows[i].thrust_n <= rows[j].thrust_n,
        !rows[i].isp_s.is_nan() && !rows[j].isp_s.is_nan() ==> rows[i].isp_s <= rows[j].isp_s,
{
    lemma_row_point(math, engine, altitudes, throttle, burn_time_s, rows, i);
    lemma_row_point(math, engine, altitudes, throttle, burn_time_s, rows, j);
    let thick = engine.point(math, throttle, rows[i].ambient_pa, burn_time_s)->Ok_0;
    let thin = engine.point(math, throttle, rows[j].ambient_pa, burn_time_s)->Ok_0;
    lemma_thrust_falls_with_ambient(
        engine,
        math,
        throttle,
        rows[j].ambient_pa,
        rows[i].ambient_pa,
        burn_time_s,
        thin,
        thick,
    );
}

/// Every row of an analysis is an operating point of the engine.
pub proof fn lemma_row_point<M: Numerics>(
    math: &M,
    engine: &CompiledEngine,
    altitudes: Seq<SampledAltitude>,
    throttle: F64,
    burn_time_s: F64,
    rows: Seq<AltitudePoint>,
    i: int,
)
    requires
        rows_of(math, engine, altitudes, throttle, burn_time_s) == Ok::<Seq<AltitudePoint>, Fault>(rows),
        0 <= i < rows.len(),
    ensures
        rows.len() == altitudes.len(),
        rows[i].altitude_m == altitudes[i].altitude_m,
        altitudes[i].sample is Ok,
        rows[i].ambient_pa == altitudes[i].sample->Ok_0.pressure_pa,
        ({
            let point = engine.point(math, throttle, rows[i].ambient_pa, burn_time_s);
            &&& point is Ok
            &&& point->Ok_0.thrust_n == rows[i].thrust_n
            &&& point->Ok_0.isp_s == rows[i].isp_s
            &&& point->Ok_0.mass_flow_kg_s == rows[i].mass_flow_kg_s
            &&& point->Ok_0.separation_risk == rows[i].separation_risk
        }),
    decreases altitudes.len(),
{
    lemma_row_count(math, engine, altitudes, throttle, burn_time_s, rows);
    if i < rows.len() - 1 {
        lemma_row_point(math, engine, altitudes.drop_last(), throttle, burn_time_s, rows.drop_last(), i);
    }
}

proof fn lemma_row_count<M: Numerics>(
    math: &M,
    engine: &CompiledEngine,
    altitudes: Seq<SampledAltitude>,
    throttle: F64,
    burn_time_s: F64,
    rows: Seq<AltitudePoint>,
)
    requires
        rows_of(math, engine, altitudes, throttle, burn_time_s) == Ok::<Seq<AltitudePoint>, Fault>(rows),
    ensures
        rows.len() == altitudes.len(),
        altitudes.len() > 0 ==> rows_of(math, engine, altitudes.drop_last(), throttle, burn_time_s) == Ok::<
            Seq<AltitudePoint>,
            Fault,
        >(rows.drop_last()),
    decreases altitudes.len(),
{
    if altitudes.len() > 0 {
        let before = rows_of(math, engine, altitudes.drop_last(), throttle, burn_time_s)->Ok_0;
        assert(rows.drop_last() =~= before);
        lemma_row_count(math, engine, altitudes.drop_last(), throttle, burn_time_s, before);
    }
}

/// An aerospike never flags separation and never pulls; no engine flags separation in
/// a vacuum.
pub proof fn lemma_separation<M: Numerics>(
    engine: &CompiledEngine,
    math: &M,
    throttle: F64,
    ambient_pa: F64,
    burn_time_s: F64,
    point: EngineOperatingPoint,
)
    requires
        engine.point(math, throttle, ambient_pa, burn_time_s) == Ok::<EngineOperatingPoint, Fault>(point),
    ensures
        (match engine {
            CompiledEngine::Liquid(engine) => engine.contour,
            CompiledEngine::Solid(engine) => engine.contour,
        }) == NozzleContour::Aerospike ==> !point.separation_risk && zero() <= point.thrust_n,
        engine is Liquid && engine.fault() is None && ambient_pa.same(zero()) ==> !point.separation_risk,
{
    lemma_one();
    match engine {
        CompiledEngine::Liquid(engine) => {
            if ambient_pa.same(zero()) && engine.fault() is None && !throttle.same(zero()) {
                lemma_finite_fields(engine);
                lemma_parts(throttle);
                lemma_mul_not_negative_or_nan(engine.exit_pressure_pa, throttle);
                lemma_nothing(separation_pressure_ratio(), ambient_pa);
            }
        },
        CompiledEngine::Solid(engine) => {},
    }
}

/// A liquid engine at zero throttle, and a motor past its burn time, give no thrust
/// and use nothing; neither is an error.
pub proof fn lemma_off<M: Numerics>(engine: &CompiledEngine, math: &M, throttle: F64, ambient_pa: F64, burn_time_s: F64)
    requires
        ambient_pa.is_finite(),
        zero() <= ambient_pa,
        match engine {
            CompiledEngine::Liquid(_) => throttle.same(zero()),
            CompiledEngine::Solid(engine) => throttle.same(whole(1)) && burn_time_s.is_finite() && zero() <= burn_time_s
                && engine.burn_time_s <= burn_time_s,
        },
    ensures
        ({
            let point = engine.point(math, throttle, ambient_pa, burn_time_s);
            &&& point is Ok
            &&& point->Ok_0.thrust_n == zero()
            &&& point->Ok_0.mass_flow_kg_s == zero()
            &&& !point->Ok_0.separation_risk
        }),
{
    lemma_one();
    lemma_parts(throttle);
    lemma_parts(ambient_pa);
    lemma_parts(burn_time_s);
}

/// A liquid engine at full throttle uses its full flow to the last bit, and never
/// more at a lower throttle.
pub proof fn lemma_flow_follows_throttle<M: Numerics>(
    engine: &CompiledLiquid,
    math: &M,
    low: F64,
    high: F64,
    ambient_pa: F64,
)
    requires
        engine.fault() is None,
        zero() < low,
        low <= high,
        high <= whole(1),
    ensures
        engine.burning_point(math, whole(1), ambient_pa).mass_flow_kg_s == engine.full_flow_kg_s,
        engine.burning_point(math, low, ambient_pa).mass_flow_kg_s <= engine.burning_point(
            math,
            high,
            ambient_pa,
        ).mass_flow_kg_s,
{
    lemma_one();
    lemma_finite_fields(engine);
    let full = engine.full_flow_kg_s;
    lemma_mul_one(full);
    lemma_mul_commutes(full, low);
    lemma_mul_commutes(full, high);
    lemma_positive_product(low, full);
    lemma_positive_product(high, full);
    lemma_mul_order(low, high, full);
}

/// A liquid engine in a vacuum, none of whose values leaves the normal range at this
/// throttle.
pub open spec fn ordinary_throttle<M: Numerics>(engine: &CompiledLiquid, math: &M, throttle: F64) -> bool {
    let point = engine.burning_point(math, throttle, zero());
    let chamber_pa = engine.chamber_pressure_pa * throttle;
    let ratio = engine.exit_ref().exit_pressure_ratio;
    let cf = thrust_coefficient(
        math,
        &engine.thermo_ref(),
        chamber_pa,
        &engine.exit_ref(),
        engine.expansion_ratio,
        zero(),
        engine.divergence_factor,
    );
    let main = cf * chamber_pa * engine.throat_area_m2 * engine.kinetic_efficiency;
    &&& zero() < throttle && roomy(throttle)
    &&& engine.chamber_pressure_pa.is_finite() && roomy(chamber_pa)
    &&& ratio.is_finite() && roomy(ratio * chamber_pa)
    &&& engine.full_flow_kg_s.is_finite() && roomy(point.mass_flow_kg_s) && roomy(
        point.mass_flow_kg_s * standard_gravity_mps2(),
    )
    &&& roomy(point.thrust_n)
    &&& if engine.contour == NozzleContour::Aerospike {
        roomy(engine.thrust_vac_n * throttle)
    } else {
        &&& cf.is_finite() && roomy(cf * chamber_pa)
        &&& engine.throat_area_m2.is_finite() && roomy(cf * chamber_pa * engine.throat_area_m2)
        &&& roomy(main)
        &&& engine.gg_bypass_fraction <= zero() || roomy(engine.gg_thrust_vac_n * throttle)
    }
}

/// In a vacuum a liquid engine follows its throttle: at twice the throttle it gives
/// exactly twice the thrust for exactly twice the flow, at the same specific impulse.
pub proof fn lemma_throttle_scales<M: Numerics>(engine: &CompiledLiquid, math: &M, throttle: F64)
    requires
        engine.fault() is None,
        ordinary_throttle(engine, math, throttle),
    ensures
        ({
            let point = engine.burning_point(math, throttle, zero());
            let twice = engine.burning_point(math, whole(2) * throttle, zero());
            &&& twice.thrust_n == whole(2) * point.thrust_n
            &&& twice.mass_flow_kg_s == whole(2) * point.mass_flow_kg_s
            &&& twice.isp_s == point.isp_s
        }),
{
    lemma_one();
    lemma_finite_fields(engine);
    let point = engine.burning_point(math, throttle, zero());
    let twice = engine.burning_point(math, double(throttle), zero());
    let flow = engine.full_flow_kg_s * throttle;
    lemma_double(throttle);
    lemma_parts(throttle);
    lemma_parts(double(throttle));
    lemma_mul_double(engine.full_flow_kg_s, throttle);
    lemma_double(flow);
    lemma_double(point.thrust_n);
    if engine.contour == NozzleContour::Aerospike {
        lemma_ducted_scales(engine.thrust_vac_n, throttle, engine.aerospike_base_area_m2);
    } else {
        lemma_main_scales(engine, math, throttle);
        let main = main_thrust(engine, math, throttle);
        let gg = engine.gg_thrust_at(throttle, zero());
        lemma_double(main);
        lemma_parts(main);
        if !(engine.gg_bypass_fraction <= zero()) {
            lemma_ducted_scales(engine.gg_thrust_vac_n, throttle, engine.gg_exit_area_m2);
        }
        if gg.units() == 0 {
            lemma_add_zero(main, gg);
            lemma_add_zero(double(main), engine.gg_thrust_at(double(throttle), zero()));
        } else {
            lemma_add_double(main, gg);
        }
    }
    reveal_with_fuel(pow, 6);
    lemma_decimal_between(980_665, 5, 0, 10);
    let weight = flow * standard_gravity_mps2();
    lemma_mul_commutes(flow, standard_gravity_mps2());
    lemma_mul_commutes(double(flow), standard_gravity_mps2());
    lemma_mul_double(standard_gravity_mps2(), flow);
    lemma_double(weight);
    lemma_parts(weight);
    lemma_div_double(point.thrust_n, weight);
}

/// The main nozzle's thrust in a vacuum.
pub open spec fn main_thrust<M: Numerics>(engine: &CompiledLiquid, math: &M, throttle: F64) -> F64 {
    let chamber_pa = engine.chamber_pressure_pa * throttle;
    thrust_coefficient(
        math,
        &engine.thermo_ref(),
        chamber_pa,
        &engine.exit_ref(),
        engine.expansion_ratio,
        zero(),
        engine.divergence_factor,
    ) * chamber_pa * engine.throat_area_m2 * engine.kinetic_efficiency
}

proof fn lemma_main_scales<M: Numerics>(engine: &CompiledLiquid, math: &M, throttle: F64)
    requires
        engine.fault() is None,
        ordinary_throttle(engine, math, throttle),
        engine.contour != NozzleContour::Aerospike,
    ensures
        main_thrust(engine, math, double(throttle)) == double(main_thrust(engine, math, throttle)),
{
    lemma_one();
    lemma_finite_fields(engine);
    let p = engine.chamber_pressure_pa * throttle;
    let exit = engine.exit_ref();
    let exit_pa = exit.exit_pressure_ratio * p;
    let area = engine.throat_area_m2;
    let efficiency = engine.kinetic_efficiency;
    let cf = thrust_coefficient(
        math,
        &engine.thermo_ref(),
        p,
        &exit,
        engine.expansion_ratio,
        zero(),
        engine.divergence_factor,
    );
    lemma_double(throttle);
    lemma_mul_double(engine.chamber_pressure_pa, throttle);
    lemma_parts(p);
    lemma_parts(zero());
    lemma_negate(zero());
    lemma_parts(zero().negate());
    lemma_double(p);
    lemma_parts(double(p));
    lemma_mul_double(exit.exit_pressure_ratio, p);
    lemma_double(exit_pa);
    lemma_parts(exit_pa);
    lemma_parts(double(exit_pa));
    lemma_add_zero(exit_pa, zero().negate());
    lemma_add_zero(double(exit_pa), zero().negate());
    lemma_div_double(exit_pa, p);
    let again = thrust_coefficient(
        math,
        &engine.thermo_ref(),
        double(p),
        &exit,
        engine.expansion_ratio,
        zero(),
        engine.divergence_factor,
    );
    assert(again == cf);
    lemma_mul_double(cf, p);
    lemma_double(cf * p);
    lemma_mul_commutes(area, cf * p);
    lemma_mul_double(area, cf * p);
    lemma_double(cf * p * area);
    lemma_mul_commutes(efficiency, cf * p * area);
    lemma_mul_double(efficiency, cf * p * area);
}

/// A thrust that follows the throttle, with nothing to push against.
proof fn lemma_ducted_scales(thrust_n: F64, throttle: F64, area: F64)
    requires
        thrust_n.is_finite(),
        area.is_finite(),
        roomy(throttle),
        roomy(thrust_n * throttle),
    ensures
        ({
            let once = (thrust_n * throttle - zero() * area).max(zero());
            let twice = (thrust_n * double(throttle) - zero() * area).max(zero());
            &&& once.units() == 0 ==> once == zero() && twice == zero()
            &&& once.units() != 0 ==> once == thrust_n * throttle && twice == double(once) && roomy(once)
        }),
{
    lemma_one();
    let x = thrust_n * throttle;
    lemma_mul_double(thrust_n, throttle);
    lemma_double(x);
    lemma_parts(x);
    lemma_parts(double(x));
    lemma_vanishing(area, zero());
    lemma_mul_commutes(area, zero());
    let nothing = zero() * area;
    lemma_negate(nothing);
    lemma_parts(nothing.negate());
    lemma_add_zero(x, nothing.negate());
    lemma_add_zero(double(x), nothing.negate());
    lemma_parts(zero());
}

} // verus!
