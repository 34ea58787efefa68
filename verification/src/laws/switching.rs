//! Which path a combined-cycle engine takes, and what its figures and captures add up to.
use crate::air::{AirOperatingPoint, FlightCondition};
use crate::constants::standard_gravity_mps2;
use crate::error::Fault;
use crate::estoc::{CompiledEstoc, ConditionedPoint, EstocMode, EstocPoint, EstocTransient};
use crate::float::accuracy::{
    about, amount, lemma_about_product, lemma_about_same, lemma_about_turned, lemma_normal, lemma_over,
    lemma_times_associates, lemma_times_commutes, lemma_times_positive, normal, over, times, value,
};
use crate::float::{dec, lemma_one, whole, zero, F64};
use crate::float::nearness::lemma_parts;
use crate::float::tracking::{
    lemma_about_itself, lemma_about_over, lemma_about_plus, lemma_about_times, lemma_whole_value,
};
use crate::laws::sizing::lemma_constants;
use crate::numerics::Numerics;
use crate::shaft::JetShaftState;
use vstd::prelude::*;

verus! {

/// Without a manual selection the air path is taken wherever it carries itself, up to the
/// upper switching Mach number, and from the rocket only once the lower one is reached.
/// Where it does not, an ejector that captures anoxic air takes over, else the rocket.
pub proof fn lemma_automatic_switch<M: Numerics>(
    engine: &CompiledEstoc,
    math: &M,
    condition: &FlightCondition,
    throttle: F64,
    last_mode: EstocMode,
    prev: Option<EstocTransient>,
    dt_s: F64,
    shaft: JetShaftState,
    result: (EstocPoint, EstocTransient),
    cooled: ConditionedPoint,
)
    requires
        !throttle.same(zero()),
        engine.point(math, condition, throttle, None, last_mode, prev, dt_s, shaft) == Ok::<
            (EstocPoint, EstocTransient),
            Fault,
        >(result),
        engine.conditioned(math, condition, throttle, shaft, prev, dt_s) == Ok::<ConditionedPoint, Fault>(cooled),
        !condition.mach.is_nan(),
        !engine.switch_mach_hi.is_nan(),
        !engine.switch_mach_lo.is_nan(),
    ensures
        ({
            let (mode, mach) = (result.0.mode, condition.mach);
            let carries = engine.air_viable(condition, &cooled.point);
            let anoxic = !(condition.composition.oxygen_mass_fraction > dec(1, 9));
            &&& carries && mach < engine.switch_mach_hi && last_mode != EstocMode::Rocket ==> mode == EstocMode::Air
            &&& carries && mach < engine.switch_mach_hi && mach <= engine.switch_mach_lo ==> mode == EstocMode::Air
            &&& carries && engine.switch_mach_hi <= mach ==> mode == EstocMode::Rocket
            &&& carries && last_mode == EstocMode::Rocket && engine.switch_mach_lo < mach ==> mode == EstocMode::Rocket
            &&& !carries && !anoxic ==> mode == EstocMode::Rocket
            &&& anoxic && engine.ejector is Some && zero() < engine.ejector_capture_flow_kg_s(condition)
                ==> mode == EstocMode::Ejector
            &&& anoxic && !(zero() < engine.ejector_capture_flow_kg_s(condition)) ==> mode == EstocMode::Rocket
        }),
{
    lemma_one();
    lemma_parts(condition.mach);
    lemma_parts(engine.switch_mach_hi);
    lemma_parts(engine.switch_mach_lo);
    lemma_parts(engine.ejector_capture_flow_kg_s(condition));
}

/// Lit air that feeds, drives and pushes an uncooled engine carries it; whatever is
/// missing of that, or too warm an inlet behind a precooler, stops it.
pub proof fn lemma_air_carries(engine: &CompiledEstoc, condition: &FlightCondition, point: &AirOperatingPoint)
    requires
        condition.ambient_pa > zero(),
        condition.composition.oxygen_mass_fraction > dec(1, 9),
        point.air_flow_kg_s > zero(),
        point.thrust_n > zero(),
    ensures
        engine.precooler is None && point.lit && !point.drive_limited && !point.oxygen_limited ==> engine.air_viable(
            condition,
            point,
        ),
        engine.air_viable(condition, point) ==> point.lit && !point.drive_limited && !point.oxygen_limited,
        engine.precooler is Some && point.lit && !point.drive_limited && !point.oxygen_limited
            && point.compressor_inlet_total_temp_k <= engine.precooler->0.maximum_compressor_inlet_temp_k * (whole(1) + dec(1, 9))
            ==> engine.air_viable(condition, point) && !engine.saturated(point),
        engine.air_viable(condition, point) ==> !engine.saturated(point),
{
    if engine.precooler is Some {
        lemma_parts(point.compressor_inlet_total_temp_k);
        lemma_parts(engine.precooler->0.maximum_compressor_inlet_temp_k * (whole(1) + dec(1, 9)));
    }
}

/// A capture, no term of which is lost to underflow or overflow.
pub open spec fn capture_kept(area_m2: F64, condition: &FlightCondition) -> bool {
    let thermal = whole(287) * condition.ambient_temp_k;
    let density = condition.ambient_pa / thermal;
    &&& normal(condition.ambient_pa) && normal(condition.ambient_temp_k) && normal(thermal) && normal(density)
    &&& normal(area_m2) && normal(condition.airspeed_mps)
    &&& normal(density * area_m2) && normal(density * area_m2 * condition.airspeed_mps)
}

/// An ejector's scoop takes in what its area sweeps: captured flow times gas constant and
/// temperature is pressure times area and speed, to within four roundings.
pub proof fn lemma_scoop(engine: &CompiledEstoc, condition: &FlightCondition)
    requires
        engine.ejector is Some,
        capture_kept(engine.ejector->0.spec.capture_area_m2, condition),
    ensures
        about(
            times(
                value(engine.ejector_capture_flow_kg_s(condition)),
                times(287 as real, value(condition.ambient_temp_k)),
            ),
            times(
                value(condition.ambient_pa),
                times(value(engine.ejector->0.spec.capture_area_m2), value(condition.airspeed_mps)),
            ),
            4,
        ),
{
    let area = engine.ejector->0.spec.capture_area_m2;
    let (p, t, v) = (condition.ambient_pa, condition.ambient_temp_k, condition.airspeed_mps);
    let thermal = whole(287) * t;
    let density = p / thermal;
    let flow = density * area * v;
    lemma_normal(p);
    lemma_normal(t);
    lemma_normal(v);
    lemma_normal(area);
    lemma_normal(thermal);
    lemma_normal(density);
    lemma_normal(density * area);
    lemma_normal(flow);
    lemma_whole_value(287);
    lemma_about_itself(whole(287));
    lemma_about_itself(p);
    lemma_about_itself(t);
    lemma_about_itself(v);
    lemma_about_itself(area);
    let exact = times(287 as real, value(t));
    lemma_times_positive(287 as real, value(t));
    lemma_about_times(whole(287), t, 287 as real, value(t), 0, 0);
    lemma_about_over(p, thermal, value(p), exact, 0, 1);
    let dense = over(value(p), exact);
    lemma_about_times(density, area, dense, value(area), 2, 0);
    lemma_about_times(density * area, v, times(dense, value(area)), value(v), 3, 0);
    let swept = times(value(area), value(v));
    lemma_times_associates(dense, value(area), value(v));
    lemma_about_same(exact);
    lemma_about_product(value(flow), times(dense, swept), exact, exact, 4, 0);
    lemma_over(value(p), exact);
    lemma_times_associates(dense, swept, exact);
    lemma_times_commutes(swept, exact);
    lemma_times_associates(dense, exact, swept);
}

/// Specific impulse is thrust by weight of what the tanks give: times gravity and the sum
/// of fuel and oxidizer it gives the thrust back, to within three roundings.
pub proof fn lemma_worth_of_tanks(engine: &CompiledEstoc, snapshot: &EstocTransient)
    requires
        ({
            let flow = snapshot.fuel_flow_kg_s + snapshot.oxidizer_flow_kg_s;
            let weight = flow * standard_gravity_mps2();
            &&& amount(snapshot.fuel_flow_kg_s) && amount(snapshot.oxidizer_flow_kg_s) && normal(flow)
            &&& amount(snapshot.thrust_n) && normal(weight)
            &&& normal(snapshot.thrust_n / weight)
        }),
    ensures
        about(
            times(
                value(engine.propellant_isp_s(snapshot)),
                times(
                    value(snapshot.fuel_flow_kg_s) + value(snapshot.oxidizer_flow_kg_s),
                    value(standard_gravity_mps2()),
                ),
            ),
            value(snapshot.thrust_n),
            3,
        ),
{
    lemma_constants();
    let (fuel, oxidizer) = (snapshot.fuel_flow_kg_s, snapshot.oxidizer_flow_kg_s);
    let (flow, g, thrust) = (fuel + oxidizer, standard_gravity_mps2(), snapshot.thrust_n);
    let weight = flow * g;
    let exact = times(value(fuel) + value(oxidizer), value(g));
    lemma_one();
    lemma_parts(flow);
    lemma_parts(zero());
    lemma_normal(flow);
    lemma_normal(g);
    lemma_normal(weight);
    lemma_about_itself(fuel);
    lemma_about_itself(oxidizer);
    lemma_about_itself(g);
    lemma_about_itself(weight);
    lemma_about_itself(thrust);
    lemma_about_plus(fuel, oxidizer, value(fuel), value(oxidizer), 0, 0);
    lemma_about_times(flow, g, value(fuel) + value(oxidizer), value(g), 1, 0);
    lemma_about_over(thrust, weight, value(thrust), value(weight), 0, 0);
    lemma_over(value(thrust), value(weight));
    let isp = thrust / weight;
    lemma_about_turned(value(weight), exact, 2);
    lemma_about_product(value(isp), over(value(thrust), value(weight)), exact, value(weight), 1, 2);
    assert(engine.propellant_isp_s(snapshot) == isp);
}

} // verus!
