//! The core shaft: what the steady solver finds, and how the design point balances.
use crate::air::{combustor_efficiency, AirReference, AirbreathingSpec, CompiledAirbreather, FlightCondition};
use crate::cycle_core::{cycle_compression, cycle_inlet, cycle_state, CycleState};
use crate::error::Fault;
use crate::float::accuracy::{
    about, lemma_about_bounds, lemma_about_chain, lemma_about_product, lemma_about_same, lemma_about_turned,
    lemma_normal, lemma_over, lemma_product_about, lemma_quotient_about, lemma_times_associates, lemma_value_order,
    normal, over, times, value,
};
use crate::float::{dec, lemma_one, whole, zero, F64};
use crate::float::decimals::{lemma_big, lemma_decimal_between, lemma_full_schedule, lemma_whole};
use crate::float::exact::lemma_mul_one;
use crate::float::nearness::lemma_parts;
use crate::float::order::{lemma_middle, lemma_middle_close, lemma_shares_add};
use crate::numerics::{powi, Numerics};
use vstd::arithmetic::power2::{lemma2_to64, lemma_pow2_adds, lemma_pow2_unfold, pow2};
use vstd::arithmetic::power::pow;
use vstd::prelude::*;

verus! {

/// The core gains speed at `low` and does not at `high`.
pub open spec fn changes_sign<M: Numerics>(
    engine: &CompiledAirbreather,
    math: &M,
    condition: &FlightCondition,
    throttle: F64,
    low: F64,
    high: F64,
) -> bool {
    match (engine.net_at(math, condition, throttle, low), engine.net_at(math, condition, throttle, high)) {
        (Ok(gain), Ok(loss)) => gain > zero() && !(loss > zero()),
        _ => false,
    }
}

/// Halving keeps the change of sign in the bracket, and each time leaves half its
/// width, to within a few roundings.
proof fn lemma_bracket<M: Numerics>(
    engine: &CompiledAirbreather,
    math: &M,
    condition: &FlightCondition,
    throttle: F64,
    span: (F64, F64),
    n: nat,
    last: (F64, F64),
)
    requires
        zero() <= span.0,
        span.0 <= span.1,
        span.1 <= whole(1),
        changes_sign(engine, math, condition, throttle, span.0, span.1),
        engine.spool_bracket(math, condition, throttle, span, n) == Ok::<(F64, F64), Fault>(last),
    ensures
        span.0 <= last.0,
        last.0 <= last.1,
        last.1 <= span.1,
        changes_sign(engine, math, condition, throttle, last.0, last.1),
        (last.1.units() - last.0.units()) * pow2(n) <= span.1.units() - span.0.units() + 3 * pow2(1023) * (pow2(n) - 1),
    decreases n,
{
    lemma2_to64();
    if n > 0 {
        let mid = dec(5, 1) * (span.0 + span.1);
        lemma_shares_add(span.1, span.1);
        lemma_middle(span.0, span.1);
        lemma_middle_close(span.0, span.1);
        let net = engine.net_at(math, condition, throttle, mid)->Ok_0;
        let next = if net > zero() {
            (mid, span.1)
        } else {
            (span.0, mid)
        };
        lemma_bracket(engine, math, condition, throttle, next, (n - 1) as nat, last);
        lemma_pow2_unfold(n);
        let (left, width, first, cell) = (
            last.1.units() - last.0.units(),
            next.1.units() - next.0.units(),
            span.1.units() - span.0.units(),
            3 * pow2(1023),
        );
        let (fewer, more) = (pow2((n - 1) as nat) as int, pow2(n) as int);
        assert(left * more <= first + cell * (more - 1)) by (nonlinear_arith)
            requires
                more == 2 * fewer,
                left * fewer <= width + cell * (fewer - 1),
                2 * width <= first + cell,
        ;
    }
}

/// The steady spool speed is zero exactly where the core gains nothing at light-off
/// speed. Otherwise it lies between light-off and full speed: full speed if the core
/// does not slow down there, and else within a bracket on which net power changes
/// sign, no wider than the whole range halved forty times and a few roundings.
pub proof fn lemma_steady_spool<M: Numerics>(
    engine: &CompiledAirbreather,
    math: &M,
    condition: &FlightCondition,
    throttle: F64,
    spool_n: F64,
)
    requires
        zero() < engine.shaft.light_off_n,
        engine.shaft.light_off_n <= whole(1),
        engine.steady_spool(math, condition, throttle) == Ok::<F64, Fault>(spool_n),
    ensures
        spool_n == zero() <==> !(engine.net_at(math, condition, throttle, engine.shaft.light_off_n)->Ok_0 > zero()),
        spool_n != zero() ==> engine.shaft.light_off_n <= spool_n && spool_n <= whole(1),
        spool_n != zero() && !(engine.net_at(math, condition, throttle, whole(1))->Ok_0 < zero()) ==> spool_n == whole(1),
        spool_n != zero() && engine.net_at(math, condition, throttle, whole(1))->Ok_0 < zero() ==> exists|
            low: F64,
            high: F64,
        | #[trigger]
            changes_sign(engine, math, condition, throttle, low, high) && encloses(engine, low, spool_n, high),
{
    lemma_one();
    lemma_whole(1);
    let light_off = engine.shaft.light_off_n;
    let gain = engine.net_at(math, condition, throttle, light_off)->Ok_0;
    if gain > zero() && engine.net_at(math, condition, throttle, whole(1))->Ok_0 < zero() {
        let last = engine.spool_bracket(math, condition, throttle, (light_off, whole(1)), 40)->Ok_0;
        lemma_bracket(engine, math, condition, throttle, (light_off, whole(1)), 40, last);
        lemma_shares_add(last.1, last.1);
        lemma_middle(last.0, last.1);
        lemma_pow2_adds(1023, 40);
        let (cell, halvings) = (pow2(1023) as int, pow2(40) as int);
        assert(3 * cell * (halvings - 1) <= 3 * (cell * halvings)) by (nonlinear_arith)
            requires
                cell >= 0,
        ;
        assert(encloses(engine, last.0, spool_n, last.1));
    }
}

/// A spool speed lies in a bracket that is at most the range from light-off to full
/// speed halved forty times, plus 3 * 2^-51.
pub open spec fn encloses(engine: &CompiledAirbreather, low: F64, spool_n: F64, high: F64) -> bool {
    &&& engine.shaft.light_off_n <= low
    &&& low <= spool_n
    &&& spool_n <= high
    &&& high <= whole(1)
    &&& (high.units() - low.units()) * pow2(40) <= whole(1).units() - engine.shaft.light_off_n.units() + 3 * pow2(1063)
}

/// A compiled engine spends no more than the heat it releases: the core shaft's share
/// leaves the power turbine its own. An engine without a shaft books none.
pub proof fn lemma_heat_budget<M: Numerics>(
    spec: &AirbreathingSpec,
    math: &M,
    reference: &AirReference,
    engine: &CompiledAirbreather,
)
    requires
        spec.compiled(math, reference) == Ok::<CompiledAirbreather, Fault>(*engine),
    ensures
        engine.shaft == spec.shaft,
        spec.cycle.has_shaft() ==> engine.shaft_turbine_frac <= (whole(1) - spec.shaft.power_turbine_heat_fraction)
            / spec.shaft.turbine_heat_fraction,
        spec.cycle.has_shaft() ==> engine.shaft_reference_power_w > zero(),
        !spec.cycle.has_shaft() ==> engine.shaft_turbine_frac == zero() && engine.shaft_reference_power_w == zero(),
{
}

/// The design state of an engine with a shaft, none of whose shaft powers is lost to
/// underflow or overflow.
pub open spec fn design_kept(spec: &AirbreathingSpec, state: &CycleState) -> bool {
    let share = spec.shaft.turbine_heat_fraction;
    let fuel = state.fuel_flow_kg_s;
    let (efficiency, lhv) = (combustor_efficiency(), spec.fuel.properties().0);
    let raw = spec.raw_capacity_w(state);
    let friction = spec.shaft.friction_fraction * raw;
    &&& normal(share)
    &&& normal(fuel)
    &&& normal(share * fuel)
    &&& normal(share * fuel * efficiency)
    &&& normal(raw)
    &&& normal(fuel * efficiency)
    &&& normal(fuel * efficiency * lhv)
    &&& normal(state.shaft_demand_w)
    &&& normal(friction)
    &&& normal(state.shaft_demand_w + friction)
    &&& normal(spec.shaft_frac(state))
    &&& normal(spec.shaft_frac(state) * share)
    &&& normal(spec.shaft_frac(state) * share * (fuel * efficiency * lhv))
}

/// The core of a compiled engine at full throttle, full spool and its design condition
/// takes as much from the shaft, and releases as much heat, as the design run did.
proof fn lemma_design_run<M: Numerics>(
    spec: &AirbreathingSpec,
    math: &M,
    design: &FlightCondition,
    state: &CycleState,
)
    requires
        !spec.turbine_inlet_temp_k.is_nan(),
        cycle_state(
            math,
            &spec.dry(),
            spec.fuel.properties(),
            design,
            spec.turbine_inlet_temp_k,
            &spec.design_drive(math, design),
        ) == Ok::<CycleState, Fault>(*state),
    ensures
        ({
            let engine = spec.sized(math, design, state);
            let again = engine.cycle_at(math, design, whole(1), &engine.drive(whole(1), true, zero(), None));
            &&& again is Ok
            &&& again->Ok_0.shaft_demand_w == state.shaft_demand_w
            &&& again->Ok_0.combustor_heat_release_w == state.combustor_heat_release_w
        }),
{
    let engine = spec.sized(math, design, state);
    let drive = spec.design_drive(math, design);
    let eased = engine.effective_spec(whole(1));
    lemma_full_schedule();
    lemma_mul_one(spec.turbine_inlet_temp_k);
    assert(engine.drive(whole(1), true, zero(), None) == drive);
    assert(engine.scheduled_temp_k(whole(1)) == spec.turbine_inlet_temp_k);
    assert(cycle_inlet(math, &eased, design, &drive) == cycle_inlet(math, &spec.dry(), design, &drive));
    let inlet = cycle_inlet(math, &eased, design, &drive);
    assert(cycle_compression(math, &eased, &inlet) == cycle_compression(math, &spec.dry(), &inlet));
}

/// A compiled engine's shaft balances at its design point: at full throttle and spool,
/// what the turbine can give is what compressor, fan and bearings take, to within
/// eight roundings, on a host that raises one to one.
pub proof fn lemma_design_equilibrium<M: Numerics>(
    spec: &AirbreathingSpec,
    math: &M,
    reference: &AirReference,
    design: &FlightCondition,
    state: &CycleState,
    engine: &CompiledAirbreather,
)
    requires
        powi(math, whole(1), 3) == whole(1),
        spec.cycle.has_shaft(),
        spec.compiled(math, reference) == Ok::<CompiledAirbreather, Fault>(*engine),
        spec.design_condition(reference) == Ok::<FlightCondition, Fault>(*design),
        cycle_state(
            math,
            &spec.dry(),
            spec.fuel.properties(),
            design,
            spec.turbine_inlet_temp_k,
            &spec.design_drive(math, design),
        ) == Ok::<CycleState, Fault>(*state),
        design_kept(spec, state),
    ensures
        ({
            let again = engine.cycle_at(math, design, whole(1), &engine.drive(whole(1), true, zero(), None));
            let balance = engine.balance_from_state(math, &again->Ok_0, whole(1), true);
            &&& again is Ok
            &&& about(value(balance.capacity_w), value(balance.demand_w + balance.friction_w), 8)
        }),
{
    lemma_design_run(spec, math, design, state);
    lemma_one();
    let again = engine.cycle_at(math, design, whole(1), &engine.drive(whole(1), true, zero(), None))->Ok_0;
    let share = spec.shaft.turbine_heat_fraction;
    let (fuel, efficiency, lhv) = (state.fuel_flow_kg_s, combustor_efficiency(), spec.fuel.properties().0);
    let raw = spec.raw_capacity_w(state);
    let friction = spec.shaft.friction_fraction * raw;
    let frac = spec.shaft_frac(state);
    let heat = fuel * efficiency * lhv;
    lemma_parts(fuel);
    assert(state.combustor_heat_release_w == heat);
    lemma_parts(friction);
    lemma_mul_one(friction);
    reveal_with_fuel(pow, 7);
    lemma_decimal_between(95, 2, 0, 1);
    lemma_big(431, 5);
    lemma_big(50, 6);
    lemma_big(120, 6);
    lemma_whole(43_100_000);
    lemma_whole(50_000_000);
    lemma_whole(120_000_000);
    lemma_parts(lhv);
    lemma_capacity(share, fuel, efficiency, lhv, state.shaft_demand_w + friction);
}

/// What a share of the heat gives, normalized to a power, is that power to within eight
/// roundings.
proof fn lemma_capacity(share: F64, fuel: F64, efficiency: F64, lhv: F64, power: F64)
    requires
        normal(share),
        normal(fuel),
        efficiency.is_finite(),
        lhv.is_finite(),
        !efficiency.negative(),
        !lhv.negative(),
        normal(power),
        normal(share * fuel),
        normal(share * fuel * efficiency),
        normal(share * fuel * efficiency * lhv),
        normal(fuel * efficiency),
        normal(fuel * efficiency * lhv),
        normal(power / (share * fuel * efficiency * lhv)),
        normal(power / (share * fuel * efficiency * lhv) * share),
        normal(power / (share * fuel * efficiency * lhv) * share * (fuel * efficiency * lhv)),
    ensures
        about(
            value(power / (share * fuel * efficiency * lhv) * share * (fuel * efficiency * lhv)),
            value(power),
            8,
        ),
{
    let raw = share * fuel * efficiency * lhv;
    let heat = fuel * efficiency * lhv;
    let frac = power / raw;
    lemma_normal(share);
    lemma_normal(fuel);
    lemma_parts(efficiency);
    lemma_parts(lhv);
    lemma_value_order(efficiency, efficiency);
    lemma_value_order(lhv, lhv);
    lemma_normal(power);
    lemma_normal(share * fuel);
    lemma_normal(share * fuel * efficiency);
    lemma_normal(raw);
    lemma_normal(fuel * efficiency);
    lemma_normal(heat);
    lemma_normal(frac);
    lemma_normal(frac * share);
    let (t, f, e, l) = (value(share), value(fuel), value(efficiency), value(lhv));
    let (r, n) = (value(raw), value(power));
    // The raw capacity.
    lemma_product_about(share, fuel);
    lemma_product_about(share * fuel, efficiency);
    lemma_product_about(share * fuel * efficiency, lhv);
    lemma_about_same(e);
    lemma_about_same(l);
    lemma_about_product(value(share * fuel), times(t, f), e, e, 1, 0);
    lemma_about_chain(
        value(share * fuel * efficiency),
        times(value(share * fuel), e),
        times(times(t, f), e),
        1,
        1,
    );
    lemma_about_product(value(share * fuel * efficiency), times(times(t, f), e), l, l, 2, 0);
    let exact = times(times(times(t, f), e), l);
    lemma_about_chain(r, times(value(share * fuel * efficiency), l), exact, 1, 2);
    // The heat.
    lemma_product_about(fuel, efficiency);
    lemma_product_about(fuel * efficiency, lhv);
    lemma_about_product(value(fuel * efficiency), times(f, e), l, l, 1, 0);
    let released = times(times(f, e), l);
    lemma_about_chain(value(heat), times(value(fuel * efficiency), l), released, 1, 1);
    // The normalized capacity.
    lemma_quotient_about(power, raw);
    lemma_product_about(frac, share);
    lemma_product_about(frac * share, heat);
    let ideal = over(n, r);
    lemma_about_same(t);
    lemma_about_product(value(frac), ideal, t, t, 1, 0);
    lemma_about_chain(value(frac * share), times(value(frac), t), times(ideal, t), 1, 1);
    lemma_about_product(value(frac * share), times(ideal, t), value(heat), released, 2, 2);
    let given = value(frac * share * heat);
    lemma_about_chain(given, times(value(frac * share), value(heat)), times(times(ideal, t), released), 1, 4);
    // All of it again.
    lemma_times_associates(t, f, e);
    lemma_times_associates(t, times(f, e), l);
    lemma_times_associates(ideal, t, released);
    assert(times(times(ideal, t), released) == times(ideal, exact));
    lemma_over(n, r);
    lemma_about_turned(r, exact, 3);
    lemma_about_bounds(value(frac), ideal, 1);
    lemma_about_same(ideal);
    lemma_about_product(ideal, ideal, exact, r, 0, 3);
    lemma_about_chain(given, times(ideal, exact), n, 5, 3);
}

} // verus!
