//! Limits and bookkeeping of electric thrusters.
use crate::electric::{
    CompiledElectricThruster, ElectricThrusterCommand, ElectricThrusterDesign, ElectricThrusterPoint, MpdDischarge,
};
use crate::error::Fault;
use crate::float::accuracy::{
    about, at_most, lemma_about_chain, lemma_about_more, lemma_about_same, lemma_about_sum, lemma_at_most,
    lemma_at_most_chain, lemma_at_most_product, lemma_difference_about, lemma_normal, lemma_normal_sum, lemma_over,
    lemma_product_about, lemma_quotient_about, lemma_remainder_about, lemma_sqrt_about, lemma_sum_about,
    lemma_times_associates, lemma_times_commutes, lemma_times_order, lemma_times_strict, lemma_value_order, normal,
    over, slack, times, value,
};
use crate::float::exact::{lemma_nothing_over, lemma_sub_self, lemma_sum_exact};
use crate::float::{lemma_one, whole, zero, F64};
use crate::float::magnitude::mag;
use crate::float::nearness::lemma_parts;
use crate::float::order::{
    lemma_add_order, lemma_div_order, lemma_less_finite, lemma_lesser_twice, lemma_middle, lemma_mul_commutes,
    lemma_negate, lemma_number_over, lemma_scaled_order, lemma_sqrt_order,
};
use crate::numerics::{powi, Numerics};
use vstd::prelude::*;

verus! {

/// What a point books: whatever input is neither jet nor carried by the exhaust is
/// waste heat, which is never negative.
pub open spec fn booked(point: ElectricThrusterPoint) -> bool {
    &&& point.waste_heat_w == (point.electrical_power_w - point.jet_kinetic_power_w
        - point.exhaust_internal_power_w).max(zero())
    &&& zero() <= point.waste_heat_w
    &&& point.mass_flow_kg_s > zero() ==> point.exhaust_velocity_mps == point.thrust_n / point.mass_flow_kg_s
}

proof fn lemma_idle(engine: &CompiledElectricThruster, power_limited: bool, flow_limited: bool)
    ensures
        booked(engine.mpd_idle(power_limited, flow_limited)),
{
    lemma_one();
    lemma_sub_self(zero());
}

/// Every point closes its energy ledger with waste heat, feeds no more propellant than
/// is requested or rated, and reports the radiator it was compiled with.
pub proof fn lemma_ledger_and_feed<M: Numerics>(
    engine: &CompiledElectricThruster,
    math: &M,
    command: ElectricThrusterCommand,
    point: ElectricThrusterPoint,
)
    requires
        engine.point(math, command) == Ok::<ElectricThrusterPoint, Fault>(point),
    ensures
        booked(point),
        point.mass_flow_kg_s <= command.requested_mass_flow_kg_s,
        point.mass_flow_kg_s <= engine.maximum_mass_flow_kg_s,
        point.radiator_capacity_w == engine.radiator_heat_rejection_w,
        command.available_power_w > engine.maximum_power_w ==> point.power_limited,
        point.flow_limited == (command.requested_mass_flow_kg_s > engine.maximum_mass_flow_kg_s),
{
    lemma_one();
    lemma_parts(command.requested_mass_flow_kg_s);
    lemma_parts(command.available_power_w);
    let flow = command.requested_mass_flow_kg_s.min(engine.maximum_mass_flow_kg_s);
    let power = command.available_power_w.min(engine.maximum_power_w);
    assert(flow <= command.requested_mass_flow_kg_s && flow <= engine.maximum_mass_flow_kg_s);
    assert(zero() <= flow);
    match engine.design {
        ElectricThrusterDesign::Magnetoplasmadynamic {
            arc_voltage_v,
            cathode_radius_m,
            anode_radius_m,
            max_current_a,
            jet_power_efficiency,
            ..
        } => {
            let discharge = engine.mpd_discharge(
                math,
                flow,
                arc_voltage_v,
                cathode_radius_m,
                anode_radius_m,
                max_current_a,
                jet_power_efficiency,
                command.requested_mass_flow_kg_s > engine.maximum_mass_flow_kg_s,
            );
            lemma_mpd_ledger(engine, math, &discharge, power);
            lemma_mpd_ledger(engine, math, &discharge, engine.throttled(math, &discharge, power, 56).0);
        },
        _ => {},
    }
}

proof fn lemma_mpd_ledger<M: Numerics>(
    engine: &CompiledElectricThruster,
    math: &M,
    discharge: &MpdDischarge,
    power_w: F64,
)
    requires
        zero() <= discharge.requested_flow,
    ensures
        booked(engine.mpd_at_power(math, discharge, power_w)),
        engine.mpd_at_power(math, discharge, power_w).mass_flow_kg_s <= discharge.requested_flow,
        engine.mpd_at_power(math, discharge, power_w).flow_limited == discharge.flow_limited,
        engine.mpd_at_power(math, discharge, power_w).radiator_capacity_w == engine.radiator_heat_rejection_w,
{
    lemma_one();
    lemma_idle(engine, true, discharge.flow_limited);
    lemma_idle(engine, false, discharge.flow_limited);
}

/// A magnetoplasmadynamic arc draws no more than the bus offers, carries no more than
/// its current rating, and never makes more waste heat than the radiator rejects.
pub proof fn lemma_arc_limits<M: Numerics>(
    engine: &CompiledElectricThruster,
    math: &M,
    command: ElectricThrusterCommand,
    point: ElectricThrusterPoint,
)
    requires
        engine.point(math, command) == Ok::<ElectricThrusterPoint, Fault>(point),
        engine.design is Magnetoplasmadynamic,
        (command.available_power_w + command.available_power_w).is_finite(),
    ensures
        point.waste_heat_w <= engine.radiator_heat_rejection_w,
        point.electrical_power_w <= command.available_power_w,
        point.electrical_power_w <= engine.maximum_power_w,
        point.discharge_current_a <= engine.design->Magnetoplasmadynamic_max_current_a,
{
    lemma_one();
    lemma_parts(command.requested_mass_flow_kg_s);
    lemma_parts(command.available_power_w);
    lemma_parts(engine.maximum_power_w);
    let flow = command.requested_mass_flow_kg_s.min(engine.maximum_mass_flow_kg_s);
    let power = command.available_power_w.min(engine.maximum_power_w);
    lemma_lesser_twice(power, command.available_power_w);
    match engine.design {
        ElectricThrusterDesign::Magnetoplasmadynamic {
            arc_voltage_v,
            cathode_radius_m,
            anode_radius_m,
            max_current_a,
            jet_power_efficiency,
            ..
        } => {
            let discharge = engine.mpd_discharge(
                math,
                flow,
                arc_voltage_v,
                cathode_radius_m,
                anode_radius_m,
                max_current_a,
                jet_power_efficiency,
                command.requested_mass_flow_kg_s > engine.maximum_mass_flow_kg_s,
            );
            lemma_mpd_ledger(engine, math, &discharge, power);
            lemma_throttled(engine, math, &discharge, power, 56);
            lemma_arc_at(engine, math, &discharge, power);
            lemma_arc_at(engine, math, &discharge, engine.throttled(math, &discharge, power, 56).0);
        },
        _ => {},
    }
}

/// The throttled power stays within what was available, and what it leaves to the
/// radiator is rejected.
proof fn lemma_throttled<M: Numerics>(
    engine: &CompiledElectricThruster,
    math: &M,
    discharge: &MpdDischarge,
    power_w: F64,
    n: nat,
)
    requires
        zero() < engine.radiator_heat_rejection_w,
        zero() <= power_w,
        power_w.is_finite(),
        (power_w + power_w).is_finite(),
    ensures
        ({
            let (low, high) = engine.throttled(math, discharge, power_w, n);
            &&& zero() <= low
            &&& low <= high
            &&& high <= power_w
            &&& engine.mpd_rejects(math, discharge, low)
        }),
    decreases n,
{
    lemma_one();
    lemma_sub_self(zero());
    if n > 0 {
        lemma_throttled(engine, math, discharge, power_w, (n - 1) as nat);
        let (low, high) = engine.throttled(math, discharge, power_w, (n - 1) as nat);
        lemma_parts(high);
        lemma_parts(power_w);
        lemma_lesser_twice(high, power_w);
        lemma_middle(low, high);
    } else {
        lemma_parts(power_w);
        assert(engine.mpd_at_power(math, discharge, zero()).waste_heat_w == zero());
    }
}

proof fn lemma_arc_at<M: Numerics>(engine: &CompiledElectricThruster, math: &M, discharge: &MpdDischarge, power_w: F64)
    requires
        zero() <= power_w,
        zero() <= discharge.max_current_a,
    ensures
        engine.mpd_at_power(math, discharge, power_w).electrical_power_w <= power_w,
        engine.mpd_at_power(math, discharge, power_w).discharge_current_a <= discharge.max_current_a,
{
    lemma_one();
    let flow = discharge.mass_flow_kg_s(power_w);
    let cap = (power_w / discharge.arc_voltage_v).min(discharge.max_current_a);
    lemma_settled(discharge, flow, cap, 24);
    lemma_parts(discharge.settle_current(flow, cap));
}

/// The settled current never leaves its cap.
proof fn lemma_settled(discharge: &MpdDischarge, mass_flow_kg_s: F64, cap_a: F64, n: nat)
    requires
        !cap_a.is_nan(),
    ensures
        discharge.settled_current(mass_flow_kg_s, cap_a, n) <= cap_a,
    decreases n,
{
    if n > 0 {
        lemma_settled(discharge, mass_flow_kg_s, cap_a, (n - 1) as nat);
    }
}

/// An arc with ordinary numbers: positive voltage and thrust coefficient, a share of
/// power for the jet, and a feed that can be ionized.
pub open spec fn ordinary_arc(discharge: &MpdDischarge, mass_flow_kg_s: F64) -> bool {
    &&& zero() < discharge.arc_voltage_v
    &&& discharge.arc_voltage_v.is_finite()
    &&& zero() < discharge.jet_power_efficiency
    &&& discharge.jet_power_efficiency.is_finite()
    &&& zero() < discharge.maecker_n_a2
    &&& discharge.maecker_n_a2.is_finite()
    &&& zero() <= mass_flow_kg_s * discharge.ionization_specific_j_kg
    &&& (mass_flow_kg_s * discharge.ionization_specific_j_kg).is_finite()
    &&& zero() < whole(2) * mass_flow_kg_s
    &&& (whole(2) * mass_flow_kg_s).is_finite()
}

/// The settling arc current never rises from one round to the next, and each round
/// carries no more than the jet budget of the round before pays for: an arc settles
/// within the jet budget of its whole draw.
pub proof fn lemma_arc_settles(discharge: &MpdDischarge, mass_flow_kg_s: F64, cap_a: F64, n: nat)
    requires
        ordinary_arc(discharge, mass_flow_kg_s),
        zero() <= cap_a,
    ensures
        ({
            let now = discharge.settled_current(mass_flow_kg_s, cap_a, n);
            let next = discharge.settled_current(mass_flow_kg_s, cap_a, n + 1);
            &&& zero() <= next
            &&& next <= now
            &&& next <= discharge.energy_limited_current_a(mass_flow_kg_s, now)
            &&& next <= discharge.energy_limited_current_a(mass_flow_kg_s, cap_a)
        }),
    decreases n,
{
    let now = discharge.settled_current(mass_flow_kg_s, cap_a, n);
    if n > 0 {
        lemma_arc_settles(discharge, mass_flow_kg_s, cap_a, (n - 1) as nat);
        lemma_settled(discharge, mass_flow_kg_s, cap_a, n);
        lemma_budget_order(discharge, mass_flow_kg_s, now, cap_a);
        lemma_budget_order(
            discharge,
            mass_flow_kg_s,
            now,
            discharge.settled_current(mass_flow_kg_s, cap_a, (n - 1) as nat),
        );
    } else {
        lemma_budget_order(discharge, mass_flow_kg_s, cap_a, cap_a);
    }
}

/// A greater draw pays for no less current.
proof fn lemma_budget_order(discharge: &MpdDischarge, mass_flow_kg_s: F64, low: F64, high: F64)
    requires
        ordinary_arc(discharge, mass_flow_kg_s),
        zero() <= low,
        low <= high,
    ensures
        zero() <= discharge.energy_limited_current_a(mass_flow_kg_s, low),
        discharge.energy_limited_current_a(mass_flow_kg_s, low) <= discharge.energy_limited_current_a(
            mass_flow_kg_s,
            high,
        ),
{
    let (volts, share, doubled) = (discharge.arc_voltage_v, discharge.jet_power_efficiency, whole(2) * mass_flow_kg_s);
    let ionization = mass_flow_kg_s * discharge.ionization_specific_j_kg;
    lemma_one();
    lemma_scaled_order(volts, low, high);
    lemma_less_finite(volts * low, ionization);
    lemma_less_finite(volts * high, ionization);
    lemma_add_order(volts * low, volts * high, ionization.negate());
    let (less, more) = ((volts * low - ionization).max(zero()), (volts * high - ionization).max(zero()));
    lemma_scaled_order(share, less, more);
    lemma_mul_commutes(share, less);
    lemma_mul_commutes(share, more);
    lemma_scaled_order(doubled, less * share, more * share);
    lemma_sqrt_order(doubled * (less * share), doubled * (more * share));
    let (slow, fast) = ((doubled * (less * share)).sqrt(), (doubled * (more * share)).sqrt());
    lemma_number_over(slow, discharge.maecker_n_a2);
    lemma_number_over(fast, discharge.maecker_n_a2);
    lemma_number_over(zero(), discharge.maecker_n_a2);
    lemma_div_order(slow, fast, discharge.maecker_n_a2);
    lemma_div_order(zero(), slow, discharge.maecker_n_a2);
    lemma_nothing_over(zero(), discharge.maecker_n_a2);
    lemma_sqrt_order(slow / discharge.maecker_n_a2, fast / discharge.maecker_n_a2);
}

/// What an arc that draws a current leaves to its jet (W).
pub open spec fn jet_budget(discharge: &MpdDischarge, mass_flow_kg_s: F64, draw_a: F64) -> F64 {
    (discharge.arc_voltage_v * draw_a - mass_flow_kg_s * discharge.ionization_specific_j_kg).max(zero())
        * discharge.jet_power_efficiency
}

/// The jet of a current and the budget of a draw, no term of which is lost to underflow
/// or overflow.
pub open spec fn jet_kept(discharge: &MpdDischarge, mass_flow_kg_s: F64, draw_a: F64, current_a: F64) -> bool {
    let (doubled, budget) = (whole(2) * mass_flow_kg_s, jet_budget(discharge, mass_flow_kg_s, draw_a));
    let pull = (doubled * budget).sqrt();
    let thrust = discharge.maecker_n_a2 * (current_a * current_a);
    &&& normal(doubled) && normal(budget) && normal(doubled * budget)
    &&& normal(pull) && normal(discharge.maecker_n_a2) && normal(pull / discharge.maecker_n_a2)
    &&& normal((pull / discharge.maecker_n_a2).sqrt())
    &&& normal(current_a) && normal(current_a * current_a) && normal(thrust)
    &&& normal(thrust * thrust) && normal(thrust * thrust / doubled)
}

/// A current that the jet budget of a draw pays for makes no more jet power than that
/// budget, to within fifteen roundings, on a host that squares by one multiplication. So
/// an arc never exceeds the budget of the draw before its last round, nor its own once
/// it has settled.
pub proof fn lemma_arc_budget<M: Numerics>(
    engine: &CompiledElectricThruster,
    math: &M,
    discharge: &MpdDischarge,
    power_w: F64,
    draw_a: F64,
)
    requires
        ({
            let flow = discharge.mass_flow_kg_s(power_w);
            let current = discharge.settle_current(
                flow,
                (power_w / discharge.arc_voltage_v).min(discharge.max_current_a),
            );
            let thrust = discharge.maecker_n_a2 * (current * current);
            &&& zero() < flow
            &&& zero() < power_w
            &&& current <= discharge.energy_limited_current_a(flow, draw_a)
            &&& jet_kept(discharge, flow, draw_a, current)
            &&& powi(math, current, 2) == current * current
            &&& powi(math, thrust, 2) == thrust * thrust
        }),
    ensures
        at_most(
            value(engine.mpd_at_power(math, discharge, power_w).jet_kinetic_power_w),
            value(jet_budget(discharge, discharge.mass_flow_kg_s(power_w), draw_a)),
            15,
        ),
{
    let flow = discharge.mass_flow_kg_s(power_w);
    let current = discharge.settle_current(flow, (power_w / discharge.arc_voltage_v).min(discharge.max_current_a));
    let (doubled, budget, pinch) = (whole(2) * flow, jet_budget(discharge, flow, draw_a), discharge.maecker_n_a2);
    let pull = (doubled * budget).sqrt();
    let bound = (pull / pinch).sqrt();
    let thrust = pinch * (current * current);
    let (i, b, k, s, f, d) = (
        value(current),
        value(budget),
        value(pinch),
        value(pull),
        value(thrust),
        value(doubled),
    );
    lemma_one();
    lemma_normal(doubled);
    lemma_normal(budget);
    lemma_normal(doubled * budget);
    lemma_normal(pull);
    lemma_normal(pinch);
    lemma_normal(pull / pinch);
    lemma_normal(bound);
    lemma_normal(current);
    lemma_normal(current * current);
    lemma_normal(thrust);
    lemma_normal(thrust * thrust);
    lemma_parts(current);
    lemma_parts(flow);
    lemma_parts(power_w);
    // The square of the current, within what the bound allows.
    lemma_value_order(current, bound);
    lemma_times_order(i, value(bound), i);
    lemma_times_order(i, value(bound), value(bound));
    lemma_sqrt_about(pull / pinch);
    lemma_at_most(times(value(bound), value(bound)), value(pull / pinch), 2);
    lemma_quotient_about(pull, pinch);
    lemma_at_most(value(pull / pinch), over(s, k), 1);
    lemma_at_most_chain(times(value(bound), value(bound)), value(pull / pinch), over(s, k), 2, 1);
    lemma_product_about(current, current);
    lemma_at_most(value(current * current), times(i, i), 1);
    assert(at_most(times(i, i), over(s, k), 3));
    lemma_at_most_chain(value(current * current), times(i, i), over(s, k), 1, 3);
    // The thrust, within the pull.
    lemma_product_about(pinch, current * current);
    lemma_at_most(f, times(k, value(current * current)), 1);
    lemma_over(s, k);
    lemma_times_commutes(over(s, k), k);
    lemma_at_most_same(k);
    lemma_at_most_product(k, k, value(current * current), over(s, k), 0, 4);
    lemma_at_most_chain(f, times(k, value(current * current)), s, 1, 4);
    // The square of the thrust, within what the budget gives.
    lemma_product_about(thrust, thrust);
    lemma_at_most(value(thrust * thrust), times(f, f), 1);
    lemma_at_most_product(f, s, f, s, 5, 5);
    lemma_at_most_chain(value(thrust * thrust), times(f, f), times(s, s), 1, 10);
    lemma_sqrt_about(doubled * budget);
    lemma_at_most(times(s, s), value(doubled * budget), 2);
    lemma_at_most_chain(value(thrust * thrust), times(s, s), value(doubled * budget), 11, 2);
    lemma_product_about(doubled, budget);
    lemma_at_most(value(doubled * budget), times(d, b), 1);
    lemma_at_most_chain(value(thrust * thrust), value(doubled * budget), times(d, b), 13, 1);
    // The jet.
    lemma_quotient_about(thrust * thrust, doubled);
    lemma_at_most(value(thrust * thrust / doubled), over(value(thrust * thrust), d), 1);
    lemma_at_most_over(value(thrust * thrust), b, d, 14);
    lemma_at_most_chain(value(thrust * thrust / doubled), over(value(thrust * thrust), d), b, 1, 14);
}

/// What is at most a multiple of a number, over that multiple.
proof fn lemma_at_most_over(x: real, y: real, d: real, k: nat)
    requires
        at_most(x, times(d, y), k),
        d > (0 as real),
    ensures
        at_most(over(x, d), y, k),
{
    lemma_over(x, d);
    lemma_times_associates(d, y, slack(k));
    let bound = times(y, slack(k));
    lemma_times_commutes(d, bound);
    if over(x, d) > bound {
        lemma_times_strict(bound, over(x, d), d);
    }
}

/// A number exceeds itself by nothing.
proof fn lemma_at_most_same(x: real)
    requires
        x >= (0 as real),
    ensures
        at_most(x, x, 0),
{
    lemma_about_same(x);
    lemma_at_most(x, x, 0);
}

/// No term of a point's energy ledger is lost to underflow or overflow, and its parts
/// do not exceed the whole.
pub open spec fn ordinary_ledger(point: ElectricThrusterPoint) -> bool {
    let (input, jet, inner) = (point.electrical_power_w, point.jet_kinetic_power_w, point.exhaust_internal_power_w);
    &&& normal(input) && normal(jet + inner) && normal(jet + inner + point.waste_heat_w)
    &&& jet.is_finite() && !jet.negative() && inner.is_finite() && !inner.negative()
    &&& jet <= input && inner <= input - jet
    &&& normal(input - jet) || jet.same(input)
    &&& normal(input - jet - inner) || inner.same(input - jet)
}

/// First law of the electric thrusters: jet power, the power that the exhaust keeps and
/// waste heat add up to the electrical input, to within four roundings.
pub proof fn lemma_electric_first_law<M: Numerics>(
    engine: &CompiledElectricThruster,
    math: &M,
    command: ElectricThrusterCommand,
    point: ElectricThrusterPoint,
)
    requires
        engine.point(math, command) == Ok::<ElectricThrusterPoint, Fault>(point),
        ordinary_ledger(point),
    ensures
        about(
            value(point.jet_kinetic_power_w + point.exhaust_internal_power_w + point.waste_heat_w),
            value(point.electrical_power_w),
            4,
        ),
{
    lemma_ledger_and_feed(engine, math, command, point);
    let (input, jet, inner) = (point.electrical_power_w, point.jet_kinetic_power_w, point.exhaust_internal_power_w);
    let rest = input - jet;
    let left = rest - inner;
    let waste = point.waste_heat_w;
    lemma_one();
    lemma_parts(input);
    lemma_parts(jet);
    lemma_parts(inner);
    lemma_parts(waste);
    lemma_difference_about(input, jet);
    lemma_parts(rest);
    if jet.same(input) {
        lemma_equal_difference(input, jet);
    }
    lemma_difference_about(rest, inner);
    lemma_parts(left);
    if inner.same(rest) {
        lemma_equal_difference(rest, inner);
    }
    assert(waste.units() == left.units());
    lemma_value_order(waste, left);
    lemma_value_order(left, waste);
    assert(value(waste) == value(left));
    lemma_value_order(jet, zero());
    lemma_value_order(inner, zero());
    lemma_value_order(waste, zero());
    let (vi, vj, vn, vw) = (value(input), value(jet), value(inner), value(waste));
    lemma_remainder_about(vi, vj, vn, value(rest), vw);
    lemma_parts(jet + inner);
    lemma_normal_sum(jet, inner);
    lemma_sum_about(jet, inner);
    lemma_about_same(vw);
    lemma_about_more(vw, vw, 0, 1);
    lemma_about_sum(value(jet + inner), vj + vn, vw, vw, 1);
    lemma_sum_about(jet + inner, waste);
    let sum = value(jet + inner + waste);
    lemma_about_chain(sum, value(jet + inner) + vw, vj + vn + vw, 1, 1);
    lemma_about_chain(sum, vj + vn + vw, vi, 2, 2);
}

/// Equal numbers have no difference.
proof fn lemma_equal_difference(a: F64, b: F64)
    requires
        a.is_finite(),
        b.is_finite(),
        a.units() == b.units(),
    ensures
        (a - b).units() == 0,
        (a - b).is_finite(),
{
    lemma_negate(b);
    lemma_parts(b.negate());
    assert(mag(0) == 0);
    lemma_sum_exact(a, b.negate(), 0);
}

} // verus!
