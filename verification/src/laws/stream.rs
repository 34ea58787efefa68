//! The jets of electric thrusters: thrust, flow and power are those of one stream.
use crate::electric::{
    avogadro_per_mol, binding, elementary_charge_c, molar_gas_constant_j_mol_k, CompiledElectricThruster,
    ElectricPropellant, ElectricThrusterCommand, ElectricThrusterDesign, ElectricThrusterPoint,
};
use crate::error::Fault;
use crate::float::accuracy::{
    about, at_most, lemma_about_chain, lemma_about_product, lemma_about_quotient, lemma_about_same, lemma_about_sum,
    lemma_about_turned, lemma_at_most, lemma_at_most_chain, lemma_difference_about, lemma_normal, lemma_over,
    lemma_times_adds, lemma_times_associates, lemma_times_commutes, lemma_times_one, lemma_times_order,
    lemma_times_positive, lemma_times_unique, lemma_value_order, normal, over, times, value,
};
use crate::float::{dec, lemma_one, whole, zero, F64};
use crate::float::nearness::lemma_parts;
use crate::float::order::lemma_mul_commutes;
use crate::float::tracking::{
    lemma_about_itself, lemma_about_over, lemma_about_plus, lemma_about_root, lemma_about_times, lemma_half_value,
    lemma_whole_value,
};
use crate::laws::expansion::lemma_less_one;
use crate::numerics::{powi, Numerics};
use vstd::prelude::*;

verus! {

/// The host squares a number by one multiplication.
pub open spec fn squares<M: Numerics>(math: &M, x: F64) -> bool {
    powi(math, x, 2) == x * x
}

/// What an electrothermal thruster is made of: temperature, heater and nozzle efficiency.
pub open spec fn heated(design: ElectricThrusterDesign) -> Option<(F64, F64, F64)> {
    match design {
        ElectricThrusterDesign::Resistojet { max_exhaust_temp_k, heater_efficiency, nozzle_efficiency, .. } => Some(
            (max_exhaust_temp_k, heater_efficiency, nozzle_efficiency),
        ),
        ElectricThrusterDesign::Arcjet { max_exhaust_temp_k, heater_efficiency, nozzle_efficiency, .. } => Some(
            (max_exhaust_temp_k, heater_efficiency, nozzle_efficiency),
        ),
        _ => None,
    }
}

/// A heated stream, no term of which is lost to underflow or overflow.
pub open spec fn heated_kept(
    engine: &CompiledElectricThruster,
    flow: F64,
    temp_k: F64,
    heater: F64,
    nozzle: F64,
) -> bool {
    let (cp, rise) = (engine.propellant.specific_heat_j_kg_k(), temp_k - engine.inlet_temperature_k);
    let heat = cp * rise;
    let speed = (whole(2) * nozzle * heat).sqrt();
    let (energy, kinetic) = (heat / heater, dec(5, 1) * (speed * speed));
    &&& normal(flow) && normal(cp) && normal(rise) && normal(heat) && normal(heater) && normal(nozzle)
    &&& temp_k.is_finite() && engine.inlet_temperature_k.is_finite() && engine.inlet_temperature_k <= temp_k
    &&& normal(whole(2) * nozzle) && normal(whole(2) * nozzle * heat) && normal(speed) && normal(speed * speed)
    &&& normal(kinetic) && normal(energy) && normal(flow * speed) && normal(flow * energy) && normal(flow * kinetic)
}

/// Every electrothermal point describes one stream, on a host that squares by one
/// multiplication. The square of the thrust is twice the flow times the jet power, to
/// within five roundings. The heater's share of the electrical power is what warms the
/// flow from the inlet to the exhaust temperature, to within four. The jet power is the
/// nozzle's share of that, to within nine. An arc's current at its voltage is the whole
/// electrical power.
pub proof fn lemma_heated_stream<M: Numerics>(
    engine: &CompiledElectricThruster,
    math: &M,
    command: ElectricThrusterCommand,
    point: ElectricThrusterPoint,
    temp_k: F64,
    heater: F64,
    nozzle: F64,
)
    requires
        engine.point(math, command) == Ok::<ElectricThrusterPoint, Fault>(point),
        heated(engine.design) == Some((temp_k, heater, nozzle)),
        heated_kept(engine, point.mass_flow_kg_s, temp_k, heater, nozzle),
        forall|x: F64| #[trigger] squares(math, x),
    ensures
        ({
            let (thrust, flow, jet) = (value(point.thrust_n), value(point.mass_flow_kg_s), value(point.jet_kinetic_power_w));
            let (input, rise) = (value(point.electrical_power_w), value(temp_k) - value(engine.inlet_temperature_k));
            let warmth = times(flow, times(value(engine.propellant.specific_heat_j_kg_k()), rise));
            &&& about(times(thrust, thrust), times(times(2 as real, flow), jet), 5)
            &&& about(times(input, value(heater)), warmth, 4)
            &&& about(jet, times(times(value(nozzle), value(heater)), input), 9)
            &&& engine.design is Resistojet ==> point.discharge_current_a == zero()
            &&& engine.design is Arcjet ==> point.discharge_current_a == point.electrical_power_w
                / engine.design->Arcjet_arc_voltage_v
        }),
{
    let (flow, inlet) = (point.mass_flow_kg_s, engine.inlet_temperature_k);
    let (cp, rise) = (engine.propellant.specific_heat_j_kg_k(), temp_k - inlet);
    let heat = cp * rise;
    let doubled = whole(2) * nozzle;
    let speed = (doubled * heat).sqrt();
    let (energy, kinetic) = (heat / heater, dec(5, 1) * (speed * speed));
    assert(squares(math, speed));
    assert(point.thrust_n == flow * speed);
    assert(point.jet_kinetic_power_w == flow * kinetic);
    assert(point.electrical_power_w == flow * energy);
    let (m, v, h) = (value(flow), value(speed), value(heat));
    lemma_normal(flow);
    lemma_normal(speed);
    lemma_normal(heat);
    lemma_normal(heater);
    lemma_normal(nozzle);
    lemma_normal(cp);
    lemma_normal(rise);
    lemma_normal(doubled);
    lemma_normal(doubled * heat);
    lemma_normal(speed * speed);
    lemma_normal(kinetic);
    lemma_normal(energy);
    lemma_about_itself(flow);
    lemma_about_itself(speed);
    lemma_about_itself(heat);
    lemma_about_itself(heater);
    lemma_about_itself(nozzle);
    lemma_about_itself(cp);
    lemma_half_value();
    lemma_whole_value(2);
    lemma_parts(whole(2));
    lemma_normal(dec(5, 1));
    lemma_about_itself(dec(5, 1));
    lemma_about_itself(whole(2));
    // Thrust and jet.
    let half = value(dec(5, 1));
    lemma_about_times(flow, speed, m, v, 0, 0);
    lemma_about_product(value(point.thrust_n), times(m, v), value(point.thrust_n), times(m, v), 1, 1);
    lemma_about_times(speed, speed, v, v, 0, 0);
    lemma_about_times(dec(5, 1), speed * speed, half, times(v, v), 0, 1);
    lemma_about_times(flow, kinetic, m, times(half, times(v, v)), 0, 2);
    let ideal = times(m, times(half, times(v, v)));
    lemma_about_turned(value(flow * kinetic), ideal, 3);
    lemma_times_positive(2 as real, m);
    lemma_about_same(times(2 as real, m));
    lemma_about_product(
        times(2 as real, m),
        times(2 as real, m),
        ideal,
        value(flow * kinetic),
        0,
        3,
    );
    lemma_one_stream(m, v, half);
    lemma_about_chain(
        times(value(point.thrust_n), value(point.thrust_n)),
        times(times(m, v), times(m, v)),
        times(times(2 as real, m), value(flow * kinetic)),
        2,
        3,
    );
    // Input and warmth.
    lemma_difference_about(temp_k, inlet);
    let rose = value(temp_k) - value(inlet);
    lemma_about_times(cp, rise, value(cp), rose, 0, 1);
    lemma_about_over(heat, heater, h, value(heater), 0, 0);
    lemma_about_times(flow, energy, m, over(h, value(heater)), 0, 1);
    lemma_about_same(value(heater));
    lemma_about_product(
        value(point.electrical_power_w),
        times(m, over(h, value(heater))),
        value(heater),
        value(heater),
        2,
        0,
    );
    lemma_over(h, value(heater));
    lemma_times_associates(m, over(h, value(heater)), value(heater));
    lemma_about_product(m, m, h, times(value(cp), rose), 0, 2);
    lemma_about_chain(
        times(value(point.electrical_power_w), value(heater)),
        times(m, h),
        times(m, times(value(cp), rose)),
        2,
        2,
    );
    // The nozzle's share.
    lemma_about_times(whole(2), nozzle, 2 as real, value(nozzle), 0, 0);
    lemma_about_times(doubled, heat, times(2 as real, value(nozzle)), h, 1, 0);
    let twice = times(times(2 as real, value(nozzle)), h);
    lemma_about_root(doubled * heat, twice, 2);
    lemma_about_same(half);
    lemma_about_product(half, half, times(v, v), twice, 0, 4);
    lemma_about_product(m, m, times(half, times(v, v)), times(half, twice), 0, 4);
    lemma_about_chain(value(flow * kinetic), ideal, times(m, times(half, twice)), 3, 4);
    let input = value(point.electrical_power_w);
    let share = value(nozzle);
    lemma_about_turned(times(input, value(heater)), times(m, h), 2);
    lemma_about_same(share);
    lemma_about_product(share, share, times(m, h), times(input, value(heater)), 0, 2);
    lemma_halved_twice(m, half, share, h);
    lemma_about_chain(value(flow * kinetic), times(share, times(m, h)), times(share, times(input, value(heater))), 7, 2);
    lemma_times_commutes(input, value(heater));
    lemma_times_associates(share, value(heater), input);
}

/// The square of a momentum flow is twice the flow times the power of the stream.
proof fn lemma_one_stream(m: real, v: real, half: real)
    requires
        half + half == (1 as real),
    ensures
        times(times(2 as real, m), times(m, times(half, times(v, v)))) == times(times(m, v), times(m, v)),
{
    let (two, energy) = (2 as real, times(v, v));
    lemma_doubled_half(m, half, energy);
    // 2 m (m (half v v)) == m (2 (m (half v v))) == m (m v v)
    let power = times(m, times(half, energy));
    lemma_times_commutes(two, m);
    lemma_times_associates(m, two, power);
    lemma_times_associates(m, v, times(m, v));
    lemma_times_commutes(m, v);
    lemma_times_associates(v, m, v);
    lemma_times_commutes(v, times(m, v));
    lemma_times_associates(m, v, v);
}

/// Twice the half of a product.
pub proof fn lemma_doubled_half(m: real, half: real, x: real)
    requires
        half + half == (1 as real),
    ensures
        times(2 as real, times(m, times(half, x))) == times(m, x),
{
    lemma_times_one(times(m, times(half, x)));
    lemma_times_adds(times(half, x), times(half, x), m);
    lemma_times_adds(half, half, x);
    lemma_times_one(x);
}

/// Half of twice a share.
proof fn lemma_halved_twice(m: real, half: real, share: real, h: real)
    requires
        half + half == (1 as real),
    ensures
        times(m, times(half, times(times(2 as real, share), h))) == times(share, times(m, h)),
{
    let two = 2 as real;
    lemma_times_associates(two, share, h);
    lemma_times_commutes(two, times(share, h));
    lemma_times_associates(half, times(share, h), two);
    lemma_times_one(times(half, times(share, h)));
    lemma_times_adds(half, half, times(share, h));
    lemma_times_one(times(share, h));
    lemma_times_associates(m, share, h);
    lemma_times_commutes(m, share);
    lemma_times_associates(share, m, h);
}

/// What an ion thruster is made of: accelerating voltage, propellant utilization and
/// accelerator efficiency.
pub open spec fn electrostatic(design: ElectricThrusterDesign) -> Option<(F64, F64, F64)> {
    match design {
        ElectricThrusterDesign::GriddedIon {
            accelerator_voltage_v,
            propellant_utilization,
            accelerator_efficiency,
            ..
        } => Some((accelerator_voltage_v, propellant_utilization, accelerator_efficiency)),
        ElectricThrusterDesign::HallEffect {
            accelerator_voltage_v,
            propellant_utilization,
            accelerator_efficiency,
            ..
        } => Some((accelerator_voltage_v, propellant_utilization, accelerator_efficiency)),
        _ => None,
    }
}

/// A beam of ions, no term of which is lost to underflow or overflow.
pub open spec fn beam_kept(
    engine: &CompiledElectricThruster,
    flow: F64,
    volts: F64,
    share: F64,
    efficiency: F64,
) -> bool {
    let species = engine.propellant.properties();
    let (e, many, molar) = (elementary_charge_c(), avogadro_per_mol(), species.molar_mass_kg_mol);
    let (grain, ev) = (molar / many, species.first_ionization_ev);
    let speed = (whole(2) * e * volts / grain).sqrt();
    let ion = ev * e * many / molar;
    let acceleration = e * volts * many / molar;
    let (paid, spent) = (ion / engine.ionization_efficiency, acceleration / efficiency);
    let current = share * e * many / molar;
    &&& normal(flow) && normal(volts) && normal(share) && normal(efficiency) && normal(engine.ionization_efficiency)
    &&& normal(e) && normal(many) && normal(molar) && normal(ev) && normal(grain)
    &&& normal(whole(2) * e) && normal(whole(2) * e * volts) && normal(whole(2) * e * volts / grain) && normal(speed)
    &&& normal(ev * e) && normal(ev * e * many) && normal(ion)
    &&& normal(e * volts) && normal(e * volts * many) && normal(acceleration)
    &&& normal(paid) && normal(spent) && normal(paid + spent) && normal(share * (paid + spent))
    &&& normal(share * acceleration) && normal(share * ion)
    &&& normal(share * e) && normal(share * e * many) && normal(current)
    &&& normal(flow * share) && normal(flow * share * speed) && normal(flow * (share * (paid + spent)))
    &&& normal(flow * (share * acceleration)) && normal(flow * (share * ion)) && normal(flow * current)
}

/// Every electrostatic point describes one beam of ions. The current carries a charge an
/// ion of the used share of the flow; the jet power is that current through the
/// accelerating voltage, and the power that the exhaust keeps is the current through the
/// ionization potential; the electrical input pays for both at their efficiencies; and the
/// square of the thrust is twice the used flow times the jet power. Each holds to within
/// fifteen roundings or fewer.
pub proof fn lemma_ion_stream<M: Numerics>(
    engine: &CompiledElectricThruster,
    math: &M,
    command: ElectricThrusterCommand,
    point: ElectricThrusterPoint,
    volts: F64,
    share: F64,
    efficiency: F64,
)
    requires
        engine.point(math, command) == Ok::<ElectricThrusterPoint, Fault>(point),
        electrostatic(engine.design) == Some((volts, share, efficiency)),
        beam_kept(engine, point.mass_flow_kg_s, volts, share, efficiency),
    ensures
        ({
            let species = engine.propellant.properties();
            let (thrust, flow, jet) = (value(point.thrust_n), value(point.mass_flow_kg_s), value(point.jet_kinetic_power_w));
            let (input, kept) = (value(point.electrical_power_w), value(point.exhaust_internal_power_w));
            let (current, used) = (value(point.discharge_current_a), times(flow, value(share)));
            let (e, many, molar) = (
                value(elementary_charge_c()),
                value(avogadro_per_mol()),
                value(species.molar_mass_kg_mol),
            );
            &&& about(times(current, molar), times(times(used, e), many), 4)
            &&& about(jet, times(current, value(volts)), 9)
            &&& about(kept, times(current, value(species.first_ionization_ev)), 9)
            &&& about(input, over(kept, value(engine.ionization_efficiency)) + over(jet, value(efficiency)), 6)
            &&& about(times(thrust, thrust), times(times(2 as real, used), jet), 15)
        }),
{
    let species = engine.propellant.properties();
    let flow = point.mass_flow_kg_s;
    let (e, many, molar) = (elementary_charge_c(), avogadro_per_mol(), species.molar_mass_kg_mol);
    let ev = species.first_ionization_ev;
    let (ion, acceleration) = (ev * e * many / molar, e * volts * many / molar);
    assert(point.thrust_n == flow * share * (whole(2) * e * volts / (molar / many)).sqrt());
    assert(point.jet_kinetic_power_w == flow * (share * acceleration));
    assert(point.exhaust_internal_power_w == flow * (share * ion));
    assert(point.electrical_power_w == flow * (share * (ion / engine.ionization_efficiency + acceleration / efficiency)));
    assert(point.discharge_current_a == flow * (share * e * many / molar));
    lemma_current(flow, share, e, many, molar);
    lemma_through(flow, share, volts, e, many, molar);
    lemma_mul_commutes(ev, e);
    lemma_through(flow, share, ev, e, many, molar);
    lemma_input(flow, share, ion, acceleration, engine.ionization_efficiency, efficiency);
    lemma_beam_thrust(flow, share, volts, e, many, molar);
}

/// The current of a flow of ions.
proof fn lemma_current(flow: F64, share: F64, e: F64, many: F64, molar: F64)
    requires
        normal(flow) && normal(share) && normal(e) && normal(many) && normal(molar),
        normal(share * e) && normal(share * e * many) && normal(share * e * many / molar),
        normal(flow * (share * e * many / molar)),
    ensures
        ({
            let (m, u, q, n, w) = (value(flow), value(share), value(e), value(many), value(molar));
            let current = value(flow * (share * e * many / molar));
            &&& about(current, times(m, over(times(times(u, q), n), w)), 4)
            &&& about(times(current, w), times(times(times(m, u), q), n), 4)
        }),
{
    let (m, u, q, n, w) = (value(flow), value(share), value(e), value(many), value(molar));
    let current = share * e * many / molar;
    lemma_normal(flow);
    lemma_normal(share);
    lemma_normal(e);
    lemma_normal(many);
    lemma_normal(molar);
    lemma_normal(share * e);
    lemma_normal(share * e * many);
    lemma_normal(current);
    lemma_about_itself(flow);
    lemma_about_itself(share);
    lemma_about_itself(e);
    lemma_about_itself(many);
    lemma_about_itself(molar);
    lemma_about_times(share, e, u, q, 0, 0);
    lemma_about_times(share * e, many, times(u, q), n, 1, 0);
    let charge = times(times(u, q), n);
    lemma_about_over(share * e * many, molar, charge, w, 2, 0);
    lemma_about_times(flow, current, m, over(charge, w), 0, 3);
    let amps = times(m, over(charge, w));
    lemma_over(charge, w);
    lemma_about_product(value(flow * current), amps, w, w, 4, 0);
    lemma_times_associates(m, over(charge, w), w);
    lemma_times_associates(m, times(u, q), n);
    lemma_times_associates(m, u, q);
}

/// The power of a flow of ions through a potential.
proof fn lemma_through(flow: F64, share: F64, volts: F64, e: F64, many: F64, molar: F64)
    requires
        normal(flow) && normal(share) && normal(e) && normal(many) && normal(molar) && normal(volts),
        normal(e * volts) && normal(e * volts * many) && normal(e * volts * many / molar),
        normal(share * (e * volts * many / molar)) && normal(flow * (share * (e * volts * many / molar))),
        normal(share * e) && normal(share * e * many) && normal(share * e * many / molar),
        normal(flow * (share * e * many / molar)),
    ensures
        ({
            let (m, u, q, n, w, v) = (
                value(flow),
                value(share),
                value(e),
                value(many),
                value(molar),
                value(volts),
            );
            let power = value(flow * (share * (e * volts * many / molar)));
            &&& about(power, times(m, times(u, over(times(times(q, v), n), w))), 5)
            &&& about(power, times(value(flow * (share * e * many / molar)), v), 9)
        }),
{
    let (m, u, q, n, w, v) = (
        value(flow),
        value(share),
        value(e),
        value(many),
        value(molar),
        value(volts),
    );
    let acceleration = e * volts * many / molar;
    let current = value(flow * (share * e * many / molar));
    lemma_normal(flow);
    lemma_normal(share);
    lemma_normal(e);
    lemma_normal(many);
    lemma_normal(molar);
    lemma_normal(volts);
    lemma_normal(e * volts);
    lemma_normal(e * volts * many);
    lemma_normal(acceleration);
    lemma_normal(share * acceleration);
    lemma_about_itself(flow);
    lemma_about_itself(share);
    lemma_about_itself(e);
    lemma_about_itself(many);
    lemma_about_itself(molar);
    lemma_about_itself(volts);
    lemma_about_times(e, volts, q, v, 0, 0);
    lemma_about_times(e * volts, many, times(q, v), n, 1, 0);
    let push = times(times(q, v), n);
    lemma_about_over(e * volts * many, molar, push, w, 2, 0);
    lemma_about_times(share, acceleration, u, over(push, w), 0, 3);
    lemma_about_times(flow, share * acceleration, m, times(u, over(push, w)), 0, 4);
    let charge = times(times(u, q), n);
    lemma_current(flow, share, e, many, molar);
    let amps = times(m, over(charge, w));
    lemma_over(push, w);
    lemma_over(charge, w);
    lemma_moved(m, u, q, n, w, v, over(push, w), over(charge, w));
    lemma_about_turned(current, amps, 4);
    lemma_about_product(amps, current, v, v, 4, 0);
    lemma_about_chain(value(flow * (share * acceleration)), times(amps, v), times(current, v), 5, 4);
}

/// The input pays for ionization and acceleration at their efficiencies.
proof fn lemma_input(flow: F64, share: F64, ion: F64, acceleration: F64, ease: F64, gain: F64)
    requires
        normal(flow) && normal(share) && normal(ion) && normal(acceleration) && normal(ease) && normal(gain),
        normal(ion / ease) && normal(acceleration / gain) && normal(ion / ease + acceleration / gain),
        normal(share * (ion / ease + acceleration / gain)) && normal(share * ion) && normal(share * acceleration),
        normal(flow * (share * (ion / ease + acceleration / gain))),
        normal(flow * (share * ion)) && normal(flow * (share * acceleration)),
    ensures
        about(
            value(flow * (share * (ion / ease + acceleration / gain))),
            over(value(flow * (share * ion)), value(ease)) + over(
                value(flow * (share * acceleration)),
                value(gain),
            ),
            6,
        ),
{
    let (m, u, i, a) = (value(flow), value(share), value(ion), value(acceleration));
    let (paid, spent) = (ion / ease, acceleration / gain);
    lemma_normal(flow);
    lemma_normal(share);
    lemma_normal(ion);
    lemma_normal(acceleration);
    lemma_normal(ease);
    lemma_normal(gain);
    lemma_normal(paid);
    lemma_normal(spent);
    lemma_normal(paid + spent);
    lemma_normal(share * (paid + spent));
    lemma_normal(share * ion);
    lemma_normal(share * acceleration);
    lemma_about_itself(flow);
    lemma_about_itself(share);
    lemma_about_itself(ion);
    lemma_about_itself(acceleration);
    lemma_about_itself(ease);
    lemma_about_itself(gain);
    lemma_about_over(ion, ease, i, value(ease), 0, 0);
    lemma_about_over(acceleration, gain, a, value(gain), 0, 0);
    let sum = over(i, value(ease)) + over(a, value(gain));
    lemma_about_plus(paid, spent, over(i, value(ease)), over(a, value(gain)), 1, 1);
    lemma_about_times(share, paid + spent, u, sum, 0, 2);
    lemma_about_times(flow, share * (paid + spent), m, times(u, sum), 0, 3);
    lemma_about_times(share, ion, u, i, 0, 0);
    lemma_about_times(flow, share * ion, m, times(u, i), 0, 1);
    lemma_about_times(share, acceleration, u, a, 0, 0);
    lemma_about_times(flow, share * acceleration, m, times(u, a), 0, 1);
    let (kept, jet) = (value(flow * (share * ion)), value(flow * (share * acceleration)));
    lemma_about_turned(kept, times(m, times(u, i)), 2);
    lemma_about_turned(jet, times(m, times(u, a)), 2);
    lemma_about_quotient(times(m, times(u, i)), kept, value(ease), value(ease), 2, 0);
    lemma_about_quotient(times(m, times(u, a)), jet, value(gain), value(gain), 2, 0);
    let (first, second) = (
        over(times(m, times(u, i)), value(ease)),
        over(times(m, times(u, a)), value(gain)),
    );
    lemma_about_sum(first, over(kept, value(ease)), second, over(jet, value(gain)), 2);
    lemma_shared(m, u, i, value(ease));
    lemma_shared(m, u, a, value(gain));
    lemma_times_adds(over(i, value(ease)), over(a, value(gain)), u);
    lemma_times_adds(times(u, over(i, value(ease))), times(u, over(a, value(gain))), m);
    lemma_about_chain(
        value(flow * (share * (paid + spent))),
        first + second,
        over(kept, value(ease)) + over(jet, value(gain)),
        4,
        2,
    );
}

/// The thrust of a flow of ions.
proof fn lemma_beam_thrust(flow: F64, share: F64, volts: F64, e: F64, many: F64, molar: F64)
    requires
        normal(flow) && normal(share) && normal(e) && normal(many) && normal(molar) && normal(volts),
        normal(e * volts) && normal(e * volts * many) && normal(e * volts * many / molar),
        normal(share * (e * volts * many / molar)) && normal(flow * (share * (e * volts * many / molar))),
        normal(share * e) && normal(share * e * many) && normal(share * e * many / molar),
        normal(flow * (share * e * many / molar)),
        normal(molar / many) && normal(whole(2) * e) && normal(whole(2) * e * volts),
        normal(whole(2) * e * volts / (molar / many)) && normal((whole(2) * e * volts / (molar / many)).sqrt()),
        normal(flow * share) && normal(flow * share * (whole(2) * e * volts / (molar / many)).sqrt()),
    ensures
        ({
            let thrust = value(flow * share * (whole(2) * e * volts / (molar / many)).sqrt());
            let jet = value(flow * (share * (e * volts * many / molar)));
            about(times(thrust, thrust), times(times(2 as real, times(value(flow), value(share))), jet), 15)
        }),
{
    let (m, u, q, n, w, v) = (
        value(flow),
        value(share),
        value(e),
        value(many),
        value(molar),
        value(volts),
    );
    let (grain, rush) = (molar / many, whole(2) * e * volts);
    let speed = (rush / grain).sqrt();
    lemma_normal(flow);
    lemma_normal(share);
    lemma_normal(e);
    lemma_normal(many);
    lemma_normal(molar);
    lemma_normal(volts);
    lemma_normal(grain);
    lemma_normal(whole(2) * e);
    lemma_normal(rush);
    lemma_normal(rush / grain);
    lemma_normal(speed);
    lemma_normal(flow * share);
    lemma_about_itself(flow);
    lemma_about_itself(share);
    lemma_about_itself(e);
    lemma_about_itself(many);
    lemma_about_itself(molar);
    lemma_about_itself(volts);
    lemma_about_itself(speed);
    lemma_whole_value(2);
    lemma_parts(whole(2));
    lemma_about_itself(whole(2));
    lemma_about_over(molar, many, w, n, 0, 0);
    lemma_over(w, n);
    lemma_about_times(whole(2), e, 2 as real, q, 0, 0);
    lemma_about_times(whole(2) * e, volts, times(2 as real, q), v, 1, 0);
    let fall = times(times(2 as real, q), v);
    lemma_about_over(rush, grain, fall, over(w, n), 2, 1);
    let drop = over(fall, over(w, n));
    lemma_about_root(rush / grain, drop, 4);
    let c = value(speed);
    lemma_about_times(flow, share, m, u, 0, 0);
    lemma_about_times(flow * share, speed, times(m, u), c, 1, 0);
    let (thrust, used) = (value(flow * share * speed), times(m, u));
    let ideal = times(used, c);
    lemma_about_product(thrust, ideal, thrust, ideal, 2, 2);
    lemma_times_positive(m, u);
    lemma_times_positive(used, used);
    lemma_about_same(times(used, used));
    lemma_about_product(times(used, used), times(used, used), times(c, c), drop, 0, 6);
    let square = times(times(used, used), times(c, c));
    lemma_square_product(used, c);
    lemma_about_chain(times(thrust, thrust), square, times(times(used, used), drop), 4, 6);
    lemma_over(fall, over(w, n));
    let push = times(times(q, v), n);
    lemma_over(push, w);
    lemma_fallen(m, u, q, n, w, v, over(push, w), over(w, n), drop);
    lemma_through(flow, share, volts, e, many, molar);
    let (jet, beam) = (value(flow * (share * (e * volts * many / molar))), times(m, times(u, over(push, w))));
    lemma_about_turned(jet, beam, 5);
    lemma_times_positive(2 as real, used);
    lemma_about_same(times(2 as real, used));
    lemma_about_product(times(2 as real, used), times(2 as real, used), beam, jet, 0, 5);
    lemma_about_chain(
        times(thrust, thrust),
        times(times(2 as real, used), beam),
        times(times(2 as real, used), jet),
        10,
        5,
    );
}

/// The square of a product is the product of the squares.
pub proof fn lemma_square_product(a: real, b: real)
    ensures
        times(times(a, b), times(a, b)) == times(times(a, a), times(b, b)),
{
    lemma_times_associates(a, b, times(a, b));
    lemma_times_commutes(a, b);
    lemma_times_associates(b, a, b);
    lemma_times_commutes(b, times(a, b));
    lemma_times_associates(a, b, b);
    lemma_times_associates(a, a, times(b, b));
}

/// The power of a current through a potential.
proof fn lemma_moved(m: real, u: real, q: real, n: real, w: real, v: real, f: real, g: real)
    requires
        times(f, w) == times(times(q, v), n),
        times(g, w) == times(times(u, q), n),
        w > (0 as real),
    ensures
        times(m, times(u, f)) == times(times(m, g), v),
{
    let (left, right) = (times(m, times(u, f)), times(times(m, g), v));
    // left w == m (u ((q v) n))
    lemma_times_associates(m, times(u, f), w);
    lemma_times_associates(u, f, w);
    // right w == m (((u q) n) v)
    lemma_times_associates(m, g, v);
    lemma_times_associates(m, times(g, v), w);
    lemma_times_associates(g, v, w);
    lemma_times_commutes(v, w);
    lemma_times_associates(g, w, v);
    // u ((q v) n) == ((u q) n) v
    lemma_times_associates(q, v, n);
    lemma_times_commutes(v, n);
    lemma_times_associates(u, q, times(n, v));
    lemma_times_associates(times(u, q), n, v);
    lemma_times_unique(left, right, w);
}

/// A share of a quotient.
proof fn lemma_shared(m: real, u: real, i: real, d: real)
    requires
        d > (0 as real),
    ensures
        times(m, times(u, over(i, d))) == over(times(m, times(u, i)), d),
{
    let (left, right) = (times(m, times(u, over(i, d))), over(times(m, times(u, i)), d));
    lemma_over(i, d);
    lemma_over(times(m, times(u, i)), d);
    lemma_times_associates(m, times(u, over(i, d)), d);
    lemma_times_associates(u, over(i, d), d);
    lemma_times_unique(left, right, d);
}

/// What falls through a potential, an ion and a mole at a time.
proof fn lemma_fallen(m: real, u: real, q: real, n: real, w: real, v: real, f: real, g: real, c: real)
    requires
        times(f, w) == times(times(q, v), n),
        times(g, n) == w,
        times(c, g) == times(times(2 as real, q), v),
        w > (0 as real),
    ensures
        times(times(times(m, u), times(m, u)), c) == times(times(2 as real, times(m, u)), times(m, times(u, f))),
{
    let (used, two) = (times(m, u), 2 as real);
    // c w == c g n == ((2 q) v) n == 2 f w
    lemma_times_associates(c, g, n);
    lemma_times_associates(two, q, v);
    lemma_times_associates(two, times(q, v), n);
    lemma_times_associates(two, f, w);
    lemma_times_unique(c, times(two, f), w);
    // (used used) (2 f) == (2 used) (used f)
    lemma_times_associates(m, u, f);
    lemma_times_associates(used, used, times(two, f));
    lemma_times_associates(used, two, f);
    lemma_times_commutes(used, two);
    lemma_times_associates(two, used, f);
    lemma_times_commutes(used, times(two, times(used, f)));
    lemma_times_associates(two, times(used, f), used);
    lemma_times_commutes(times(used, f), used);
    lemma_times_associates(two, used, times(used, f));
}

/// A feed that no limit binds is the feed that was asked for.
proof fn lemma_unbound(requested: F64, power: F64, radiator: F64, current: F64)
    requires
        !requested.is_nan() && !power.is_nan() && !radiator.is_nan() && !current.is_nan(),
    ensures
        ({
            let flow = requested.min(power).min(radiator).min(current);
            &&& flow.units() <= requested.units() && flow.units() <= power.units()
            &&& flow.units() <= radiator.units() && flow.units() <= current.units()
            &&& !binding(power, requested, current, radiator) && !binding(current, requested, power, radiator)
                && !binding(radiator, requested, power, current) ==> flow.same(requested)
            &&& !flow.is_nan()
        }),
{
    lemma_parts(requested);
    lemma_parts(power);
    lemma_parts(radiator);
    lemma_parts(current);
    lemma_parts(requested.min(power));
    lemma_parts(requested.min(power).min(radiator));
    lemma_parts(requested.min(power).min(radiator).min(current));
}

/// What is drawn by a feed within its limit.
proof fn lemma_drawn_within(flow: F64, rate: F64, limit: F64)
    requires
        normal(flow) && normal(rate) && normal(limit) && normal(limit / rate) && normal(flow * rate),
        flow.units() <= (limit / rate).units(),
    ensures
        at_most(value(flow * rate), value(limit), 2),
{
    let most = limit / rate;
    lemma_normal(flow);
    lemma_normal(rate);
    lemma_normal(limit);
    lemma_normal(most);
    lemma_normal(flow * rate);
    lemma_about_itself(flow);
    lemma_about_itself(rate);
    lemma_about_itself(limit);
    let (f, r, l) = (value(flow), value(rate), value(limit));
    lemma_about_times(flow, rate, f, r, 0, 0);
    lemma_at_most(value(flow * rate), times(f, r), 1);
    lemma_about_over(limit, rate, l, r, 0, 0);
    lemma_about_same(r);
    lemma_about_product(value(most), over(l, r), r, r, 1, 0);
    lemma_over(l, r);
    lemma_at_most(times(value(most), r), l, 1);
    lemma_value_order(flow, most);
    lemma_times_order(f, value(most), r);
    lemma_at_most_chain(value(flow * rate), times(f, r), l, 1, 1);
}

/// The limits of an electrothermal feed, no term of which is lost to underflow or overflow.
pub open spec fn heated_limits_kept(
    engine: &CompiledElectricThruster,
    command: ElectricThrusterCommand,
    flow: F64,
    temp_k: F64,
    heater: F64,
) -> bool {
    let heat = engine.propellant.specific_heat_j_kg_k() * (temp_k - engine.inlet_temperature_k);
    let (energy, power) = (heat / heater, command.available_power_w.min(engine.maximum_power_w));
    let lost = (energy - heat).max(zero());
    &&& normal(flow) && normal(energy) && normal(power) && normal(power / energy) && normal(flow * energy)
    &&& zero() < lost ==> normal(lost) && normal(engine.radiator_heat_rejection_w) && normal(
        engine.radiator_heat_rejection_w / lost,
    ) && normal(flow * lost)
    &&& engine.design is Arcjet ==> !(engine.design->Arcjet_max_arc_current_a * engine.design->Arcjet_arc_voltage_v
        / energy).is_nan()
}

/// An electrothermal thruster keeps its limits: it draws no more than the bus offers, loses
/// no more in its heater than the radiator rejects, and an arc carries no more than its
/// rating, to within two roundings. Where none of them binds, it feeds what was asked for,
/// up to its rated flow.
pub proof fn lemma_heated_limits<M: Numerics>(
    engine: &CompiledElectricThruster,
    math: &M,
    command: ElectricThrusterCommand,
    point: ElectricThrusterPoint,
    temp_k: F64,
    heater: F64,
    nozzle: F64,
)
    requires
        engine.point(math, command) == Ok::<ElectricThrusterPoint, Fault>(point),
        heated(engine.design) == Some((temp_k, heater, nozzle)),
        heated_limits_kept(engine, command, point.mass_flow_kg_s, temp_k, heater),
    ensures
        ({
            let power = command.available_power_w.min(engine.maximum_power_w);
            let heat = engine.propellant.specific_heat_j_kg_k() * (temp_k - engine.inlet_temperature_k);
            let lost = (heat / heater - heat).max(zero());
            &&& at_most(value(point.electrical_power_w), value(power), 2)
            &&& zero() < lost ==> at_most(
                value(point.mass_flow_kg_s * lost),
                value(engine.radiator_heat_rejection_w),
                2,
            )
            &&& !point.power_limited && !point.current_limited && !point.thermal_limited
                ==> point.mass_flow_kg_s.same(command.requested_mass_flow_kg_s.min(engine.maximum_mass_flow_kg_s))
        }),
{
    let (flow, rated) = (
        point.mass_flow_kg_s,
        command.requested_mass_flow_kg_s.min(engine.maximum_mass_flow_kg_s),
    );
    let power = command.available_power_w.min(engine.maximum_power_w);
    let heat = engine.propellant.specific_heat_j_kg_k() * (temp_k - engine.inlet_temperature_k);
    let energy = heat / heater;
    let lost = (energy - heat).max(zero());
    let by_power = power / energy;
    let by_radiator = if lost > zero() {
        engine.radiator_heat_rejection_w / lost
    } else {
        F64::infinity()
    };
    let by_current = match engine.design {
        ElectricThrusterDesign::Arcjet { arc_voltage_v, max_arc_current_a, .. } => max_arc_current_a * arc_voltage_v
            / energy,
        _ => F64::infinity(),
    };
    lemma_one();
    lemma_parts(command.requested_mass_flow_kg_s);
    lemma_parts(engine.maximum_mass_flow_kg_s);
    lemma_parts(rated);
    lemma_parts(F64::infinity());
    lemma_normal(by_power);
    lemma_parts(by_power);
    if zero() < lost {
        lemma_normal(by_radiator);
        lemma_parts(by_radiator);
    }
    lemma_unbound(rated, by_power, by_radiator, by_current);
    assert(flow == rated.min(by_power).min(by_radiator).min(by_current));
    lemma_drawn_within(flow, energy, power);
    if zero() < lost {
        lemma_drawn_within(flow, lost, engine.radiator_heat_rejection_w);
    }
}

/// The limits of an ion feed, no term of which is lost to underflow or overflow: `energy` is
/// the input and `current` the charge of a kilogram of feed.
pub open spec fn ion_limits_kept(
    engine: &CompiledElectricThruster,
    command: ElectricThrusterCommand,
    flow: F64,
    energy: F64,
    current: F64,
    limit_a: F64,
) -> bool {
    let power = command.available_power_w.min(engine.maximum_power_w);
    &&& normal(flow) && normal(energy) && normal(power) && normal(power / energy) && normal(flow * energy)
    &&& normal(current) && normal(limit_a) && normal(limit_a / current) && normal(flow * current)
}

/// A Hall thruster keeps its limits: it draws no more than the bus offers, and its discharge
/// carries no more than its rating, to within two roundings.
pub proof fn lemma_hall_limits<M: Numerics>(
    engine: &CompiledElectricThruster,
    math: &M,
    command: ElectricThrusterCommand,
    point: ElectricThrusterPoint,
)
    requires
        engine.point(math, command) == Ok::<ElectricThrusterPoint, Fault>(point),
        engine.design is HallEffect,
        ({
            let species = engine.propellant.properties();
            let share = engine.design->HallEffect_propellant_utilization;
            let pushed = elementary_charge_c() * engine.design->HallEffect_accelerator_voltage_v * avogadro_per_mol()
                / species.molar_mass_kg_mol;
            let energy = share * (engine.propellant.ionization_energy_j_kg() / engine.ionization_efficiency + pushed
                / engine.design->HallEffect_accelerator_efficiency);
            let current = share * elementary_charge_c() * avogadro_per_mol() / species.molar_mass_kg_mol;
            &&& ion_limits_kept(
                engine,
                command,
                point.mass_flow_kg_s,
                energy,
                current,
                engine.design->HallEffect_max_discharge_current_a,
            )
            &&& !(engine.radiator_heat_rejection_w / (energy - share * pushed - share
                * engine.propellant.ionization_energy_j_kg()).max(zero())).is_nan()
        }),
    ensures
        at_most(
            value(point.electrical_power_w),
            value(command.available_power_w.min(engine.maximum_power_w)),
            2,
        ),
        at_most(value(point.discharge_current_a), value(engine.design->HallEffect_max_discharge_current_a), 2),
{
    let species = engine.propellant.properties();
    let share = engine.design->HallEffect_propellant_utilization;
    let pushed = elementary_charge_c() * engine.design->HallEffect_accelerator_voltage_v * avogadro_per_mol()
        / species.molar_mass_kg_mol;
    let ion = engine.propellant.ionization_energy_j_kg();
    let energy = share * (ion / engine.ionization_efficiency + pushed
        / engine.design->HallEffect_accelerator_efficiency);
    let current = share * elementary_charge_c() * avogadro_per_mol() / species.molar_mass_kg_mol;
    let power = command.available_power_w.min(engine.maximum_power_w);
    let rated = command.requested_mass_flow_kg_s.min(engine.maximum_mass_flow_kg_s);
    let lost = (energy - share * pushed - share * ion).max(zero());
    let by_radiator = if lost > zero() {
        engine.radiator_heat_rejection_w / lost
    } else {
        F64::infinity()
    };
    let limit = engine.design->HallEffect_max_discharge_current_a;
    lemma_one();
    lemma_parts(command.requested_mass_flow_kg_s);
    lemma_parts(engine.maximum_mass_flow_kg_s);
    lemma_parts(rated);
    lemma_parts(F64::infinity());
    lemma_normal(energy);
    lemma_parts(energy);
    lemma_normal(current);
    lemma_parts(current);
    lemma_normal(power / energy);
    lemma_parts(power / energy);
    lemma_normal(limit / current);
    lemma_parts(limit / current);
    lemma_unbound(rated, power / energy, by_radiator, limit / current);
    assert(point.mass_flow_kg_s == rated.min(power / energy).min(by_radiator).min(limit / current));
    lemma_drawn_within(point.mass_flow_kg_s, energy, power);
    lemma_drawn_within(point.mass_flow_kg_s, current, limit);
}

/// What a propellant's heat and ions are worth: the specific heat, molar mass and heat ratio
/// less one make up the gas constant's multiple by the heat ratio, and a kilogram's
/// ionization energy that of its ions, to within four roundings.
pub proof fn lemma_propellant_worth(propellant: ElectricPropellant)
    requires
        ({
            let p = propellant.properties();
            let (less, ratio) = (p.gamma - whole(1), p.gamma / (p.gamma - whole(1)));
            &&& normal(p.gamma) && whole(1) <= p.gamma && normal(less) && normal(ratio)
            &&& normal(molar_gas_constant_j_mol_k()) && normal(p.molar_mass_kg_mol)
            &&& normal(ratio * molar_gas_constant_j_mol_k()) && normal(propellant.specific_heat_j_kg_k())
            &&& normal(p.first_ionization_ev) && normal(elementary_charge_c()) && normal(avogadro_per_mol())
            &&& normal(p.first_ionization_ev * elementary_charge_c())
            &&& normal(p.first_ionization_ev * elementary_charge_c() * avogadro_per_mol())
            &&& normal(propellant.ionization_energy_j_kg())
        }),
    ensures
        ({
            let p = propellant.properties();
            let (g, w) = (value(p.gamma), value(p.molar_mass_kg_mol));
            &&& about(
                times(value(propellant.specific_heat_j_kg_k()), w),
                times(over(g, g - (1 as real)), value(molar_gas_constant_j_mol_k())),
                4,
            )
            &&& about(
                times(value(propellant.ionization_energy_j_kg()), w),
                times(
                    times(value(p.first_ionization_ev), value(elementary_charge_c())),
                    value(avogadro_per_mol()),
                ),
                3,
            )
        }),
{
    let p = propellant.properties();
    let (gamma, molar, gas) = (p.gamma, p.molar_mass_kg_mol, molar_gas_constant_j_mol_k());
    let ratio = gamma / (gamma - whole(1));
    lemma_normal(gamma);
    lemma_normal(molar);
    lemma_normal(gas);
    lemma_normal(ratio);
    lemma_normal(ratio * gas);
    lemma_about_itself(gamma);
    lemma_about_itself(molar);
    lemma_about_itself(gas);
    lemma_less_one(gamma);
    let (g, w) = (value(gamma), value(molar));
    lemma_about_over(gamma, gamma - whole(1), g, g - (1 as real), 0, 1);
    lemma_about_times(ratio, gas, over(g, g - (1 as real)), value(gas), 2, 0);
    let top = times(over(g, g - (1 as real)), value(gas));
    lemma_about_over(ratio * gas, molar, top, w, 3, 0);
    lemma_about_same(w);
    lemma_about_product(value(ratio * gas / molar), over(top, w), w, w, 4, 0);
    lemma_over(top, w);
    let (ev, e, many) = (p.first_ionization_ev, elementary_charge_c(), avogadro_per_mol());
    lemma_normal(ev);
    lemma_normal(e);
    lemma_normal(many);
    lemma_normal(ev * e);
    lemma_normal(ev * e * many);
    lemma_about_itself(ev);
    lemma_about_itself(e);
    lemma_about_itself(many);
    lemma_about_times(ev, e, value(ev), value(e), 0, 0);
    lemma_about_times(ev * e, many, times(value(ev), value(e)), value(many), 1, 0);
    let strip = times(times(value(ev), value(e)), value(many));
    lemma_about_over(ev * e * many, molar, strip, w, 2, 0);
    lemma_about_product(value(ev * e * many / molar), over(strip, w), w, w, 3, 0);
    lemma_over(strip, w);
}

} // verus!
