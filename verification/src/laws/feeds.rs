//! Ion, Hall and electrothermal thrusters: what the feed draws and what it leaves to the
//! radiator.
use crate::electric::{
    avogadro_per_mol, elementary_charge_c, CompiledElectricThruster, ElectricThrusterCommand, ElectricThrusterDesign,
    ElectricThrusterPoint,
};
use crate::error::Fault;
use crate::float::accuracy::{
    amount, at_most, kept, lemma_about_same, lemma_amount, lemma_at_most, lemma_at_most_chain, lemma_at_most_product,
    lemma_kept_product, lemma_normal, lemma_over, lemma_quotient_about, lemma_times_adds, lemma_times_associates,
    lemma_times_commutes, lemma_times_order, lemma_times_positive, lemma_times_strict, lemma_value_order,
    lemma_zero_value, normal, over, slack, step, times, value,
};
use crate::float::{dec, lemma_one, pi, whole, zero, F64};
use crate::float::errors::{
    allowance, lemma_about_close, lemma_allowance, lemma_difference_close, lemma_times_difference, lemma_within_more,
    lemma_within_rounded, lemma_within_same, lemma_within_sum, size, within,
};
use crate::float::exact::{lemma_nothing, lemma_nothing_over};
use crate::float::nearness::lemma_parts;
use crate::float::order::{lemma_finite_difference, lemma_mul_commutes, lemma_number_over, lemma_product};
use crate::numerics::{powi, Numerics};
use vstd::prelude::*;

verus! {

/// Energies per kilogram fed to a thruster without a self-field arc (J/kg).
pub struct FeedEnergies {
    /// Drawn from the bus.
    pub input: F64,
    /// Leaving as jet.
    pub kinetic: F64,
    /// Kept by the exhaust.
    pub internal: F64,
    /// What the flow is heated by, in a heated nozzle.
    pub enthalpy: F64,
    /// Left to the radiator.
    pub heat: F64,
}

/// The energies of an electrostatic accelerator.
pub open spec fn ion_energies(
    engine: &CompiledElectricThruster,
    accelerator_voltage_v: F64,
    propellant_utilization: F64,
    accelerator_efficiency: F64,
) -> FeedEnergies {
    let ionization = engine.propellant.ionization_energy_j_kg();
    let acceleration = elementary_charge_c() * accelerator_voltage_v * avogadro_per_mol()
        / engine.propellant.properties().molar_mass_kg_mol;
    let input = propellant_utilization * (ionization / engine.ionization_efficiency + acceleration
        / accelerator_efficiency);
    let kinetic = propellant_utilization * acceleration;
    let internal = propellant_utilization * ionization;
    FeedEnergies { input, kinetic, internal, enthalpy: zero(), heat: (input - kinetic - internal).max(zero()) }
}

/// The energies of a heated nozzle.
pub open spec fn heated_energies<M: Numerics>(
    engine: &CompiledElectricThruster,
    math: &M,
    exhaust_temp_k: F64,
    heater_efficiency: F64,
    nozzle_efficiency: F64,
) -> FeedEnergies {
    let enthalpy = engine.propellant.specific_heat_j_kg_k() * (exhaust_temp_k - engine.inlet_temperature_k);
    let input = enthalpy / heater_efficiency;
    let kinetic = dec(5, 1) * powi(math, (whole(2) * nozzle_efficiency * enthalpy).sqrt(), 2);
    FeedEnergies {
        input,
        kinetic,
        internal: (enthalpy - kinetic).max(zero()),
        enthalpy,
        heat: (input - enthalpy).max(zero()),
    }
}

/// The energies of a thruster's design; of a self-field arc there are none.
pub open spec fn feed_energies<M: Numerics>(engine: &CompiledElectricThruster, math: &M) -> Option<FeedEnergies> {
    match engine.design {
        ElectricThrusterDesign::GriddedIon {
            accelerator_voltage_v,
            propellant_utilization,
            accelerator_efficiency,
            ..
        } => Some(ion_energies(engine, accelerator_voltage_v, propellant_utilization, accelerator_efficiency)),
        ElectricThrusterDesign::HallEffect {
            accelerator_voltage_v,
            propellant_utilization,
            accelerator_efficiency,
            ..
        } => Some(ion_energies(engine, accelerator_voltage_v, propellant_utilization, accelerator_efficiency)),
        ElectricThrusterDesign::Magnetoplasmadynamic { .. } => None,
        ElectricThrusterDesign::Resistojet { max_exhaust_temp_k, heater_efficiency, nozzle_efficiency, .. } => Some(
            heated_energies(engine, math, max_exhaust_temp_k, heater_efficiency, nozzle_efficiency),
        ),
        ElectricThrusterDesign::Arcjet { max_exhaust_temp_k, heater_efficiency, nozzle_efficiency, .. } => Some(
            heated_energies(engine, math, max_exhaust_temp_k, heater_efficiency, nozzle_efficiency),
        ),
    }
}

/// Energies that lose nothing to underflow or overflow.
pub open spec fn energies_kept(energies: FeedEnergies) -> bool {
    &&& normal(energies.input)
    &&& amount(energies.kinetic)
    &&& amount(energies.internal)
    &&& amount(energies.enthalpy)
    &&& (energies.input - energies.kinetic - energies.internal).is_finite()
}

/// Energies, and the powers that a flow makes of them, lose nothing to underflow or
/// overflow.
pub open spec fn feed_kept(energies: FeedEnergies, flow: F64, power_w: F64, radiator_w: F64) -> bool {
    let (drawn, jet, held) = (flow * energies.input, flow * energies.kinetic, flow * energies.internal);
    &&& energies_kept(energies)
    &&& amount(flow) && amount(power_w) && normal(radiator_w)
    &&& normal(power_w / energies.input) || power_w.units() == 0
    &&& energies.heat > zero() ==> normal(radiator_w / energies.heat)
    &&& kept(flow, energies.input) && kept(flow, energies.kinetic) && kept(flow, energies.internal)
    &&& (drawn - jet - held).is_finite()
}

/// An ion, Hall or electrothermal thruster draws no more than the bus offers, to within
/// two roundings, and makes no more waste heat than its radiator rejects, to within sixty
/// roundings of all the powers it turns over.
pub proof fn lemma_feed_limits<M: Numerics>(
    engine: &CompiledElectricThruster,
    math: &M,
    command: ElectricThrusterCommand,
    point: ElectricThrusterPoint,
    energies: FeedEnergies,
)
    requires
        engine.point(math, command) == Ok::<ElectricThrusterPoint, Fault>(point),
        feed_energies(engine, math) == Some(energies),
        feed_kept(
            energies,
            point.mass_flow_kg_s,
            command.available_power_w.min(engine.maximum_power_w),
            engine.radiator_heat_rejection_w,
        ),
    ensures
        at_most(
            value(point.electrical_power_w),
            value(command.available_power_w.min(engine.maximum_power_w)),
            2,
        ),
        ({
            let rejected = value(engine.radiator_heat_rejection_w);
            let turned = value(point.electrical_power_w) + value(point.jet_kinetic_power_w) + value(
                point.exhaust_internal_power_w,
            );
            value(point.waste_heat_w) <= rejected + times(rejected + turned, allowance(60))
        }),
{
    let flow = point.mass_flow_kg_s;
    let power = command.available_power_w.min(engine.maximum_power_w);
    let radiator = engine.radiator_heat_rejection_w;
    lemma_feed_sizes(energies, power, radiator, engine, math);
    lemma_fed(engine, math, command, point, energies);
    lemma_drawn_power(flow, energies.input, power);
    lemma_heat_of_flow(flow, energies.heat, radiator);
    lemma_gap(engine, math, energies);
    lemma_waste(flow, energies, radiator);
}

/// The quotients that limit a flow are numbers.
proof fn lemma_feed_sizes<M: Numerics>(
    energies: FeedEnergies,
    power: F64,
    radiator: F64,
    engine: &CompiledElectricThruster,
    math: &M,
)
    requires
        feed_energies(engine, math) == Some(energies),
        energies_kept(energies),
        amount(power),
        normal(radiator),
    ensures
        energies.input > zero(),
        !(power / energies.input).is_nan(),
        energies.heat > zero() ==> !(radiator / energies.heat).is_nan(),
        energies.heat.is_finite(),
        zero() <= energies.heat,
{
    lemma_one();
    lemma_normal(energies.input);
    lemma_parts(energies.input);
    lemma_parts(power);
    lemma_number_over(power, energies.input);
    lemma_heat_number(energies);
    if energies.heat > zero() {
        lemma_normal(radiator);
        lemma_parts(radiator);
        lemma_number_over(radiator, energies.heat);
    }
}

/// What a point makes of its flow, and what limits the flow.
pub open spec fn fed(point: ElectricThrusterPoint, energies: FeedEnergies, power: F64, radiator: F64) -> bool {
    let flow = point.mass_flow_kg_s;
    &&& point.electrical_power_w == flow * energies.input
    &&& point.jet_kinetic_power_w == flow * energies.kinetic
    &&& point.exhaust_internal_power_w == flow * energies.internal
    &&& point.waste_heat_w == (point.electrical_power_w - point.jet_kinetic_power_w
        - point.exhaust_internal_power_w).max(zero())
    &&& flow <= power / energies.input
    &&& energies.heat > zero() ==> flow <= radiator / energies.heat
}

/// Every thruster without a self-field arc is fed so.
proof fn lemma_fed<M: Numerics>(
    engine: &CompiledElectricThruster,
    math: &M,
    command: ElectricThrusterCommand,
    point: ElectricThrusterPoint,
    energies: FeedEnergies,
)
    requires
        engine.point(math, command) == Ok::<ElectricThrusterPoint, Fault>(point),
        feed_energies(engine, math) == Some(energies),
        energies.input > zero(),
        !(command.available_power_w.min(engine.maximum_power_w) / energies.input).is_nan(),
        energies.heat > zero() ==> !(engine.radiator_heat_rejection_w / energies.heat).is_nan(),
    ensures
        fed(
            point,
            energies,
            command.available_power_w.min(engine.maximum_power_w),
            engine.radiator_heat_rejection_w,
        ),
{
    let power = command.available_power_w.min(engine.maximum_power_w);
    let requested = command.requested_mass_flow_kg_s.min(engine.maximum_mass_flow_kg_s);
    let limited = command.requested_mass_flow_kg_s > engine.maximum_mass_flow_kg_s;
    match engine.design {
        ElectricThrusterDesign::GriddedIon {
            accelerator_voltage_v,
            grid_diameter_m,
            max_beam_current_density_a_m2,
            propellant_utilization,
            accelerator_efficiency,
            ..
        } => {
            let area = pi() * powi(math, grid_diameter_m, 2) / whole(4);
            lemma_ion_fed(
                engine,
                power,
                requested,
                max_beam_current_density_a_m2 * area,
                accelerator_voltage_v,
                propellant_utilization,
                accelerator_efficiency,
                limited,
            );
        },
        ElectricThrusterDesign::HallEffect {
            accelerator_voltage_v,
            max_discharge_current_a,
            propellant_utilization,
            accelerator_efficiency,
            ..
        } => {
            lemma_ion_fed(
                engine,
                power,
                requested,
                max_discharge_current_a,
                accelerator_voltage_v,
                propellant_utilization,
                accelerator_efficiency,
                limited,
            );
        },
        ElectricThrusterDesign::Magnetoplasmadynamic { .. } => {},
        ElectricThrusterDesign::Resistojet { max_exhaust_temp_k, heater_efficiency, nozzle_efficiency, .. } => {
            lemma_heated_fed(
                engine,
                math,
                power,
                requested,
                max_exhaust_temp_k,
                heater_efficiency,
                nozzle_efficiency,
                None,
                limited,
            );
        },
        ElectricThrusterDesign::Arcjet {
            max_exhaust_temp_k,
            arc_voltage_v,
            max_arc_current_a,
            heater_efficiency,
            nozzle_efficiency,
            ..
        } => {
            lemma_heated_fed(
                engine,
                math,
                power,
                requested,
                max_exhaust_temp_k,
                heater_efficiency,
                nozzle_efficiency,
                Some((arc_voltage_v, max_arc_current_a)),
                limited,
            );
        },
    }
}

proof fn lemma_ion_fed(
    engine: &CompiledElectricThruster,
    power: F64,
    requested: F64,
    current_limit_a: F64,
    accelerator_voltage_v: F64,
    propellant_utilization: F64,
    accelerator_efficiency: F64,
    limited: bool,
)
    requires
        ({
            let energies = ion_energies(engine, accelerator_voltage_v, propellant_utilization, accelerator_efficiency);
            &&& energies.input > zero()
            &&& !(power / energies.input).is_nan()
            &&& energies.heat > zero() ==> !(engine.radiator_heat_rejection_w / energies.heat).is_nan()
        }),
    ensures
        fed(
            engine.ion_operating_point(
                power,
                requested,
                current_limit_a,
                accelerator_voltage_v,
                propellant_utilization,
                accelerator_efficiency,
                limited,
            ),
            ion_energies(engine, accelerator_voltage_v, propellant_utilization, accelerator_efficiency),
            power,
            engine.radiator_heat_rejection_w,
        ),
{
}

proof fn lemma_heated_fed<M: Numerics>(
    engine: &CompiledElectricThruster,
    math: &M,
    power: F64,
    requested: F64,
    exhaust_temp_k: F64,
    heater_efficiency: F64,
    nozzle_efficiency: F64,
    arc: Option<(F64, F64)>,
    limited: bool,
)
    requires
        ({
            let energies = heated_energies(engine, math, exhaust_temp_k, heater_efficiency, nozzle_efficiency);
            &&& energies.input > zero()
            &&& !(power / energies.input).is_nan()
            &&& energies.heat > zero() ==> !(engine.radiator_heat_rejection_w / energies.heat).is_nan()
        }),
    ensures
        fed(
            engine.thermal_operating_point(
                math,
                power,
                requested,
                exhaust_temp_k,
                heater_efficiency,
                nozzle_efficiency,
                arc,
                limited,
            ),
            heated_energies(engine, math, exhaust_temp_k, heater_efficiency, nozzle_efficiency),
            power,
            engine.radiator_heat_rejection_w,
        ),
{
}

/// A flow that the bus pays for draws no more than it offers.
proof fn lemma_drawn_power(flow: F64, input: F64, power: F64)
    requires
        amount(flow),
        normal(input),
        kept(flow, input),
        amount(power),
        normal(power / input) || power.units() == 0,
        flow <= power / input,
    ensures
        at_most(value(flow * input), value(power), 2),
{
    lemma_normal(input);
    lemma_parts(flow);
    lemma_parts(power);
    lemma_parts(power / input);
    lemma_amount(power);
    lemma_kept_product(flow, input);
    let (m, e, p) = (value(flow), value(input), value(power));
    lemma_at_most(value(flow * input), times(m, e), 1);
    lemma_value_order(flow, power / input);
    lemma_times_order(m, value(power / input), e);
    lemma_over(p, e);
    if power.units() == 0 {
        lemma_zero_power(flow, input, power);
    } else {
        lemma_quotient_about(power, input);
        lemma_at_most(value(power / input), over(p, e), 1);
        lemma_about_same(e);
        lemma_at_most(e, e, 0);
        lemma_over_positive(p, e);
        lemma_amount(flow);
        lemma_value_order(power / input, power / input);
        lemma_at_most_product(value(power / input), over(p, e), e, e, 1, 0);
        assert(at_most(times(m, e), p, 1));
        lemma_at_most_chain(value(flow * input), times(m, e), p, 1, 1);
    }
}

/// Without power nothing flows.
proof fn lemma_zero_power(flow: F64, input: F64, power: F64)
    requires
        amount(flow),
        amount(power),
        normal(input),
        power.units() == 0,
        flow <= power / input,
    ensures
        at_most(value(flow * input), value(power), 2),
{
    lemma_one();
    lemma_normal(input);
    lemma_parts(input);
    lemma_parts(power);
    lemma_parts(flow);
    lemma_nothing_over(power, input);
    lemma_parts(power / input);
    lemma_product(flow, input);
    lemma_mul_commutes(flow, input);
    lemma_nothing(input, flow);
    lemma_zero_value();
    lemma_value_order(flow * input, zero());
    lemma_value_order(zero(), flow * input);
    lemma_value_order(power, zero());
    lemma_value_order(zero(), power);
    lemma_times_adds(0 as real, 0 as real, slack(2));
}

/// A quotient of numbers that are not negative is not.
proof fn lemma_over_positive(a: real, b: real)
    requires
        a >= (0 as real),
        b > (0 as real),
    ensures
        over(a, b) >= (0 as real),
{
    lemma_over(a, b);
    if over(a, b) < (0 as real) {
        lemma_times_strict(over(a, b), 0 as real, b);
        lemma_times_adds(0 as real, 0 as real, b);
    }
}

/// What is left to the radiator is a number and not negative.
proof fn lemma_heat_number(energies: FeedEnergies)
    requires
        energies_kept(energies),
        energies.heat == (energies.input - energies.kinetic - energies.internal).max(zero()) || energies.heat == (
        energies.input - energies.enthalpy).max(zero()),
    ensures
        energies.heat.is_finite(),
        zero() <= energies.heat,
{
    lemma_one();
    lemma_parts(zero());
    lemma_normal(energies.input);
    lemma_parts(energies.input);
    lemma_parts(energies.enthalpy);
    lemma_finite_difference(energies.input, energies.enthalpy);
    lemma_parts(energies.input - energies.enthalpy);
    lemma_parts(energies.input - energies.kinetic - energies.internal);
}

/// The heat of a flow that the radiator allows.
proof fn lemma_heat_of_flow(flow: F64, heat: F64, radiator: F64)
    requires
        amount(flow),
        normal(radiator),
        heat.is_finite(),
        zero() <= heat,
        heat > zero() ==> normal(radiator / heat) && flow <= radiator / heat,
    ensures
        times(value(flow), value(heat)) <= value(radiator) + times(value(radiator), allowance(2)),
        value(radiator) > (0 as real),
        value(heat) >= (0 as real),
{
    let (m, h, r) = (value(flow), value(heat), value(radiator));
    lemma_one();
    lemma_normal(radiator);
    lemma_amount(flow);
    lemma_parts(heat);
    lemma_value_order(heat, heat);
    lemma_allowance(2, 0);
    lemma_times_positive(r, allowance(2));
    if heat > zero() {
        lemma_normal(radiator / heat);
        lemma_parts(flow);
        lemma_value_order(flow, radiator / heat);
        lemma_quotient_about(radiator, heat);
        lemma_about_close(value(radiator / heat), over(r, h));
        lemma_over(r, h);
        lemma_over_positive(r, h);
        let q = over(r, h);
        lemma_times_order(m, q + times(q, allowance(2)), h);
        lemma_times_adds(q, times(q, allowance(2)), h);
        lemma_times_associates(q, allowance(2), h);
        lemma_times_commutes(allowance(2), h);
        lemma_times_associates(q, h, allowance(2));
    } else {
        lemma_zero_value();
        lemma_value_order(heat, zero());
        lemma_value_order(zero(), heat);
        lemma_times_commutes(m, 0 as real);
        lemma_times_adds(0 as real, 0 as real, m);
    }
}

/// What the energies leave beside jet and exhaust is what the radiator must reject, to
/// within eighteen roundings.
proof fn lemma_gap<M: Numerics>(engine: &CompiledElectricThruster, math: &M, energies: FeedEnergies)
    requires
        feed_energies(engine, math) == Some(energies),
        energies_kept(energies),
    ensures
        ({
            let (e, k, i) = (value(energies.input), value(energies.kinetic), value(energies.internal));
            e - k - i <= value(energies.heat) + times(e + k + i, allowance(18))
        }),
{
    let (input, kinetic, internal, enthalpy) = (energies.input, energies.kinetic, energies.internal, energies.enthalpy);
    let (e, k, i, n) = (value(input), value(kinetic), value(internal), value(enthalpy));
    lemma_one();
    lemma_normal(input);
    lemma_parts(input);
    lemma_parts(kinetic);
    lemma_parts(internal);
    lemma_parts(enthalpy);
    lemma_amount(kinetic);
    lemma_amount(internal);
    lemma_amount(enthalpy);
    lemma_zero_value();
    lemma_parts(zero());
    lemma_finite_difference(input, kinetic);
    lemma_finite_difference(input, enthalpy);
    lemma_finite_difference(enthalpy, kinetic);
    lemma_allowance(2, 2);
    lemma_allowance(8, 10);
    if engine.design is GriddedIon || engine.design is HallEffect {
        let first = input - kinetic;
        let left = first - internal;
        lemma_within_same(e - k, e + k);
        lemma_difference_close(input, kinetic);
        lemma_within_rounded(value(first), e - k, e - k, e + k, 0);
        lemma_within_same(i, i);
        lemma_within_more(i, i, i, 0, i, 4);
        lemma_within_sum(value(first), e - k, i, i, e + k, i, 4);
        lemma_difference_close(first, internal);
        lemma_within_rounded(value(left), value(first) - i, e - k - i, e + k + i, 4);
        lemma_within_more(value(left), e - k - i, e + k + i, 8, e + k + i, 18);
        lemma_at_least_left(left, energies.heat);
    } else {
        lemma_difference_close(input, enthalpy);
        lemma_difference_close(enthalpy, kinetic);
        lemma_at_least_left(input - enthalpy, energies.heat);
        lemma_at_least_left(enthalpy - kinetic, internal);
        let a = allowance(2);
        lemma_times_order(size(e - n), e + n, a);
        lemma_times_order(size(n - k), n + k, a);
        assert(value(energies.heat) >= e - n - times(e + n, a));
        assert(i >= n - k - times(n + k, a));
        // The enthalpy is no more than four times what jet and exhaust carry.
        assert(allowance(4) == a + a);
        lemma_allowance(4, 0);
        lemma_times_order(a, (1 as real) / (2 as real), n + k);
        assert(times(n + k, (1 as real) / (2 as real)) == (n + k) / (2 as real)) by {
            reveal(times);
        }
        assert(n <= (4 as real) * (k + i));
        lemma_times_order(e + n, (e + k + i) * (5 as real), a);
        lemma_times_order(n + k, (e + k + i) * (4 as real), a);
        let all = e + k + i;
        assert(times(all * (5 as real), a) + times(all * (4 as real), a) == times(all, allowance(18))) by {
            lemma_times_adds(all * (5 as real), all * (4 as real), a);
            reveal(times);
            assert(allowance(18) == (18 as real) * step());
            assert(a == (2 as real) * step());
            let s = step();
            assert((all * (5 as real) + all * (4 as real)) * ((2 as real) * s) == all * ((18 as real) * s))
                by (nonlinear_arith);
        }
    }
}

/// The greater of a difference and nothing is no less than the difference.
pub proof fn lemma_at_least_left(left: F64, kept: F64)
    requires
        left.is_finite(),
        kept == left.max(zero()),
    ensures
        value(left) <= value(kept),
{
    lemma_one();
    lemma_parts(left);
    lemma_parts(zero());
    lemma_value_order(left, kept);
}

/// Waste heat against what the radiator rejects.
proof fn lemma_waste(flow: F64, energies: FeedEnergies, radiator: F64)
    requires
        energies_kept(energies),
        amount(flow),
        kept(flow, energies.input) && kept(flow, energies.kinetic) && kept(flow, energies.internal),
        (flow * energies.input - flow * energies.kinetic - flow * energies.internal).is_finite(),
        value(radiator) > (0 as real),
        value(energies.heat) >= (0 as real),
        times(value(flow), value(energies.heat)) <= value(radiator) + times(value(radiator), allowance(2)),
        ({
            let (e, k, i) = (value(energies.input), value(energies.kinetic), value(energies.internal));
            e - k - i <= value(energies.heat) + times(e + k + i, allowance(18))
        }),
    ensures
        ({
            let (drawn, jet, held) = (flow * energies.input, flow * energies.kinetic, flow * energies.internal);
            let waste = (drawn - jet - held).max(zero());
            let turned = value(drawn) + value(jet) + value(held);
            value(waste) <= value(radiator) + times(value(radiator) + turned, allowance(60))
        }),
{
    let (drawn, jet, held) = (flow * energies.input, flow * energies.kinetic, flow * energies.internal);
    let (m, e, k, i, r) = (
        value(flow),
        value(energies.input),
        value(energies.kinetic),
        value(energies.internal),
        value(radiator),
    );
    lemma_one();
    lemma_zero_value();
    lemma_parts(zero());
    lemma_normal(energies.input);
    lemma_amount(flow);
    lemma_amount(energies.kinetic);
    lemma_amount(energies.internal);
    lemma_term(flow, energies.input);
    lemma_term(flow, energies.kinetic);
    lemma_term(flow, energies.internal);
    lemma_parts(drawn);
    lemma_parts(jet);
    lemma_finite_difference(drawn, jet);
    let (x, y, z) = (times(m, e), times(m, k), times(m, i));
    let first = drawn - jet;
    let left = first - held;
    lemma_within_sum(value(drawn), x, value(jet), y, x, y, 4);
    lemma_difference_close(drawn, jet);
    lemma_within_rounded(value(first), value(drawn) - value(jet), x - y, x + y, 4);
    lemma_within_more(value(held), z, z, 4, z, 8);
    lemma_within_sum(value(first), x - y, value(held), z, x + y, z, 8);
    lemma_difference_close(first, held);
    lemma_within_rounded(value(left), value(first) - value(held), x - y - z, x + y + z, 8);
    // The ideal waste.
    let (all, scale) = (e + k + i, x + y + z);
    lemma_times_difference(e, k, m);
    lemma_times_difference(e - k, i, m);
    lemma_times_adds(e, k, m);
    lemma_times_adds(e + k, i, m);
    lemma_times_commutes(m, e);
    lemma_times_commutes(m, k);
    lemma_times_commutes(m, i);
    lemma_times_order(e - k - i, value(energies.heat) + times(all, allowance(18)), m);
    lemma_times_adds(value(energies.heat), times(all, allowance(18)), m);
    lemma_times_associates(all, allowance(18), m);
    lemma_times_commutes(allowance(18), m);
    lemma_times_associates(all, m, allowance(18));
    lemma_times_commutes(value(energies.heat), m);
    assert(x - y - z <= r + times(r, allowance(2)) + times(scale, allowance(18)));
    lemma_allowance(18, 12);
    lemma_times_adds(allowance(18), allowance(12), scale);
    lemma_times_commutes(scale, allowance(18));
    lemma_times_commutes(scale, allowance(12));
    lemma_times_commutes(scale, allowance(30));
    assert(value(left) <= r + times(r, allowance(2)) + times(scale, allowance(30)));
    // The scale, in terms of the powers turned over.
    let turned = value(drawn) + value(jet) + value(held);
    lemma_within_sum(value(drawn), x, value(jet), y, x, y, 4);
    lemma_within_sum(value(drawn) + value(jet), x + y, value(held), z, x + y, z, 4);
    lemma_allowance(4, 4);
    lemma_allowance(8, 0);
    lemma_times_order(allowance(4), (1 as real) / (2 as real), scale);
    assert(times(scale, (1 as real) / (2 as real)) == scale / (2 as real)) by {
        reveal(times);
    }
    assert(scale <= turned + turned);
    lemma_allowance(30, 30);
    lemma_allowance(2, 60);
    lemma_times_order(scale, turned + turned, allowance(30));
    lemma_times_adds(turned, turned, allowance(30));
    lemma_times_adds(allowance(30), allowance(30), turned);
    lemma_times_commutes(turned, allowance(30));
    lemma_times_commutes(turned, allowance(60));
    lemma_times_order(allowance(2), allowance(60), r);
    lemma_times_adds(r, turned, allowance(60));
    lemma_times_positive(r, allowance(60));
    lemma_times_positive(turned, allowance(60));
    lemma_parts(left);
    if left > zero() {
        lemma_value_order(left.max(zero()), left);
        lemma_value_order(left, left.max(zero()));
    } else {
        lemma_value_order(left.max(zero()), zero());
    }
}

/// One power of a flow.
proof fn lemma_term(flow: F64, energy: F64)
    requires
        amount(flow),
        amount(energy),
        kept(flow, energy),
    ensures
        (flow * energy).is_finite(),
        zero() <= flow * energy,
        within(value(flow * energy), times(value(flow), value(energy)), times(value(flow), value(energy)), 4),
        value(flow * energy) >= (0 as real),
{
    lemma_one();
    lemma_kept_product(flow, energy);
    lemma_amount(flow);
    lemma_amount(energy);
    let ideal = times(value(flow), value(energy));
    lemma_times_positive(value(flow), value(energy));
    lemma_within_same(ideal, ideal);
    lemma_about_close(value(flow * energy), ideal);
    lemma_within_rounded(value(flow * energy), ideal, ideal, ideal, 0);
    lemma_parts(flow * energy);
    lemma_amount(flow * energy);
}

} // verus!
