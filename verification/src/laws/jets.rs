//! Thrust, flow, power and specific impulse of a jet are those of one stream.
use crate::constants::standard_gravity_mps2;
use crate::electric::{CompiledElectricThruster, ElectricThrusterCommand, ElectricThrusterPoint};
use crate::error::Fault;
use crate::float::accuracy::{
    about, amount, lemma_about_chain, lemma_about_more, lemma_about_product, lemma_about_same, lemma_about_turned,
    lemma_normal, lemma_over, lemma_product_about, lemma_times_associates, lemma_times_commutes, lemma_times_positive,
    normal, over, times, value,
};
use crate::float::{lemma_one, whole, zero, F64};
use crate::float::nearness::lemma_parts;
use crate::float::tracking::{
    lemma_about_itself, lemma_about_over, lemma_about_root, lemma_about_times, lemma_whole_value,
};
use crate::fusion::{
    CompiledFusionTorch, CompiledPulsedFusion, FusionTorchCommand, FusionTorchOperatingPoint, PulsedFusionCommand,
    PulsedFusionOperatingPoint, PulsedFusionSpec, PulsedFusionState,
};
use crate::laws::stream::{lemma_square_product, squares};
use crate::numerics::Numerics;
use vstd::prelude::*;

verus! {

/// A root of twice a product, no term of which is lost to underflow or overflow.
pub open spec fn root_kept(energy: F64, mass: F64) -> bool {
    &&& normal(energy) && normal(mass) && normal(whole(2) * energy) && normal(whole(2) * energy * mass)
    &&& normal((whole(2) * energy * mass).sqrt())
}

/// The square of such a root is twice the product, to within four roundings.
proof fn lemma_root(energy: F64, mass: F64)
    requires
        root_kept(energy, mass),
    ensures
        ({
            let root = value((whole(2) * energy * mass).sqrt());
            about(times(root, root), times(times(2 as real, value(energy)), value(mass)), 4)
        }),
{
    lemma_normal(energy);
    lemma_normal(mass);
    lemma_normal(whole(2) * energy);
    lemma_normal(whole(2) * energy * mass);
    lemma_whole_value(2);
    lemma_about_itself(whole(2));
    lemma_about_itself(energy);
    lemma_about_itself(mass);
    lemma_about_times(whole(2), energy, 2 as real, value(energy), 0, 0);
    lemma_about_times(whole(2) * energy, mass, times(2 as real, value(energy)), value(mass), 1, 0);
    lemma_about_root(whole(2) * energy * mass, times(times(2 as real, value(energy)), value(mass)), 2);
}

/// Undoing a quotient strays by one rounding.
proof fn lemma_undone(a: F64, b: F64)
    requires
        amount(a),
        normal(b),
        normal(a / b),
    ensures
        about(times(value(a / b), value(b)), value(a), 1),
{
    lemma_normal(b);
    lemma_normal(a / b);
    lemma_about_itself(a);
    lemma_about_itself(b);
    lemma_about_over(a, b, value(a), value(b), 0, 0);
    lemma_over(value(a), value(b));
    lemma_about_product(value(a / b), over(value(a), value(b)), value(b), value(b), 1, 0);
}

/// The shares of a torch, none of which is lost to underflow or overflow.
pub open spec fn torch_kept(engine: &CompiledFusionTorch, point: FusionTorchOperatingPoint) -> bool {
    let (charged, coupled, nozzle) = (
        engine.charged_energy_fraction,
        engine.plasma_coupling_efficiency,
        engine.magnetic_nozzle_efficiency,
    );
    &&& normal(point.fusion_power_w) && normal(engine.fusion_gain) && normal(point.fusion_power_w / engine.fusion_gain)
    &&& normal(engine.reaction.energy_release_j_kg())
    &&& normal(point.fusion_power_w / engine.reaction.energy_release_j_kg())
    &&& normal(charged) && normal(coupled) && normal(nozzle) && normal(charged * coupled)
    &&& normal(charged * coupled * nozzle) && normal(point.jet_kinetic_power_w)
    &&& root_kept(point.jet_kinetic_power_w, point.total_exhaust_flow_kg_s)
}

/// Every point of a torch describes one stream. All exhaust is fuel and working fluid. The
/// square of the thrust is twice the jet power times the whole exhaust flow, to within
/// four roundings; the driver multiplied by the gain, and the burnt fuel's release, are
/// the fusion power, to within one; and the jet is the charged, coupled and directed share
/// of it, to within three. Exhaust velocity and specific impulse are the thrust of a unit
/// of flow and of weight.
pub proof fn lemma_torch_stream(
    engine: &CompiledFusionTorch,
    command: FusionTorchCommand,
    point: FusionTorchOperatingPoint,
)
    requires
        engine.point(command) == Ok::<FusionTorchOperatingPoint, Fault>(point),
        torch_kept(engine, point),
    ensures
        ({
            let (thrust, jet, flow) = (
                value(point.thrust_n),
                value(point.jet_kinetic_power_w),
                value(point.total_exhaust_flow_kg_s),
            );
            let fusion = value(point.fusion_power_w);
            let share = times(
                times(value(engine.charged_energy_fraction), value(engine.plasma_coupling_efficiency)),
                value(engine.magnetic_nozzle_efficiency),
            );
            &&& point.total_exhaust_flow_kg_s == point.fusion_fuel_flow_kg_s + point.working_flow_kg_s
            &&& about(times(thrust, thrust), times(times(2 as real, jet), flow), 4)
            &&& about(times(value(point.driver_power_w), value(engine.fusion_gain)), fusion, 1)
            &&& about(
                times(value(point.fusion_fuel_flow_kg_s), value(engine.reaction.energy_release_j_kg())),
                fusion,
                1,
            )
            &&& about(jet, times(fusion, share), 3)
            &&& point.exhaust_velocity_mps == point.thrust_n / point.total_exhaust_flow_kg_s
            &&& point.isp_s == point.exhaust_velocity_mps / standard_gravity_mps2()
        }),
{
    let (charged, coupled, nozzle) = (
        engine.charged_energy_fraction,
        engine.plasma_coupling_efficiency,
        engine.magnetic_nozzle_efficiency,
    );
    let (fusion, useful) = (point.fusion_power_w, charged * coupled * nozzle);
    lemma_one();
    lemma_normal(point.total_exhaust_flow_kg_s);
    lemma_parts(point.total_exhaust_flow_kg_s);
    lemma_root(point.jet_kinetic_power_w, point.total_exhaust_flow_kg_s);
    lemma_normal(fusion);
    lemma_undone(fusion, engine.fusion_gain);
    lemma_undone(fusion, engine.reaction.energy_release_j_kg());
    lemma_normal(charged);
    lemma_normal(coupled);
    lemma_normal(nozzle);
    lemma_normal(charged * coupled);
    lemma_normal(useful);
    lemma_about_itself(charged);
    lemma_about_itself(coupled);
    lemma_about_itself(nozzle);
    lemma_about_itself(fusion);
    lemma_about_times(charged, coupled, value(charged), value(coupled), 0, 0);
    let pair = times(value(charged), value(coupled));
    lemma_about_times(charged * coupled, nozzle, pair, value(nozzle), 1, 0);
    lemma_about_times(fusion, useful, value(fusion), times(pair, value(nozzle)), 0, 2);
}

/// The mass of a pulse (kg).
pub open spec fn pulse_mass(engine: &CompiledPulsedFusion) -> F64 {
    engine.fuel_mass_per_pulse_kg + engine.working_fluid_mass_per_pulse_kg
}

/// The totals of a step with shots, none of which is lost to underflow or overflow.
pub open spec fn shots_kept(engine: &CompiledPulsedFusion, point: PulsedFusionOperatingPoint, dt_s: F64) -> bool {
    let pulses = whole(point.pulses_fired as u64);
    let mass = pulses * pulse_mass(engine);
    &&& point.pulses_fired > 0
    &&& root_kept(engine.jet_energy_per_pulse_j, pulse_mass(engine))
    &&& normal(point.impulse_ns) && normal(point.jet_kinetic_energy_j) && normal(mass) && normal(dt_s)
    &&& normal(point.total_exhaust_flow_kg_s) && normal(point.average_thrust_n)
}

/// Every step of a pulsed drive that fires describes one stream. The square of its impulse
/// is twice the jet energy times the mass that left, flow times the length of the step, to
/// within ten roundings. Average thrust is the impulse, and powers and flows are the
/// energies and masses, of a unit of time; and exhaust velocity and specific impulse are
/// the impulse of a unit of mass and of weight.
pub proof fn lemma_pulsed_stream(
    engine: &CompiledPulsedFusion,
    state: PulsedFusionState,
    command: PulsedFusionCommand,
    dt_s: F64,
    next: PulsedFusionState,
    point: PulsedFusionOperatingPoint,
)
    requires
        engine.advanced(state, command, dt_s) == Ok::<(PulsedFusionState, PulsedFusionOperatingPoint), Fault>(
            (next, point),
        ),
        shots_kept(engine, point, dt_s),
    ensures
        ({
            let (impulse, jet) = (value(point.impulse_ns), value(point.jet_kinetic_energy_j));
            let left = times(value(point.total_exhaust_flow_kg_s), value(dt_s));
            &&& about(times(impulse, impulse), times(times(2 as real, jet), left), 10)
            &&& about(times(value(point.average_thrust_n), value(dt_s)), impulse, 1)
            &&& point.average_thrust_n == point.impulse_ns / dt_s
            &&& point.fusion_power_w == point.fusion_energy_j / dt_s
            &&& point.waste_heat_w == point.waste_heat_j / dt_s
            &&& point.charged_driver_power_w == point.driver_energy_consumed_j / dt_s
            &&& point.effective_isp_s == point.effective_exhaust_velocity_mps / standard_gravity_mps2()
            &&& point.effective_exhaust_velocity_mps == point.impulse_ns / (whole(point.pulses_fired as u64)
                * pulse_mass(engine))
            &&& point.stored_driver_energy_j == next.stored_driver_energy_j
            &&& point.buffer_energy_delta_j == next.stored_driver_energy_j - state.stored_driver_energy_j
            &&& point.radiator_capacity_w == engine.radiator_heat_rejection_w
        }),
{
    let pulses = whole(point.pulses_fired as u64);
    let (mass, energy) = (pulse_mass(engine), engine.jet_energy_per_pulse_j);
    let each = (whole(2) * energy * mass).sqrt();
    let (n, e, m, i) = (point.pulses_fired as real, value(energy), value(mass), value(each));
    lemma_one();
    lemma_whole_value(point.pulses_fired as u64);
    lemma_root(energy, mass);
    lemma_normal(each);
    lemma_normal(energy);
    lemma_normal(mass);
    lemma_normal(pulses * mass);
    lemma_parts(pulses * mass);
    lemma_normal(point.impulse_ns);
    lemma_about_itself(pulses);
    lemma_about_itself(each);
    lemma_about_itself(energy);
    lemma_about_itself(mass);
    assert(point.impulse_ns == pulses * each);
    assert(point.jet_kinetic_energy_j == pulses * energy);
    assert(point.total_exhaust_flow_kg_s == pulses * mass / dt_s);
    lemma_about_times(pulses, each, n, i, 0, 0);
    lemma_about_times(pulses, energy, n, e, 0, 0);
    lemma_about_times(pulses, mass, n, m, 0, 0);
    let (impulse, jet) = (value(point.impulse_ns), value(point.jet_kinetic_energy_j));
    let left = times(value(point.total_exhaust_flow_kg_s), value(dt_s));
    lemma_undone(pulses * mass, dt_s);
    lemma_undone(point.impulse_ns, dt_s);
    lemma_about_chain(left, value(pulses * mass), times(n, m), 1, 1);
    // impulse^2 ~ (n i)^2 == n^2 i^2 ~ n^2 (2 e m) == 2 (n e) (n m) ~ 2 jet left
    let two = 2 as real;
    lemma_about_product(impulse, times(n, i), impulse, times(n, i), 1, 1);
    lemma_square_product(n, i);
    lemma_times_positive(n, n);
    lemma_about_same(times(n, n));
    lemma_about_product(times(n, n), times(n, n), times(i, i), times(times(two, e), m), 0, 4);
    lemma_about_chain(
        times(impulse, impulse),
        times(times(n, n), times(i, i)),
        times(times(n, n), times(times(two, e), m)),
        2,
        4,
    );
    lemma_spread(n, two, e, m);
    lemma_about_turned(jet, times(n, e), 1);
    lemma_about_turned(left, times(n, m), 2);
    lemma_about_same(two);
    lemma_about_product(two, two, times(n, e), jet, 0, 1);
    lemma_about_product(times(two, times(n, e)), times(two, jet), times(n, m), left, 1, 2);
    lemma_about_chain(
        times(impulse, impulse),
        times(times(two, times(n, e)), times(n, m)),
        times(times(two, jet), left),
        6,
        3,
    );
    lemma_about_more(times(impulse, impulse), times(times(two, jet), left), 9, 10);
}

/// A square spread over two factors.
proof fn lemma_spread(n: real, two: real, e: real, m: real)
    ensures
        times(times(n, n), times(times(two, e), m)) == times(times(two, times(n, e)), times(n, m)),
{
    // two (n e) == n (two e)
    lemma_times_associates(two, n, e);
    lemma_times_commutes(two, n);
    lemma_times_associates(n, two, e);
    let d = times(two, e);
    // (n d) (n m) == (n n) (d m)
    lemma_times_associates(n, d, times(n, m));
    lemma_times_commutes(n, m);
    lemma_times_associates(d, m, n);
    lemma_times_commutes(times(d, m), n);
    lemma_times_associates(n, n, times(d, m));
}

/// What a compiled pulse is worth: fuel at its release, driven at one part in the gain,
/// held for as many pulses as the buffer is built for, and fired no more often than the
/// rated frequency.
pub proof fn lemma_pulse_energies<M: Numerics>(spec: PulsedFusionSpec, math: &M, engine: CompiledPulsedFusion)
    requires
        spec.compiled(math) == Ok::<CompiledPulsedFusion, Fault>(engine),
        ({
            let fusion = spec.fuel_mass_per_pulse_kg * spec.reaction.energy_release_j_kg();
            normal(fusion) && normal(fusion / spec.fusion_gain) && normal(fusion / spec.pulse_duration_s)
        }),
        normal(spec.fusion_gain),
        normal(spec.pulse_duration_s),
        normal(spec.reaction.energy_release_j_kg()),
        normal(spec.fuel_mass_per_pulse_kg),
        normal(whole(1) / spec.maximum_pulse_frequency_hz),
        normal(spec.maximum_pulse_frequency_hz),
    ensures
        ({
            let fusion = value(engine.fusion_energy_per_pulse_j);
            &&& about(
                fusion,
                times(value(engine.fuel_mass_per_pulse_kg), value(engine.reaction.energy_release_j_kg())),
                1,
            )
            &&& about(times(value(engine.driver_energy_per_pulse_j), value(spec.fusion_gain)), fusion, 1)
            &&& about(times(value(engine.peak_fusion_power_w), value(spec.pulse_duration_s)), fusion, 1)
            &&& engine.buffer_capacity_j == engine.driver_energy_per_pulse_j * whole(
                spec.energy_buffer_capacity_pulses as u64,
            )
            &&& about(
                times(value(engine.rated_pulse_interval_s), value(spec.maximum_pulse_frequency_hz)),
                value(whole(1)),
                1,
            )
        }),
{
    let fuel = spec.fuel_mass_per_pulse_kg;
    lemma_normal(engine.fusion_energy_per_pulse_j);
    lemma_normal(fuel);
    lemma_normal(spec.reaction.energy_release_j_kg());
    lemma_product_about(fuel, spec.reaction.energy_release_j_kg());
    lemma_undone(engine.fusion_energy_per_pulse_j, spec.fusion_gain);
    lemma_undone(engine.fusion_energy_per_pulse_j, spec.pulse_duration_s);
    lemma_one();
    lemma_undone(whole(1), spec.maximum_pulse_frequency_hz);
}

/// An arc's jet, no term of which is lost to underflow or overflow.
pub open spec fn arc_jet_kept(point: ElectricThrusterPoint) -> bool {
    let (thrust, flow) = (point.thrust_n, point.mass_flow_kg_s);
    &&& normal(thrust) && normal(flow) && normal(thrust * thrust) && normal(whole(2) * flow)
    &&& normal(thrust * thrust / (whole(2) * flow))
}

/// Every point of a magnetoplasmadynamic arc that draws describes one stream: on a host
/// that squares by one multiplication, the square of the thrust is twice the flow times
/// the jet power, to within three roundings.
pub proof fn lemma_arc_stream<M: Numerics>(
    engine: &CompiledElectricThruster,
    math: &M,
    command: ElectricThrusterCommand,
    point: ElectricThrusterPoint,
)
    requires
        engine.point(math, command) == Ok::<ElectricThrusterPoint, Fault>(point),
        engine.design is Magnetoplasmadynamic,
        zero() < point.mass_flow_kg_s,
        arc_jet_kept(point),
        forall|x: F64| #[trigger] squares(math, x),
    ensures
        ({
            let (thrust, flow, jet) = (value(point.thrust_n), value(point.mass_flow_kg_s), value(point.jet_kinetic_power_w));
            &&& about(times(times(2 as real, flow), jet), times(thrust, thrust), 3)
            &&& point.exhaust_internal_power_w == point.mass_flow_kg_s * engine.propellant.ionization_energy_j_kg()
            &&& point.exhaust_velocity_mps == point.thrust_n / point.mass_flow_kg_s
            &&& point.isp_s == point.exhaust_velocity_mps / standard_gravity_mps2()
        }),
{
    let (thrust, flow) = (point.thrust_n, point.mass_flow_kg_s);
    lemma_one();
    lemma_parts(flow);
    assert(squares(math, thrust));
    assert(point.jet_kinetic_power_w == thrust * thrust / (whole(2) * flow));
    lemma_normal(thrust);
    lemma_normal(flow);
    lemma_normal(whole(2) * flow);
    lemma_normal(thrust * thrust);
    lemma_product_about(thrust, thrust);
    lemma_whole_value(2);
    lemma_about_itself(whole(2));
    lemma_about_itself(flow);
    lemma_about_times(whole(2), flow, 2 as real, value(flow), 0, 0);
    let (jet, doubled) = (value(point.jet_kinetic_power_w), value(whole(2) * flow));
    lemma_undone(thrust * thrust, whole(2) * flow);
    lemma_normal(thrust * thrust / (whole(2) * flow));
    lemma_about_same(jet);
    lemma_about_turned(doubled, times(2 as real, value(flow)), 1);
    lemma_about_product(jet, jet, times(2 as real, value(flow)), doubled, 0, 1);
    lemma_times_commutes(jet, times(2 as real, value(flow)));
    let square = times(value(thrust), value(thrust));
    lemma_about_chain(times(times(2 as real, value(flow)), jet), times(jet, doubled), value(thrust * thrust), 1, 1);
    lemma_about_chain(times(times(2 as real, value(flow)), jet), value(thrust * thrust), square, 2, 1);
}

} // verus!
