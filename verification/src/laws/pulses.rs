//! The pulsed fusion drive keeps its buffer and phase within bounds, fires only when
//! armed, and counts every shot.
use crate::error::Fault;
use crate::float::{all_finite_in, lemma_one, whole, zero, F64};
use crate::float::decimals::{lemma_decimal, lemma_whole};
use crate::float::exact::{lemma_nothing, lemma_sub_self};
use crate::float::nearness::lemma_parts;
use crate::float::order::{
    lemma_add_not_negative, lemma_add_up, lemma_less, lemma_mul_commutes, lemma_mul_not_negative, lemma_negate,
    lemma_numbers, lemma_sub_order, lemma_sum,
};
use crate::fusion::{
    epsilon, CompiledPulsedFusion, PulseEvent, PulseRun, PulseTolerance, PulsedFusionCommand,
    PulsedFusionOperatingPoint, PulsedFusionSpec, PulsedFusionState, MAX_PULSE_EVENTS,
};
use crate::numerics::Numerics;
use vstd::arithmetic::power2::lemma_pow2_pos;
use vstd::prelude::*;

verus! {

/// A sound system whose interval and charger rating are not negative.
pub open spec fn well_formed(engine: &CompiledPulsedFusion) -> bool {
    &&& engine.is_sound()
    &&& zero() <= engine.pulse_interval_s
    &&& zero() <= engine.maximum_charge_power_w
}

/// Compilation gives well-formed systems only, whose pulses come no faster than the
/// rated frequency, the radiator and the pulse length allow.
pub proof fn lemma_compiled_well_formed<M: Numerics>(spec: PulsedFusionSpec, math: &M)
    requires
        spec.compiled(math) is Ok,
    ensures
        well_formed(&spec.compiled(math)->Ok_0),
        ({
            let engine = spec.compiled(math)->Ok_0;
            &&& engine.thermal_pulse_interval_s <= engine.pulse_interval_s
            &&& spec.pulse_duration_s <= engine.pulse_interval_s
            &&& !engine.rated_pulse_interval_s.is_nan() ==> engine.rated_pulse_interval_s <= engine.pulse_interval_s
        }),
{
    lemma_one();
    let engine = spec.sized(math);
    lemma_parts(engine.pulse_interval_s);
    lemma_parts(engine.thermal_pulse_interval_s);
}

/// Within a step: the buffer within its capacity, the phase within the interval, and
/// time left that is not negative.
pub open spec fn in_bounds(engine: &CompiledPulsedFusion, run: PulseRun) -> bool {
    &&& run.stored_j.is_finite() && zero() <= run.stored_j && run.stored_j <= engine.buffer_capacity_j
    &&& run.phase_s.is_finite() && zero() <= run.phase_s && run.phase_s <= engine.pulse_interval_s
    &&& run.remaining_s.is_finite() && zero() <= run.remaining_s
    &&& !(run.bus_energy_input_j < zero())
}

/// Charging keeps the buffer within its capacity and never drains it.
pub proof fn lemma_charge(engine: &CompiledPulsedFusion, run: PulseRun, power_w: F64, elapsed_s: F64)
    requires
        well_formed(engine),
        in_bounds(engine, run),
        zero() <= power_w,
        zero() <= elapsed_s,
        elapsed_s.is_finite(),
    ensures
        ({
            let after = engine.charge(run, power_w, elapsed_s);
            &&& in_bounds(engine, after)
            &&& run.stored_j <= after.stored_j
            &&& after.pulses_fired == run.pulses_fired
        }),
{
    lemma_one();
    let cap = engine.buffer_capacity_j;
    lemma_parts(cap);
    lemma_parts(run.stored_j);
    lemma_parts(run.bus_energy_input_j);
    lemma_negate(run.stored_j);
    lemma_sum(cap, run.stored_j.negate());
    let room = (cap - run.stored_j).max(zero());
    let offer = power_w * elapsed_s;
    let added = room.min(offer);
    if !offer.is_nan() {
        lemma_mul_not_negative(power_w, elapsed_s);
    }
    assert(zero() <= added);
    lemma_add_not_negative(run.stored_j, added);
    let filled = (run.stored_j + added).min(cap);
    lemma_parts(filled);
    lemma_parts(run.bus_energy_input_j + added);
    lemma_add_up(run.bus_energy_input_j, added);
}

/// One event keeps a run within bounds, and fires at most one shot.
pub proof fn lemma_event(engine: &CompiledPulsedFusion, run: PulseRun, power_w: F64, tolerance: PulseTolerance)
    requires
        well_formed(engine),
        in_bounds(engine, run),
        zero() <= power_w,
        run.pulses_fired < MAX_PULSE_EVENTS,
    ensures
        match engine.event(run, power_w, tolerance) {
            PulseEvent::Done(after) => in_bounds(engine, after) && after.pulses_fired == run.pulses_fired,
            PulseEvent::Continue(after) => in_bounds(engine, after) && run.pulses_fired <= after.pulses_fired
                <= run.pulses_fired + 1,
        },
{
    lemma_one();
    let interval = engine.pulse_interval_s;
    lemma_parts(interval);
    lemma_parts(run.phase_s);
    lemma_parts(run.remaining_s);
    lemma_negate(run.phase_s);
    lemma_sum(interval, run.phase_s.negate());
    let wait = engine.event_wait_s(run, power_w, tolerance);
    lemma_parts(wait);
    assert(zero() <= (interval - run.phase_s).max(zero()));
    assert(zero() <= wait);
    if !wait.is_finite() || wait > run.remaining_s {
        lemma_charge(engine, run, power_w, run.remaining_s);
        lemma_add_not_negative(run.phase_s, run.remaining_s);
        lemma_parts((run.phase_s + run.remaining_s).min(interval));
    } else {
        lemma_charge(engine, run, power_w, wait);
        lemma_add_not_negative(run.phase_s, wait);
        lemma_parts((run.phase_s + wait).min(interval));
        lemma_negate(wait);
        lemma_sum(run.remaining_s, wait.negate());
        lemma_less(run.remaining_s, wait);
        lemma_sub_self(run.remaining_s);
        lemma_sub_order(wait, run.remaining_s, run.remaining_s);
        lemma_parts(run.remaining_s - wait);
        let stored = engine.charge(run, power_w, wait).stored_j;
        let driver = engine.driver_energy_per_pulse_j;
        lemma_parts(driver);
        lemma_parts(stored);
        lemma_negate(driver);
        lemma_sum(stored, driver.negate());
        lemma_less(stored, driver);
        lemma_parts((stored - driver).max(zero()));
    }
}

/// A step that runs to its end stays within bounds throughout.
pub proof fn lemma_run_on(
    engine: &CompiledPulsedFusion,
    run: PulseRun,
    power_w: F64,
    tolerance: PulseTolerance,
    events: nat,
)
    requires
        well_formed(engine),
        in_bounds(engine, run),
        zero() <= power_w,
        run.pulses_fired <= events,
        events <= MAX_PULSE_EVENTS,
    ensures
        match engine.run_on(run, power_w, tolerance, events) {
            Ok(last) => in_bounds(engine, last) && run.pulses_fired <= last.pulses_fired <= MAX_PULSE_EVENTS,
            Err(_) => true,
        },
    decreases MAX_PULSE_EVENTS - events,
{
    if run.remaining_s > tolerance.time_s && events < MAX_PULSE_EVENTS {
        lemma_event(engine, run, power_w, tolerance);
        match engine.event(run, power_w, tolerance) {
            PulseEvent::Done(_) => {},
            PulseEvent::Continue(next) => {
                lemma_run_on(engine, next, power_w, tolerance, events + 1);
            },
        }
    }
}

/// What a step leaves behind is admitted to the next: the buffer within its capacity,
/// the phase within the interval. The shot counter grows by the shots fired, of which
/// there are no more than the event bound, and the point reports the state.
pub proof fn lemma_step_keeps_state(
    engine: &CompiledPulsedFusion,
    state: PulsedFusionState,
    command: PulsedFusionCommand,
    dt_s: F64,
    next: PulsedFusionState,
    point: PulsedFusionOperatingPoint,
)
    requires
        well_formed(engine),
        engine.advanced(state, command, dt_s) == Ok::<(PulsedFusionState, PulsedFusionOperatingPoint), Fault>(
            (next, point),
        ),
    ensures
        engine.admits(next),
        next.pulse_phase_s <= engine.pulse_interval_s,
        next.cumulative_shots == state.cumulative_shots + point.pulses_fired,
        point.pulses_fired <= MAX_PULSE_EVENTS,
        point.stored_driver_energy_j == next.stored_driver_energy_j,
        point.buffer_energy_delta_j == next.stored_driver_energy_j - state.stored_driver_energy_j,
        zero() <= point.bus_energy_input_j,
{
    lemma_one();
    lemma_start(engine, state, command, dt_s);
    let power_w = command.available_charge_power_w.min(engine.maximum_charge_power_w);
    let start = engine.run_start(state, dt_s);
    if command.armed {
        lemma_run_on(engine, start, power_w, engine.tolerance(dt_s), 0);
    } else {
        lemma_charge(engine, start, power_w, dt_s);
        let charged = PulseRun { remaining_s: zero(), ..engine.charge(start, power_w, dt_s) };
        lemma_run_on(engine, charged, power_w, engine.tolerance(dt_s), 0);
    }
    lemma_parts(next.pulse_phase_s);
    lemma_parts(next.stored_driver_energy_j);
    let numbers = point.numbers();
    assert(numbers[9].is_finite());
    lemma_parts(point.bus_energy_input_j);
}

pub proof fn lemma_start(engine: &CompiledPulsedFusion, state: PulsedFusionState, command: PulsedFusionCommand, dt_s: F64)
    requires
        well_formed(engine),
        engine.step_fault(state, command, dt_s) is None,
    ensures
        in_bounds(engine, engine.run_start(state, dt_s)),
        zero() <= command.available_charge_power_w.min(engine.maximum_charge_power_w),
        dt_s.is_finite(),
        zero() < dt_s,
{
    lemma_one();
    lemma_parts(dt_s);
    lemma_parts(state.pulse_phase_s);
    lemma_parts(state.stored_driver_energy_j);
    lemma_parts(engine.pulse_interval_s);
    lemma_parts(engine.buffer_capacity_j);
    lemma_parts(command.available_charge_power_w);
}

/// A disarmed system never fires: it charges, its phase stands still, and its shot
/// counter too.
pub proof fn lemma_disarmed_charges_only(
    engine: &CompiledPulsedFusion,
    state: PulsedFusionState,
    command: PulsedFusionCommand,
    dt_s: F64,
    next: PulsedFusionState,
    point: PulsedFusionOperatingPoint,
)
    requires
        well_formed(engine),
        !command.armed,
        engine.advanced(state, command, dt_s) == Ok::<(PulsedFusionState, PulsedFusionOperatingPoint), Fault>(
            (next, point),
        ),
    ensures
        point.pulses_fired == 0,
        next.cumulative_shots == state.cumulative_shots,
        next.pulse_phase_s == state.pulse_phase_s.min(engine.pulse_interval_s),
        state.stored_driver_energy_j <= next.stored_driver_energy_j,
        !point.power_limited,
{
    lemma_one();
    lemma_start(engine, state, command, dt_s);
    let power_w = command.available_charge_power_w.min(engine.maximum_charge_power_w);
    let start = engine.run_start(state, dt_s);
    lemma_charge(engine, start, power_w, dt_s);
    let charged = PulseRun { remaining_s: zero(), ..engine.charge(start, power_w, dt_s) };
    let tolerance = engine.tolerance(dt_s);
    lemma_tolerance(dt_s);
    assert(engine.run_on(charged, power_w, tolerance, 0) == Ok::<PulseRun, Fault>(charged));
}

/// The time tolerance of a step is not negative.
pub proof fn lemma_tolerance(dt_s: F64)
    requires
        zero() < dt_s,
    ensures
        !(dt_s * whole(16) * epsilon() < zero()),
{
    lemma_one();
    lemma_whole(16);
    lemma_numbers(dt_s * whole(16), epsilon());
    lemma_decimal(2_220_446_049_250_313, 31);
    lemma_pow2_pos(1074);
    if !(dt_s * whole(16) * epsilon()).is_nan() {
        lemma_mul_not_negative(dt_s, whole(16));
        lemma_mul_not_negative(dt_s * whole(16), epsilon());
    }
}

/// A step without a shot gives no impulse and uses no fuel.
pub proof fn lemma_no_shot_no_impulse(
    engine: &CompiledPulsedFusion,
    state: PulsedFusionState,
    command: PulsedFusionCommand,
    dt_s: F64,
    next: PulsedFusionState,
    point: PulsedFusionOperatingPoint,
)
    requires
        engine.advanced(state, command, dt_s) == Ok::<(PulsedFusionState, PulsedFusionOperatingPoint), Fault>(
            (next, point),
        ),
        point.pulses_fired == 0,
    ensures
        point.impulse_ns.same(zero()),
        point.fusion_energy_j.same(zero()),
        point.waste_heat_j.same(zero()),
        point.jet_kinetic_energy_j.same(zero()),
{
    lemma_one();
    lemma_whole(0);
    assert(whole(0).same(zero()));
    let numbers = point.numbers();
    assert(all_finite_in(numbers));
    assert(numbers[0].is_finite() && numbers[11].is_finite() && numbers[12].is_finite() && numbers[14].is_finite());
    lemma_parts(point.impulse_ns);
    lemma_parts(point.fusion_energy_j);
    lemma_parts(point.waste_heat_j);
    lemma_parts(point.jet_kinetic_energy_j);
    let impulse_per_pulse_ns = (whole(2) * engine.jet_energy_per_pulse_j * (engine.fuel_mass_per_pulse_kg
        + engine.working_fluid_mass_per_pulse_kg)).sqrt();
    lemma_none_of(impulse_per_pulse_ns);
    lemma_none_of(engine.fusion_energy_per_pulse_j);
    lemma_none_of(engine.waste_heat_per_pulse_j);
    lemma_none_of(engine.jet_energy_per_pulse_j);
}

proof fn lemma_none_of(x: F64)
    ensures
        (whole(0) * x).is_nan() || (whole(0) * x).units() == 0,
{
    lemma_one();
    lemma_whole(0);
    lemma_mul_commutes(whole(0), x);
    lemma_nothing(x, whole(0));
}

} // verus!
