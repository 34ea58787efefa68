//! Splitting a step of the pulsed fusion drive changes nothing but roundings.
use crate::error::Fault;
use crate::float::accuracy::{
    lemma_amount, lemma_normal, lemma_over, lemma_times_adds, lemma_times_associates, lemma_times_commutes,
    lemma_times_one, lemma_times_order, lemma_times_positive, lemma_times_strict, lemma_unit_value, lemma_value_order,
    lemma_zero_value, normal, step, times, value,
};
use crate::float::errors::{
    allowance, least, lemma_allowance, lemma_difference_close, lemma_product_near, lemma_size_times, lemma_sum_close,
    lemma_times_difference, size,
};
use crate::float::exact::lemma_sub_self;
use crate::float::{lemma_one, whole, zero, F64};
use crate::float::magnitude::{lemma_mag_increasing, lemma_mag_scaled, HIDDEN};
use crate::float::nearness::lemma_parts;
use crate::float::order::{
    lemma_add_not_negative, lemma_add_order, lemma_finite_difference, lemma_finite_less, lemma_less,
    lemma_mul_commutes, lemma_mul_not_negative, lemma_mul_order, lemma_negate, lemma_product, lemma_within,
};
use crate::fusion::{
    CompiledPulsedFusion, PulseEvent, PulseRun, PulseTolerance, PulsedFusionCommand, PulsedFusionOperatingPoint,
    PulsedFusionState, MAX_PULSE_EVENTS,
};
use crate::laws::cadence::{chain, lemma_chain_end, lemma_chain_follows, lemma_chain_split, lesser};
use crate::laws::ledger::{
    buffer_kept, events_left, lemma_allowances, lemma_charge_parts, lemma_finite_sum, lemma_shot_drift,
    lemma_sixteen_units, lemma_total, step_events, tolerable, total_kept,
};
use crate::laws::pulses::{in_bounds, lemma_event, lemma_run_on, lemma_start, lemma_step_keeps_state, well_formed};
use vstd::arithmetic::power2::{lemma2_to64, lemma_pow2_pos, pow2};
use vstd::prelude::*;

verus! {

/// While a run is smooth, the buffer holds a shot whenever the interval ends, and each
/// event fires one, up to the last, which runs out the step.
pub open spec fn smooth(
    engine: &CompiledPulsedFusion,
    run: PulseRun,
    power_w: F64,
    tolerance: PulseTolerance,
    events: nat,
) -> bool
    decreases MAX_PULSE_EVENTS - events,
{
    if !(run.remaining_s > tolerance.time_s) {
        true
    } else if events >= MAX_PULSE_EVENTS {
        false
    } else {
        &&& run.stored_j + tolerance.energy_j >= engine.driver_energy_per_pulse_j
        &&& match engine.event(run, power_w, tolerance) {
            PulseEvent::Done(_) => engine.event_wait_s(run, power_w, tolerance) > run.remaining_s,
            PulseEvent::Continue(next) => next.pulses_fired == run.pulses_fired + 1 && smooth(
                engine,
                next,
                power_w,
                tolerance,
                events + 1,
            ),
        }
    }
}

/// A step of which nothing is lost to underflow or overflow: the doubles of buffer, driver
/// energy and interval are finite, the tolerances keep full precision, and so does the
/// buffer.
pub open spec fn step_kept(engine: &CompiledPulsedFusion, power_w: F64, dt_s: F64) -> bool {
    &&& well_formed(engine)
    &&& buffer_kept(engine)
    &&& normal(engine.buffer_capacity_j)
    &&& (engine.pulse_interval_s + engine.pulse_interval_s).is_finite()
    &&& zero() <= power_w && power_w.is_finite()
    &&& tolerable(dt_s)
    &&& (power_w * dt_s).is_finite()
}

/// What bounds the times of a step.
pub open spec fn time_scale(engine: &CompiledPulsedFusion, dt_s: F64) -> real {
    value(engine.pulse_interval_s) + value(dt_s)
}

/// What bounds the energies of a step.
pub open spec fn energy_scale(engine: &CompiledPulsedFusion, power_w: F64, dt_s: F64) -> real {
    value(engine.buffer_capacity_j) + value(engine.driver_energy_per_pulse_j) + times(
        value(power_w),
        time_scale(engine, dt_s),
    )
}

/// The exact buffer of an engine charged at a power.
pub open spec fn exact_buffer(
    engine: &CompiledPulsedFusion,
    power_w: F64,
    stored: real,
    phase: real,
    shots: nat,
    end: real,
) -> real {
    chain(
        value(engine.buffer_capacity_j),
        value(engine.driver_energy_per_pulse_j),
        value(engine.pulse_interval_s),
        value(power_w),
        stored,
        phase,
        shots,
        end,
    )
}

/// The signs of the figures of a step.
pub proof fn lemma_figures(engine: &CompiledPulsedFusion, power_w: F64, dt_s: F64)
    requires
        step_kept(engine, power_w, dt_s),
    ensures
        value(engine.buffer_capacity_j) > (0 as real),
        value(engine.driver_energy_per_pulse_j) > (0 as real),
        value(engine.pulse_interval_s) >= (0 as real),
        value(power_w) >= (0 as real),
        value(dt_s) > (0 as real),
        times(value(power_w), time_scale(engine, dt_s)) >= (0 as real),
        least() <= times(value(engine.buffer_capacity_j), allowance(1)),
{
    lemma_one();
    lemma_normal(engine.buffer_capacity_j);
    lemma_normal(engine.driver_energy_per_pulse_j);
    lemma_normal(dt_s);
    lemma_parts(engine.pulse_interval_s);
    lemma_value_order(engine.pulse_interval_s, engine.pulse_interval_s);
    lemma_parts(power_w);
    lemma_value_order(power_w, power_w);
    lemma_times_positive(value(power_w), time_scale(engine, dt_s));
    lemma_least(engine.buffer_capacity_j);
}

/// The least value is no more than a rounding of any normal number.
proof fn lemma_least(x: F64)
    requires
        normal(x),
    ensures
        least() <= times(value(x), allowance(1)),
{
    lemma_normal(x);
    lemma_parts(x);
    lemma_mag_scaled(HIDDEN as nat, 0);
    lemma2_to64();
    if x.pattern() > HIDDEN {
        lemma_mag_increasing(HIDDEN as nat, x.pattern());
    }
    lemma_pow2_pos(1074);
    let (p, v) = (pow2(1074) as real, value(x));
    lemma_unit_value(x);
    lemma_over(1 as real, p);
    let small = times(v, allowance(1));
    lemma_times_associates(v, allowance(1), p);
    lemma_times_commutes(allowance(1), p);
    lemma_times_associates(v, p, allowance(1));
    assert(times(small, p) >= (1 as real)) by {
        reveal(times);
        let (u, s) = (x.units() as real, step());
        assert(u * ((1 as real) * s) >= (1 as real)) by (nonlinear_arith)
            requires
                u >= (4_503_599_627_370_496 as real),
                s * (4_503_599_627_370_496 as real) == (1 as real),
                s > (0 as real),
        ;
    }
    if small < least() {
        lemma_times_strict(small, least(), p);
    }
}

/// Charging for a while brings the buffer to where an exact charge for nearly that while
/// would.
pub proof fn lemma_charge_to(
    engine: &CompiledPulsedFusion,
    run: PulseRun,
    power_w: F64,
    dt_s: F64,
    elapsed_s: F64,
    target: real,
    k: nat,
)
    requires
        step_kept(engine, power_w, dt_s),
        in_bounds(engine, run),
        zero() <= elapsed_s,
        elapsed_s <= dt_s,
        size(value(elapsed_s) - target) <= times(time_scale(engine, dt_s), allowance(k)),
    ensures
        ({
            let after = engine.charge(run, power_w, elapsed_s).stored_j;
            let c = value(engine.buffer_capacity_j);
            &&& size(value(after) - lesser(c, value(run.stored_j) + times(value(power_w), target))) <= times(
                energy_scale(engine, power_w, dt_s),
                allowance(9 + k),
            )
            &&& after.is_finite() && zero() <= after
            &&& (0 as real) <= value(after) <= c
        }),
{
    let cap = engine.buffer_capacity_j;
    let offer = power_w * elapsed_s;
    let added = (cap - run.stored_j).max(zero()).min(offer);
    let (c, s, a, p, t) = (
        value(cap),
        value(run.stored_j),
        value(added),
        value(power_w),
        time_scale(engine, dt_s),
    );
    let scale = energy_scale(engine, power_w, dt_s);
    lemma_one();
    lemma_figures(engine, power_w, dt_s);
    lemma_parts(dt_s);
    lemma_parts(elapsed_s);
    lemma_parts(power_w);
    lemma_normal(dt_s);
    lemma_within(elapsed_s, dt_s);
    lemma_charge_parts(engine, run, power_w, elapsed_s);
    // The offer.
    lemma_product(power_w, elapsed_s);
    lemma_product(power_w, dt_s);
    lemma_mul_commutes(power_w, elapsed_s);
    lemma_mul_commutes(power_w, dt_s);
    lemma_mul_order(elapsed_s, dt_s, power_w);
    lemma_mul_not_negative(power_w, elapsed_s);
    lemma_within(offer, power_w * dt_s);
    lemma_parts(offer);
    lemma_product_near(power_w, elapsed_s);
    let (o, l) = (value(offer), value(elapsed_s));
    lemma_value_order(elapsed_s, elapsed_s);
    lemma_value_order(elapsed_s, dt_s);
    let span = times(p, t);
    lemma_times_order(l, t, p);
    lemma_allowance(2, k);
    lemma_times_order(times(p, l), span, allowance(2));
    // The time.
    lemma_times_commutes(p, l);
    lemma_times_commutes(p, target);
    lemma_times_difference(l, target, p);
    lemma_size_times(l - target, p);
    lemma_times_order(size(l - target), times(t, allowance(k)), p);
    lemma_times_associates(t, allowance(k), p);
    lemma_times_commutes(allowance(k), p);
    lemma_times_associates(t, p, allowance(k));
    lemma_times_commutes(t, p);
    assert(size(o - times(p, target)) <= times(span, allowance(2)) + least() + times(span, allowance(k)));
    // All of it.
    lemma_allowances(c, 4, 2);
    lemma_allowances(c, 6, 1);
    lemma_allowances(span, 2, k);
    lemma_allowance(7, k + 2);
    lemma_allowance(k + 2, 7);
    lemma_times_order(c, scale, allowance(7));
    lemma_times_order(span, scale, allowance(2 + k));
    lemma_allowances(scale, 7, 2 + k);
}

/// The way to the end of the interval.
pub proof fn lemma_way_left(engine: &CompiledPulsedFusion, run: PulseRun)
    requires
        well_formed(engine),
        in_bounds(engine, run),
    ensures
        ({
            let way = engine.pulse_interval_s - run.phase_s;
            let (t, phase) = (value(engine.pulse_interval_s), value(run.phase_s));
            &&& way.is_finite() && zero() <= way && way <= engine.pulse_interval_s
            &&& size(value(way) - (t - phase)) <= times(t, allowance(2))
            &&& (0 as real) <= phase <= t
        }),
{
    let interval = engine.pulse_interval_s;
    let way = interval - run.phase_s;
    lemma_one();
    lemma_parts(interval);
    lemma_parts(run.phase_s);
    lemma_parts(zero());
    lemma_finite_difference(interval, run.phase_s);
    lemma_parts(way);
    lemma_sub_self(run.phase_s);
    lemma_finite_less(run.phase_s, run.phase_s);
    lemma_negate(run.phase_s);
    lemma_add_order(run.phase_s, interval, run.phase_s.negate());
    lemma_less(interval, run.phase_s);
    lemma_difference_close(interval, run.phase_s);
    lemma_value_order(run.phase_s, interval);
    lemma_value_order(run.phase_s, run.phase_s);
    lemma_allowance(2, 0);
    let (t, phase) = (value(interval), value(run.phase_s));
    lemma_times_order(size(t - phase), t, allowance(2));
}

/// An event of a smooth run waits for the end of the interval.
proof fn lemma_smooth_wait(engine: &CompiledPulsedFusion, run: PulseRun, power_w: F64, tolerance: PulseTolerance)
    requires
        well_formed(engine),
        in_bounds(engine, run),
        run.stored_j + tolerance.energy_j >= engine.driver_energy_per_pulse_j,
    ensures
        ({
            let wait = engine.event_wait_s(run, power_w, tolerance);
            let (t, phase) = (value(engine.pulse_interval_s), value(run.phase_s));
            &&& wait.is_finite() && zero() <= wait && wait <= engine.pulse_interval_s
            &&& size(value(wait) - (t - phase)) <= times(t, allowance(2))
            &&& (0 as real) <= phase <= t
        }),
{
    let way = engine.pulse_interval_s - run.phase_s;
    let wait = engine.event_wait_s(run, power_w, tolerance);
    lemma_one();
    lemma_way_left(engine, run);
    lemma_parts(way);
    lemma_parts(zero());
    assert(wait.units() == way.units());
    lemma_value_order(wait, way);
    lemma_value_order(way, wait);
    lemma_parts(wait);
}

/// One shot of a smooth run.
proof fn lemma_shot(engine: &CompiledPulsedFusion, run: PulseRun, power_w: F64, dt_s: F64, next: PulseRun)
    requires
        step_kept(engine, power_w, dt_s),
        in_bounds(engine, run),
        run.pulses_fired < MAX_PULSE_EVENTS,
        run.remaining_s <= dt_s,
        run.stored_j + engine.tolerance(dt_s).energy_j >= engine.driver_energy_per_pulse_j,
        engine.event(run, power_w, engine.tolerance(dt_s)) == PulseEvent::Continue(next),
        next.pulses_fired == run.pulses_fired + 1,
    ensures
        in_bounds(engine, next),
        next.phase_s == zero(),
        next.remaining_s <= run.remaining_s,
        ({
            let (t, phase) = (value(engine.pulse_interval_s), value(run.phase_s));
            &&& size((value(next.remaining_s) + t) - (phase + value(run.remaining_s))) <= times(
                time_scale(engine, dt_s),
                allowance(4),
            )
            &&& size(
                value(next.stored_j) - (lesser(
                    value(engine.buffer_capacity_j),
                    value(run.stored_j) + times(value(power_w), t - phase),
                ) - value(engine.driver_energy_per_pulse_j)),
            ) <= times(energy_scale(engine, power_w, dt_s), allowance(96))
        }),
{
    let tolerance = engine.tolerance(dt_s);
    let driver = engine.driver_energy_per_pulse_j;
    let wait = engine.event_wait_s(run, power_w, tolerance);
    let (t, phase, r, w) = (
        value(engine.pulse_interval_s),
        value(run.phase_s),
        value(run.remaining_s),
        value(wait),
    );
    let (span, scale) = (time_scale(engine, dt_s), energy_scale(engine, power_w, dt_s));
    lemma_one();
    lemma_figures(engine, power_w, dt_s);
    lemma_event(engine, run, power_w, tolerance);
    lemma_smooth_wait(engine, run, power_w, tolerance);
    lemma_parts(wait);
    lemma_parts(run.remaining_s);
    lemma_parts(dt_s);
    lemma_normal(dt_s);
    assert(wait <= run.remaining_s);
    // The time.
    lemma_value_order(wait, run.remaining_s);
    lemma_value_order(wait, wait);
    lemma_value_order(run.remaining_s, dt_s);
    lemma_finite_difference(run.remaining_s, wait);
    lemma_less(run.remaining_s, wait);
    lemma_difference_close(run.remaining_s, wait);
    lemma_allowance(2, 2);
    lemma_times_order(size(r - w), span, allowance(2));
    lemma_times_order(t, span, allowance(2));
    lemma_allowances(span, 2, 2);
    // The buffer.
    lemma_charge_to(engine, run, power_w, dt_s, wait, t - phase, 2);
    lemma_sixteen_units(driver);
    let charged = engine.charge(run, power_w, wait).stored_j;
    lemma_shot_drift(charged, driver, tolerance.energy_j, scale);
    lemma_allowances(scale, 11, 72);
    lemma_allowance(83, 96);
    lemma_times_order(allowance(83), allowance(96), scale);
}

/// The last event of a smooth run.
proof fn lemma_run_out(engine: &CompiledPulsedFusion, run: PulseRun, power_w: F64, dt_s: F64, last: PulseRun)
    requires
        step_kept(engine, power_w, dt_s),
        in_bounds(engine, run),
        run.pulses_fired < MAX_PULSE_EVENTS,
        run.remaining_s <= dt_s,
        run.stored_j + engine.tolerance(dt_s).energy_j >= engine.driver_energy_per_pulse_j,
        engine.event(run, power_w, engine.tolerance(dt_s)) == PulseEvent::Done(last),
        engine.event_wait_s(run, power_w, engine.tolerance(dt_s)) > run.remaining_s,
    ensures
        last.pulses_fired == run.pulses_fired,
        in_bounds(engine, last),
        ({
            let (phase, end) = (value(run.phase_s), value(last.phase_s));
            &&& (0 as real) <= phase <= end <= value(engine.pulse_interval_s)
            &&& size(end - (phase + value(run.remaining_s))) <= times(time_scale(engine, dt_s), allowance(4))
            &&& size(
                value(last.stored_j) - lesser(
                    value(engine.buffer_capacity_j),
                    value(run.stored_j) + times(value(power_w), end - phase),
                ),
            ) <= times(energy_scale(engine, power_w, dt_s), allowance(96))
        }),
{
    let tolerance = engine.tolerance(dt_s);
    let interval = engine.pulse_interval_s;
    let wait = engine.event_wait_s(run, power_w, tolerance);
    let sum = run.phase_s + run.remaining_s;
    let (t, phase, r, w, end) = (
        value(interval),
        value(run.phase_s),
        value(run.remaining_s),
        value(wait),
        value(last.phase_s),
    );
    let (span, scale) = (time_scale(engine, dt_s), energy_scale(engine, power_w, dt_s));
    lemma_one();
    lemma_figures(engine, power_w, dt_s);
    lemma_event(engine, run, power_w, tolerance);
    lemma_smooth_wait(engine, run, power_w, tolerance);
    lemma_parts(wait);
    lemma_parts(run.remaining_s);
    lemma_parts(run.phase_s);
    lemma_parts(dt_s);
    lemma_parts(interval);
    lemma_finite_sum(run.phase_s, run.remaining_s, interval);
    lemma_parts(sum);
    lemma_sum_close(run.phase_s, run.remaining_s);
    lemma_add_not_negative(run.phase_s, run.remaining_s);
    lemma_value_order(run.remaining_s, wait);
    lemma_value_order(run.remaining_s, run.remaining_s);
    lemma_value_order(wait, interval);
    lemma_value_order(sum, interval);
    lemma_value_order(interval, sum);
    lemma_value_order(last.phase_s, interval);
    lemma_value_order(run.phase_s, last.phase_s);
    lemma_value_order(last.phase_s, sum);
    lemma_value_order(sum, last.phase_s);
    lemma_value_order(interval, last.phase_s);
    lemma_value_order(run.phase_s, interval);
    lemma_allowance(2, 2);
    lemma_allowance(4, 0);
    lemma_times_order(size(phase + r), t + t, allowance(2));
    lemma_times_adds(t, t, allowance(2));
    lemma_allowances(t, 2, 2);
    lemma_times_order(t, span, allowance(4));
    lemma_times_positive(t, allowance(2));
    assert(size(end - (phase + r)) <= times(t, allowance(4)));
    lemma_charge_to(engine, run, power_w, dt_s, run.remaining_s, end - phase, 4);
    lemma_allowance(13, 96);
    lemma_times_order(allowance(13), allowance(96), scale);
}

/// A smooth run keeps time and follows the exact buffer.
proof fn lemma_smooth_run(
    engine: &CompiledPulsedFusion,
    run: PulseRun,
    power_w: F64,
    dt_s: F64,
    events: nat,
    last: PulseRun,
)
    requires
        step_kept(engine, power_w, dt_s),
        in_bounds(engine, run),
        run.pulses_fired <= events,
        events <= MAX_PULSE_EVENTS,
        run.remaining_s <= dt_s,
        smooth(engine, run, power_w, engine.tolerance(dt_s), events),
        engine.run_on(run, power_w, engine.tolerance(dt_s), events) == Ok::<PulseRun, Fault>(last),
    ensures
        keeps_time(engine, run, power_w, dt_s, events, last),
    decreases MAX_PULSE_EVENTS - events,
{
    let tolerance = engine.tolerance(dt_s);
    let (t, phase) = (value(engine.pulse_interval_s), value(run.phase_s));
    let (span, scale) = (time_scale(engine, dt_s), energy_scale(engine, power_w, dt_s));
    let (c, p, s) = (value(engine.buffer_capacity_j), value(power_w), value(run.stored_j));
    lemma_one();
    lemma_zero_value();
    lemma_figures(engine, power_w, dt_s);
    lemma_run_on(engine, run, power_w, tolerance, events);
    lemma_bounds(engine, run);
    lemma_bounds(engine, last);
    lemma_times_adds(0 as real, 0 as real, t);
    lemma_times_adds(0 as real, 0 as real, p);
    lemma_times_commutes(p, 0 as real);
    lemma_allowance(0, 0);
    if run.remaining_s > tolerance.time_s && events < MAX_PULSE_EVENTS {
        match engine.event(run, power_w, tolerance) {
            PulseEvent::Done(after) => {
                lemma_run_out(engine, run, power_w, dt_s, after);
                lemma_allowance(4, 68);
                lemma_times_order(allowance(4), allowance(68), span);
            },
            PulseEvent::Continue(next) => {
                lemma_shot(engine, run, power_w, dt_s, next);
                lemma_smooth_run(engine, next, power_w, dt_s, events + 1, last);
                lemma_run_on(engine, next, power_w, tolerance, events + 1);
                let more = events_left(engine, next, power_w, tolerance, events + 1);
                let shots = (last.pulses_fired - next.pulses_fired) as nat;
                // The time.
                lemma_allowances(span, 4, 4 * more + 64);
                lemma_times_adds(shots as real, 1 as real, t);
                lemma_times_one(t);
                assert(4 + (4 * more + 64) == 4 * (1 + more) + 64);
                assert((shots + 1) as real == shots as real + 1 as real);
                // The buffer.
                let exact = lesser(c, s + times(p, t - phase)) - value(engine.driver_energy_per_pulse_j);
                lemma_chain_follows(
                    c,
                    value(engine.driver_energy_per_pulse_j),
                    t,
                    p,
                    value(next.stored_j),
                    exact,
                    0 as real,
                    shots,
                    value(last.phase_s),
                    times(scale, allowance(96)),
                );
                lemma_allowances(scale, 96, 96 * more);
                assert(96 + 96 * more == 96 * (1 + more));
            },
        }
    } else {
        lemma_sixteen_units(dt_s);
        lemma_parts(tolerance.time_s);
        lemma_normal(tolerance.time_s);
        lemma_parts(run.remaining_s);
        lemma_value_order(run.remaining_s, tolerance.time_s);
        lemma_value_order(run.remaining_s, run.remaining_s);
        lemma_allowance(64, 0);
        lemma_times_order(value(dt_s), span, allowance(64));
        lemma_times_commutes(scale, 0 as real);
        lemma_times_adds(0 as real, 0 as real, scale);
    }
}

/// The values of a run within bounds.
pub proof fn lemma_bounds(engine: &CompiledPulsedFusion, run: PulseRun)
    requires
        well_formed(engine),
        in_bounds(engine, run),
    ensures
        (0 as real) <= value(run.phase_s) <= value(engine.pulse_interval_s),
        (0 as real) <= value(run.stored_j) <= value(engine.buffer_capacity_j),
        (0 as real) <= value(run.remaining_s),
{
    lemma_one();
    lemma_parts(run.phase_s);
    lemma_parts(run.stored_j);
    lemma_parts(run.remaining_s);
    lemma_value_order(run.phase_s, engine.pulse_interval_s);
    lemma_value_order(run.phase_s, run.phase_s);
    lemma_value_order(run.stored_j, engine.buffer_capacity_j);
    lemma_value_order(run.stored_j, run.stored_j);
    lemma_value_order(run.remaining_s, run.remaining_s);
}

/// The run's clock: end phase and whole intervals make up start phase and time; and its
/// buffer is the exact one: both up to rounding.
pub open spec fn keeps_time(
    engine: &CompiledPulsedFusion,
    run: PulseRun,
    power_w: F64,
    dt_s: F64,
    events: nat,
    last: PulseRun,
) -> bool {
    let count = events_left(engine, run, power_w, engine.tolerance(dt_s), events);
    let shots = (last.pulses_fired - run.pulses_fired) as nat;
    let (phase, end) = (value(run.phase_s), value(last.phase_s));
    &&& run.pulses_fired <= last.pulses_fired
    &&& (0 as real) <= end <= value(engine.pulse_interval_s)
    &&& shots == 0 ==> phase <= end
    &&& size(
        (end + times(shots as real, value(engine.pulse_interval_s))) - (phase + value(run.remaining_s)),
    ) <= times(time_scale(engine, dt_s), allowance(4 * count + 64))
    &&& size(
        value(last.stored_j) - exact_buffer(engine, power_w, value(run.stored_j), phase, shots, end),
    ) <= times(energy_scale(engine, power_w, dt_s), allowance(96 * count))
}

/// A step of ordinary figures that runs smoothly.
pub open spec fn smooth_step(
    engine: &CompiledPulsedFusion,
    state: PulsedFusionState,
    command: PulsedFusionCommand,
    dt_s: F64,
) -> bool {
    let power_w = command.available_charge_power_w.min(engine.maximum_charge_power_w);
    &&& command.armed
    &&& step_kept(engine, power_w, dt_s)
    &&& smooth(engine, engine.run_start(state, dt_s), power_w, engine.tolerance(dt_s), 0)
}

/// By how much the clock of a step may stray (s).
pub open spec fn time_slack(
    engine: &CompiledPulsedFusion,
    state: PulsedFusionState,
    command: PulsedFusionCommand,
    dt_s: F64,
) -> real {
    times(time_scale(engine, dt_s), allowance(4 * step_events(engine, state, command, dt_s) + 64))
}

/// By how much the buffer of a step may stray (J).
pub open spec fn energy_slack(
    engine: &CompiledPulsedFusion,
    state: PulsedFusionState,
    command: PulsedFusionCommand,
    dt_s: F64,
) -> real {
    let power_w = command.available_charge_power_w.min(engine.maximum_charge_power_w);
    times(energy_scale(engine, power_w, dt_s), allowance(96 * step_events(engine, state, command, dt_s)))
}

/// A smooth step keeps time: its end phase and an interval for each shot make up its
/// start phase and its length; and its buffer is the exact one: both up to rounding.
pub proof fn lemma_smooth_step(
    engine: &CompiledPulsedFusion,
    state: PulsedFusionState,
    command: PulsedFusionCommand,
    dt_s: F64,
    next: PulsedFusionState,
    point: PulsedFusionOperatingPoint,
)
    requires
        smooth_step(engine, state, command, dt_s),
        engine.advanced(state, command, dt_s) == Ok::<(PulsedFusionState, PulsedFusionOperatingPoint), Fault>(
            (next, point),
        ),
    ensures
        ({
            let power_w = command.available_charge_power_w.min(engine.maximum_charge_power_w);
            let interval = value(engine.pulse_interval_s);
            let (phase, end) = (value(state.pulse_phase_s.min(engine.pulse_interval_s)), value(next.pulse_phase_s));
            let exact = exact_buffer(
                engine,
                power_w,
                value(state.stored_driver_energy_j),
                phase,
                point.pulses_fired as nat,
                end,
            );
            &&& (0 as real) <= end <= interval
            &&& (0 as real) <= phase <= interval
            &&& point.pulses_fired == 0 ==> phase <= end
            &&& size((end + times(point.pulses_fired as real, interval)) - (phase + value(dt_s))) <= time_slack(
                engine,
                state,
                command,
                dt_s,
            )
            &&& size(value(next.stored_driver_energy_j) - exact) <= energy_slack(engine, state, command, dt_s)
        }),
{
    let power_w = command.available_charge_power_w.min(engine.maximum_charge_power_w);
    let start = engine.run_start(state, dt_s);
    let last = engine.run(state, command, dt_s)->Ok_0;
    lemma_one();
    lemma_start(engine, state, command, dt_s);
    lemma_parts(dt_s);
    lemma_bounds(engine, start);
    lemma_smooth_run(engine, start, power_w, dt_s, 0, last);
}

/// Steps taken one after the other, each from where the one before came to.
pub open spec fn follow(
    engine: &CompiledPulsedFusion,
    command: PulsedFusionCommand,
    lengths: Seq<F64>,
    states: Seq<PulsedFusionState>,
    points: Seq<PulsedFusionOperatingPoint>,
) -> bool {
    &&& states.len() == lengths.len() + 1
    &&& points.len() == lengths.len()
    &&& forall|i: int|
        #![trigger lengths[i]]
        0 <= i < lengths.len() ==> engine.advanced(states[i], command, lengths[i]) == Ok::<
            (PulsedFusionState, PulsedFusionOperatingPoint),
            Fault,
        >((states[i + 1], points[i]))
}

/// Smooth steps that follow each other.
pub open spec fn threads(
    engine: &CompiledPulsedFusion,
    command: PulsedFusionCommand,
    lengths: Seq<F64>,
    states: Seq<PulsedFusionState>,
    points: Seq<PulsedFusionOperatingPoint>,
) -> bool {
    &&& follow(engine, command, lengths, states, points)
    &&& forall|i: int|
        #![trigger lengths[i]]
        0 <= i < lengths.len() ==> smooth_step(engine, states[i], command, lengths[i])
}

/// The time of the first `n` steps (s).
pub open spec fn time_of(lengths: Seq<F64>, n: nat) -> real
    decreases n,
{
    if n == 0 {
        0 as real
    } else {
        time_of(lengths, (n - 1) as nat) + value(lengths[n - 1])
    }
}

/// The shots of the first `n` steps.
pub open spec fn shots_of(points: Seq<PulsedFusionOperatingPoint>, n: nat) -> nat
    decreases n,
{
    if n == 0 {
        0
    } else {
        shots_of(points, (n - 1) as nat) + points[n - 1].pulses_fired as nat
    }
}

/// The impulse of the first `n` steps (N s).
pub open spec fn impulse_of(points: Seq<PulsedFusionOperatingPoint>, n: nat) -> real
    decreases n,
{
    if n == 0 {
        0 as real
    } else {
        impulse_of(points, (n - 1) as nat) + value(points[n - 1].impulse_ns)
    }
}

/// By how much the clocks of the first `n` steps may stray together (s).
pub open spec fn time_slacks(
    engine: &CompiledPulsedFusion,
    command: PulsedFusionCommand,
    lengths: Seq<F64>,
    states: Seq<PulsedFusionState>,
    n: nat,
) -> real
    decreases n,
{
    if n == 0 {
        0 as real
    } else {
        time_slacks(engine, command, lengths, states, (n - 1) as nat) + time_slack(
            engine,
            states[n - 1],
            command,
            lengths[n - 1],
        )
    }
}

/// By how much the buffers of the first `n` steps may stray together (J).
pub open spec fn energy_slacks(
    engine: &CompiledPulsedFusion,
    command: PulsedFusionCommand,
    lengths: Seq<F64>,
    states: Seq<PulsedFusionState>,
    n: nat,
) -> real
    decreases n,
{
    if n == 0 {
        0 as real
    } else {
        energy_slacks(engine, command, lengths, states, (n - 1) as nat) + energy_slack(
            engine,
            states[n - 1],
            command,
            lengths[n - 1],
        )
    }
}

/// The phase of a state, no further than the interval (s).
pub open spec fn phase_of(engine: &CompiledPulsedFusion, state: PulsedFusionState) -> real {
    value(state.pulse_phase_s.min(engine.pulse_interval_s))
}

/// Threaded steps keep time and follow the exact buffer.
proof fn lemma_threaded(
    engine: &CompiledPulsedFusion,
    command: PulsedFusionCommand,
    lengths: Seq<F64>,
    states: Seq<PulsedFusionState>,
    points: Seq<PulsedFusionOperatingPoint>,
    n: nat,
)
    requires
        threads(engine, command, lengths, states, points),
        1 <= n <= lengths.len(),
    ensures
        ({
            let power_w = command.available_charge_power_w.min(engine.maximum_charge_power_w);
            let interval = value(engine.pulse_interval_s);
            let (phase, end) = (phase_of(engine, states[0]), value(states[n as int].pulse_phase_s));
            let shots = shots_of(points, n);
            &&& states[n as int].pulse_phase_s.min(engine.pulse_interval_s) == states[n as int].pulse_phase_s
            &&& (0 as real) <= end <= interval
            &&& shots == 0 ==> phase <= end
            &&& size((end + times(shots as real, interval)) - (phase + time_of(lengths, n))) <= time_slacks(
                engine,
                command,
                lengths,
                states,
                n,
            )
            &&& size(
                value(states[n as int].stored_driver_energy_j) - exact_buffer(
                    engine,
                    power_w,
                    value(states[0].stored_driver_energy_j),
                    phase,
                    shots,
                    end,
                ),
            ) <= energy_slacks(engine, command, lengths, states, n)
            &&& states[n as int].cumulative_shots == states[0].cumulative_shots + shots
        }),
    decreases n,
{
    let power_w = command.available_charge_power_w.min(engine.maximum_charge_power_w);
    let m = (n - 1) as int;
    let (from, to, point, length) = (states[m], states[m + 1], points[m], lengths[m]);
    lemma_smooth_step(engine, from, command, length, to, point);
    lemma_step_keeps_state(engine, from, command, length, to, point);
    lemma_one();
    lemma_parts(to.pulse_phase_s);
    assert(shots_of(points, n) == shots_of(points, m as nat) + point.pulses_fired as nat);
    assert(time_of(lengths, n) == time_of(lengths, m as nat) + value(length));
    if m > 0 {
        lemma_threaded(engine, command, lengths, states, points, m as nat);
        lemma_figures(engine, power_w, length);
        let (cap, driver, t, p) = (
            value(engine.buffer_capacity_j),
            value(engine.driver_energy_per_pulse_j),
            value(engine.pulse_interval_s),
            value(power_w),
        );
        let (s, phase) = (value(states[0].stored_driver_energy_j), phase_of(engine, states[0]));
        let (pause, end) = (value(from.pulse_phase_s), value(to.pulse_phase_s));
        let (before, now) = (shots_of(points, m as nat), point.pulses_fired as nat);
        lemma_times_adds(before as real, now as real, t);
        assert((before + now) as real == before as real + now as real);
        lemma_chain_follows(
            cap,
            driver,
            t,
            p,
            value(from.stored_driver_energy_j),
            chain(cap, driver, t, p, s, phase, before, pause),
            pause,
            now,
            end,
            energy_slacks(engine, command, lengths, states, m as nat),
        );
        lemma_chain_split(cap, driver, t, p, s, phase, before, pause, now, end);
    } else {
        assert(time_of(lengths, 0) == (0 as real) && shots_of(points, 0) == 0);
        assert(time_slacks(engine, command, lengths, states, 0) == (0 as real));
        assert(energy_slacks(engine, command, lengths, states, 0) == (0 as real));
    }
}

/// By how much the clock of threaded steps may stray from that of one step (s).
pub open spec fn split_slack(
    engine: &CompiledPulsedFusion,
    command: PulsedFusionCommand,
    dt_s: F64,
    lengths: Seq<F64>,
    states: Seq<PulsedFusionState>,
) -> real {
    time_slack(engine, states[0], command, dt_s) + time_slacks(engine, command, lengths, states, lengths.len()) + size(
        value(dt_s) - time_of(lengths, lengths.len()),
    )
}

/// Splitting a step changes nothing but roundings. A smooth step, and smooth steps that
/// follow each other for together its length, fire the same shots, deliver the same
/// impulse up to rounding, and come to the same phase and buffer up to what they may
/// stray, unless the step ends so near a shot that its strays decide whether the shot
/// falls within it.
pub proof fn lemma_partition(
    engine: &CompiledPulsedFusion,
    command: PulsedFusionCommand,
    dt_s: F64,
    next: PulsedFusionState,
    point: PulsedFusionOperatingPoint,
    lengths: Seq<F64>,
    states: Seq<PulsedFusionState>,
    points: Seq<PulsedFusionOperatingPoint>,
)
    requires
        lengths.len() > 0,
        threads(engine, command, lengths, states, points),
        smooth_step(engine, states[0], command, dt_s),
        engine.advanced(states[0], command, dt_s) == Ok::<(PulsedFusionState, PulsedFusionOperatingPoint), Fault>(
            (next, point),
        ),
        total_kept(point.pulses_fired, impulse_per_pulse(engine)),
        forall|i: int|
            #![trigger points[i]]
            0 <= i < points.len() ==> total_kept(points[i].pulses_fired, impulse_per_pulse(engine)),
        ({
            let slack = split_slack(engine, command, dt_s, lengths, states);
            slack < value(next.pulse_phase_s) && value(next.pulse_phase_s) < value(engine.pulse_interval_s) - slack
        }),
    ensures
        shots_of(points, points.len()) == point.pulses_fired,
        states.last().cumulative_shots == next.cumulative_shots,
        ({
            let slack = split_slack(engine, command, dt_s, lengths, states);
            let end = states.last();
            let power = value(command.available_charge_power_w.min(engine.maximum_charge_power_w));
            let all = times(point.pulses_fired as real, value(impulse_per_pulse(engine)));
            &&& size(value(end.pulse_phase_s) - value(next.pulse_phase_s)) <= slack
            &&& size(value(end.stored_driver_energy_j) - value(next.stored_driver_energy_j)) <= energy_slack(
                engine,
                states[0],
                command,
                dt_s,
            ) + energy_slacks(engine, command, lengths, states, lengths.len()) + times(power, slack)
            &&& size(impulse_of(points, points.len()) - value(point.impulse_ns)) <= times(all, allowance(4))
        }),
{
    let power_w = command.available_charge_power_w.min(engine.maximum_charge_power_w);
    let (t, p) = (value(engine.pulse_interval_s), value(power_w));
    let slack = split_slack(engine, command, dt_s, lengths, states);
    let count = lengths.len();
    let (end, phase) = (states.last(), phase_of(engine, states[0]));
    let (b, c) = (value(end.pulse_phase_s), value(next.pulse_phase_s));
    let (many, n) = (shots_of(points, count) as int, point.pulses_fired as int);
    lemma_figures(engine, power_w, dt_s);
    lemma_smooth_step(engine, states[0], command, dt_s, next, point);
    lemma_step_keeps_state(engine, states[0], command, dt_s, next, point);
    lemma_threaded(engine, command, lengths, states, points, count);
    assert(end == states[count as int]);
    // The clocks.
    lemma_times_difference(many as real, n as real, t);
    let gap = times(many as real - n as real, t);
    assert(size((b + gap) - c) <= slack);
    // The shots.
    if many > n {
        lemma_times_order(1 as real, many as real - n as real, t);
        lemma_times_one(t);
    }
    if many < n {
        lemma_times_order(1 as real, n as real - many as real, t);
        lemma_times_difference(n as real, many as real, t);
        lemma_times_one(t);
    }
    assert(many == n);
    lemma_times_adds(0 as real, 0 as real, t);
    // The buffer.
    lemma_chain_end(
        value(engine.buffer_capacity_j),
        value(engine.driver_energy_per_pulse_j),
        t,
        p,
        value(states[0].stored_driver_energy_j),
        phase,
        n as nat,
        b,
        c,
    );
    lemma_times_order(size(b - c), slack, p);
    lemma_times_commutes(p, size(b - c));
    // The impulse.
    lemma_impulses(engine, command, lengths, states, points, count);
    let each = impulse_per_pulse(engine);
    lemma_total(point.pulses_fired, each);
    lemma_amount(each);
    lemma_times_positive(n as real, value(each));
    lemma_allowances(times(n as real, value(each)), 2, 2);
}

/// The impulse of one pulse.
pub open spec fn impulse_per_pulse(engine: &CompiledPulsedFusion) -> F64 {
    (whole(2) * engine.jet_energy_per_pulse_j * (engine.fuel_mass_per_pulse_kg
        + engine.working_fluid_mass_per_pulse_kg)).sqrt()
}

/// The impulses of threaded steps are those of all their shots, up to rounding.
pub proof fn lemma_impulses(
    engine: &CompiledPulsedFusion,
    command: PulsedFusionCommand,
    lengths: Seq<F64>,
    states: Seq<PulsedFusionState>,
    points: Seq<PulsedFusionOperatingPoint>,
    n: nat,
)
    requires
        follow(engine, command, lengths, states, points),
        n <= lengths.len(),
        forall|i: int|
            #![trigger points[i]]
            0 <= i < points.len() ==> total_kept(points[i].pulses_fired, impulse_per_pulse(engine)),
    ensures
        ({
            let all = times(shots_of(points, n) as real, value(impulse_per_pulse(engine)));
            size(impulse_of(points, n) - all) <= times(all, allowance(2))
        }),
    decreases n,
{
    let each = impulse_per_pulse(engine);
    let i = value(each);
    lemma_allowance(2, 0);
    if n > 0 {
        let m = (n - 1) as int;
        lemma_impulses(engine, command, lengths, states, points, m as nat);
        assert(engine.advanced(states[m], command, lengths[m]) is Ok);
        lemma_total(points[m].pulses_fired, each);
        lemma_amount(each);
        let (before, now) = (shots_of(points, m as nat), points[m].pulses_fired as nat);
        lemma_times_adds(before as real, now as real, i);
        assert((before + now) as real == before as real + now as real);
        lemma_times_positive(before as real, i);
        lemma_times_positive(now as real, i);
        lemma_times_adds(times(before as real, i), times(now as real, i), allowance(2));
    } else {
        lemma_times_adds(0 as real, 0 as real, i);
        lemma_times_adds(0 as real, 0 as real, allowance(2));
    }
}

} // verus!
