//! Splitting a step of the pulsed fusion drive, where shots may wait for their charge.
use crate::error::Fault;
use crate::float::accuracy::{
    lemma_amount, lemma_normal, lemma_over, lemma_times_adds, lemma_times_associates, lemma_times_commutes,
    lemma_times_order, lemma_times_positive, lemma_times_strict, lemma_times_unique, lemma_value_order,
    lemma_zero_value, normal, over, times, value,
};
use crate::float::errors::{
    allowance, lemma_allowance, lemma_difference_close, lemma_quotient_close, lemma_size_times, lemma_sum_close,
    lemma_times_difference, lemma_within_divided, lemma_within_rounded, lemma_within_same, precise, size,
};
use crate::float::{lemma_one, zero, F64};
use crate::float::nearness::lemma_parts;
use crate::float::order::{
    lemma_add_commutes, lemma_add_not_negative, lemma_add_order, lemma_finite_difference, lemma_less, lemma_within,
};
use crate::fusion::{
    CompiledPulsedFusion, PulseEvent, PulseRun, PulseTolerance, PulsedFusionCommand, PulsedFusionOperatingPoint,
    PulsedFusionState, MAX_PULSE_EVENTS,
};
use crate::laws::cadence::lesser;
use crate::laws::ledger::{
    events_left, lemma_allowances, lemma_paid, lemma_shot_drift, lemma_sixteen_units, lemma_total, step_events,
    total_kept,
};
use crate::laws::partition::{
    energy_scale, follow, impulse_of, impulse_per_pulse, lemma_bounds, lemma_charge_to, lemma_figures, lemma_impulses,
    lemma_way_left, phase_of, shots_of, step_kept, time_of, time_scale,
};
use crate::laws::pulses::{in_bounds, lemma_event, lemma_run_on, lemma_start, lemma_step_keeps_state};
use crate::laws::timetable::{
    come_to, due, fires, greater, lemma_come_to_fires, lemma_come_to_follows, lemma_come_to_twice, lemma_due_follows,
    lemma_fires_add, lemma_fires_advance, lemma_fires_follow, lemma_near_chain, lemma_paused_follows, near_by, paused,
};
use vstd::prelude::*;

verus! {

/// In such a run each event fires a shot, up to the last, which runs out the step; a wait
/// for charge keeps full precision.
pub open spec fn fires_each(
    engine: &CompiledPulsedFusion,
    run: PulseRun,
    power_w: F64,
    tolerance: PulseTolerance,
    events: nat,
) -> bool
    decreases MAX_PULSE_EVENTS - events,
{
    if !(run.remaining_s > tolerance.time_s) {
        true
    } else if events >= MAX_PULSE_EVENTS {
        false
    } else {
        &&& run.stored_j + tolerance.energy_j >= engine.driver_energy_per_pulse_j || precise(
            (engine.driver_energy_per_pulse_j - run.stored_j) / power_w,
        )
        &&& match engine.event(run, power_w, tolerance) {
            PulseEvent::Done(_) => engine.event_wait_s(run, power_w, tolerance) > run.remaining_s,
            PulseEvent::Continue(next) => next.pulses_fired == run.pulses_fired + 1 && fires_each(
                engine,
                next,
                power_w,
                tolerance,
                events + 1,
            ),
        }
    }
}

/// A step at a charge, of which nothing is lost to underflow or overflow, and whose buffer
/// holds a shot.
pub open spec fn charge_kept(engine: &CompiledPulsedFusion, power_w: F64, dt_s: F64) -> bool {
    &&& step_kept(engine, power_w, dt_s)
    &&& normal(power_w)
    &&& (engine.pulse_interval_s + dt_s).is_finite()
    &&& engine.driver_energy_per_pulse_j <= engine.buffer_capacity_j
}

/// The energies of a step as time at its charge (s).
pub open spec fn charge_time(engine: &CompiledPulsedFusion, power_w: F64, dt_s: F64) -> real {
    over(energy_scale(engine, power_w, dt_s), value(power_w))
}

/// The course of a phase and a buffer at a time.
pub open spec fn course_at(power: real, phase: real, stored: real, time: real) -> (real, real) {
    (time - phase, stored - times(power, time))
}

/// The course of a run that ends at a time.
pub open spec fn course_of(power_w: F64, run: PulseRun, end: real) -> (real, real) {
    course_at(value(power_w), value(run.phase_s), value(run.stored_j), end - value(run.remaining_s))
}

/// When an engine's course is due.
pub open spec fn due_of(engine: &CompiledPulsedFusion, power_w: F64, course: (real, real)) -> real {
    due(value(engine.driver_energy_per_pulse_j), value(engine.pulse_interval_s), value(power_w), course)
}

/// An engine's course after some shots.
pub open spec fn fires_of(engine: &CompiledPulsedFusion, power_w: F64, course: (real, real), shots: nat) -> (real, real) {
    fires(
        value(engine.buffer_capacity_j),
        value(engine.driver_energy_per_pulse_j),
        value(engine.pulse_interval_s),
        value(power_w),
        course,
        shots,
    )
}

/// An engine's course at a time, but no later than its next shot.
pub open spec fn paused_of(engine: &CompiledPulsedFusion, power_w: F64, course: (real, real), time: real) -> (
    real,
    real,
) {
    paused(
        value(engine.buffer_capacity_j),
        value(engine.driver_energy_per_pulse_j),
        value(engine.pulse_interval_s),
        value(power_w),
        course,
        time,
    )
}

/// What the energies of a step bound, as time.
proof fn lemma_charge_time(engine: &CompiledPulsedFusion, power_w: F64, dt_s: F64)
    requires
        charge_kept(engine, power_w, dt_s),
    ensures
        ({
            let (unit, p) = (charge_time(engine, power_w, dt_s), value(power_w));
            &&& p > (0 as real)
            &&& times(p, unit) == energy_scale(engine, power_w, dt_s)
            &&& time_scale(engine, dt_s) <= unit
            &&& over(value(engine.driver_energy_per_pulse_j), p) <= unit
            &&& value(engine.pulse_interval_s) <= unit
            &&& (0 as real) <= value(engine.pulse_interval_s)
            &&& (0 as real) < value(engine.driver_energy_per_pulse_j)
            &&& (0 as real) < over(value(engine.driver_energy_per_pulse_j), p)
            &&& (0 as real) < unit
        }),
{
    let (scale, span) = (energy_scale(engine, power_w, dt_s), time_scale(engine, dt_s));
    let (p, d) = (value(power_w), value(engine.driver_energy_per_pulse_j));
    lemma_figures(engine, power_w, dt_s);
    lemma_normal(power_w);
    let unit = over(scale, p);
    lemma_over(scale, p);
    lemma_over(d, p);
    lemma_times_commutes(unit, p);
    lemma_times_commutes(span, p);
    if span > unit {
        lemma_times_strict(unit, span, p);
    }
    if over(d, p) > unit {
        lemma_times_strict(unit, over(d, p), p);
    }
}

/// An event waits until its shot is both due and paid for, up to rounding.
proof fn lemma_wait(engine: &CompiledPulsedFusion, run: PulseRun, power_w: F64, dt_s: F64)
    requires
        charge_kept(engine, power_w, dt_s),
        in_bounds(engine, run),
        run.stored_j + engine.tolerance(dt_s).energy_j >= engine.driver_energy_per_pulse_j || precise(
            (engine.driver_energy_per_pulse_j - run.stored_j) / power_w,
        ),
    ensures
        ({
            let wait = engine.event_wait_s(run, power_w, engine.tolerance(dt_s));
            let exact = greater(
                value(engine.pulse_interval_s) - value(run.phase_s),
                over(value(engine.driver_energy_per_pulse_j) - value(run.stored_j), value(power_w)),
            );
            &&& wait.is_finite() && zero() <= wait
            &&& size(value(wait) - exact) <= times(charge_time(engine, power_w, dt_s), allowance(70))
        }),
{
    let tolerance = engine.tolerance(dt_s);
    let driver = engine.driver_energy_per_pulse_j;
    let way = engine.pulse_interval_s - run.phase_s;
    let wait = engine.event_wait_s(run, power_w, tolerance);
    let unit = charge_time(engine, power_w, dt_s);
    let (t, d, s, p) = (
        value(engine.pulse_interval_s),
        value(driver),
        value(run.stored_j),
        value(power_w),
    );
    let (rest, lack) = (t - value(run.phase_s), over(d - s, p));
    let one = over(d, p);
    lemma_one();
    lemma_zero_value();
    lemma_parts(zero());
    lemma_charge_time(engine, power_w, dt_s);
    lemma_normal(driver);
    lemma_normal(power_w);
    lemma_parts(driver);
    lemma_parts(power_w);
    lemma_parts(run.stored_j);
    lemma_bounds(engine, run);
    lemma_way_left(engine, run);
    lemma_parts(way);
    lemma_value_order(zero(), way);
    lemma_sixteen_units(driver);
    lemma_allowance(2, 68);
    lemma_allowance(68, 0);
    lemma_allowance(8, 68);
    lemma_times_order(t, unit, allowance(2));
    lemma_times_order(one, unit, allowance(68));
    lemma_times_order(one, unit, allowance(8));
    lemma_allowances(unit, 2, 68);
    lemma_times_positive(t, allowance(2));
    lemma_times_positive(one, allowance(68));
    lemma_times_positive(unit, allowance(2));
    lemma_times_positive(unit, allowance(68));
    lemma_times_order(allowance(8), allowance(68), unit);
    if run.stored_j + tolerance.energy_j >= driver {
        lemma_paid(run.stored_j, driver, tolerance.energy_j);
        assert(wait.units() == way.units());
        lemma_value_order(wait, way);
        lemma_value_order(way, wait);
        lemma_parts(wait);
        // What is lacking takes no longer than the tolerance of a shot.
        lemma_over(d - s, p);
        lemma_over(d, p);
        let least_lack = times(one, allowance(68));
        lemma_times_associates(one, allowance(68), p);
        lemma_times_commutes(allowance(68), p);
        lemma_times_associates(one, p, allowance(68));
        if lack > least_lack {
            lemma_times_strict(least_lack, lack, p);
        }
    } else {
        let dif = driver - run.stored_j;
        let charge = dif / power_w;
        lemma_normal(tolerance.energy_j);
        lemma_parts(tolerance.energy_j);
        lemma_add_not_negative(run.stored_j, tolerance.energy_j);
        lemma_parts(run.stored_j + tolerance.energy_j);
        assert(run.stored_j <= driver);
        lemma_value_order(run.stored_j, driver);
        lemma_finite_difference(driver, run.stored_j);
        lemma_parts(dif);
        lemma_difference_close(driver, run.stored_j);
        lemma_within_same(d - s, d);
        lemma_within_rounded(value(dif), d - s, d - s, d, 0);
        lemma_within_divided(value(dif), d - s, d, 4, p);
        lemma_quotient_close(dif, power_w);
        lemma_within_rounded(value(charge), over(value(dif), p), lack, one, 4);
        lemma_parts(charge);
        lemma_value_order(way, charge);
        lemma_value_order(charge, way);
        lemma_value_order(wait, way);
        lemma_value_order(wait, charge);
        assert(wait == way || wait == charge || wait.units() == way.units());
        lemma_value_order(way, wait);
        lemma_value_order(charge, wait);
        lemma_parts(wait);
        assert(wait.is_finite());
        assert(value(wait) == greater(value(way), value(charge)));
    }
}

/// A course is due after its wait.
proof fn lemma_due_at(driver: real, interval: real, power: real, phase: real, stored: real, time: real)
    requires
        power > (0 as real),
    ensures
        due(driver, interval, power, course_at(power, phase, stored, time)) == time + greater(
            interval - phase,
            over(driver - stored, power),
        ),
{
    let (x, y) = (over(driver - stored, power), over(driver - (stored - times(power, time)), power));
    lemma_over(driver - stored, power);
    lemma_over(driver - (stored - times(power, time)), power);
    lemma_times_adds(x, time, power);
    lemma_times_commutes(time, power);
    lemma_times_unique(y, x + time, power);
}

/// By how much one event may stray (s).
pub open spec fn event_slack(engine: &CompiledPulsedFusion, power_w: F64, dt_s: F64) -> real {
    times(charge_time(engine, power_w, dt_s), allowance(256))
}

/// Roundings of the charge time, at the charge, are roundings of the energies.
proof fn lemma_slack_charge(engine: &CompiledPulsedFusion, power_w: F64, dt_s: F64, k: nat)
    requires
        charge_kept(engine, power_w, dt_s),
    ensures
        times(value(power_w), times(charge_time(engine, power_w, dt_s), allowance(k))) == times(
            energy_scale(engine, power_w, dt_s),
            allowance(k),
        ),
{
    lemma_charge_time(engine, power_w, dt_s);
    lemma_times_associates(value(power_w), charge_time(engine, power_w, dt_s), allowance(k));
}

/// A shot takes a run to where its course fires, up to rounding.
proof fn lemma_fired(
    engine: &CompiledPulsedFusion,
    run: PulseRun,
    power_w: F64,
    dt_s: F64,
    next: PulseRun,
    end: real,
)
    requires
        charge_kept(engine, power_w, dt_s),
        in_bounds(engine, run),
        run.pulses_fired < MAX_PULSE_EVENTS,
        run.remaining_s <= dt_s,
        run.stored_j + engine.tolerance(dt_s).energy_j >= engine.driver_energy_per_pulse_j || precise(
            (engine.driver_energy_per_pulse_j - run.stored_j) / power_w,
        ),
        engine.event(run, power_w, engine.tolerance(dt_s)) == PulseEvent::Continue(next),
        next.pulses_fired == run.pulses_fired + 1,
    ensures
        in_bounds(engine, next),
        next.remaining_s <= run.remaining_s,
        near_by(
            value(power_w),
            course_of(power_w, next, end),
            fires_of(engine, power_w, course_of(power_w, run, end), 1),
            event_slack(engine, power_w, dt_s),
        ),
{
    let tolerance = engine.tolerance(dt_s);
    let driver = engine.driver_energy_per_pulse_j;
    let wait = engine.event_wait_s(run, power_w, tolerance);
    let (c, d, t, p, s, phase, r, w) = (
        value(engine.buffer_capacity_j),
        value(driver),
        value(engine.pulse_interval_s),
        value(power_w),
        value(run.stored_j),
        value(run.phase_s),
        value(run.remaining_s),
        value(wait),
    );
    let (span, scale, unit) = (
        time_scale(engine, dt_s),
        energy_scale(engine, power_w, dt_s),
        charge_time(engine, power_w, dt_s),
    );
    let exact = greater(t - phase, over(d - s, p));
    let now = end - r;
    lemma_one();
    lemma_zero_value();
    lemma_figures(engine, power_w, dt_s);
    lemma_charge_time(engine, power_w, dt_s);
    lemma_event(engine, run, power_w, tolerance);
    lemma_wait(engine, run, power_w, dt_s);
    lemma_parts(wait);
    lemma_parts(run.remaining_s);
    lemma_parts(dt_s);
    assert(wait <= run.remaining_s);
    // The time.
    lemma_value_order(wait, run.remaining_s);
    lemma_value_order(wait, wait);
    lemma_value_order(run.remaining_s, dt_s);
    lemma_finite_difference(run.remaining_s, wait);
    lemma_less(run.remaining_s, wait);
    lemma_difference_close(run.remaining_s, wait);
    lemma_allowance(2, 70);
    lemma_times_order(size(r - w), unit, allowance(2));
    lemma_allowances(unit, 2, 70);
    let left = value(next.remaining_s);
    assert(size((end - left) - (now + exact)) <= times(unit, allowance(72)));
    // The buffer.
    lemma_times_positive(span, allowance(0));
    lemma_allowance(0, 0);
    lemma_charge_to(engine, run, power_w, dt_s, wait, w, 0);
    lemma_sixteen_units(driver);
    let charged = engine.charge(run, power_w, wait).stored_j;
    lemma_shot_drift(charged, driver, tolerance.energy_j, scale);
    lemma_allowances(scale, 9, 72);
    let full = lesser(c, s + times(p, w)) - d;
    assert(size(value(next.stored_j) - full) <= times(scale, allowance(81)));
    // Against the course.
    let course = course_of(power_w, run, end);
    lemma_due_at(d, t, p, phase, s, now);
    let when = now + exact;
    lemma_charge_apart(p, w, exact);
    lemma_charge_apart(p, end - left, when);
    lemma_charge_apart(p, size(w - exact), times(unit, allowance(70)));
    lemma_charge_apart(p, size((end - left) - when), times(unit, allowance(72)));
    lemma_slack_charge(engine, power_w, dt_s, 70);
    lemma_slack_charge(engine, power_w, dt_s, 72);
    lemma_slack_charge(engine, power_w, dt_s, 256);
    lemma_times_adds(now, exact, p);
    lemma_times_commutes(now, p);
    lemma_times_commutes(exact, p);
    lemma_times_commutes(when, p);
    lemma_allowances(scale, 81, 70);
    lemma_allowances(scale, 151, 72);
    lemma_allowance(223, 256);
    lemma_allowance(72, 256);
    lemma_times_order(allowance(223), allowance(256), scale);
    lemma_times_order(allowance(72), allowance(256), unit);
    assert(fires_of(engine, power_w, course, 1) == (when, lesser(c - times(p, when), s - times(p, now)) - d)) by {
        reveal_with_fuel(fires, 2);
    }
}

/// Charges differ as their times do.
proof fn lemma_charge_apart(power: real, a: real, b: real)
    requires
        power > (0 as real),
    ensures
        size(times(power, a) - times(power, b)) == times(power, size(a - b)),
        a <= b ==> times(power, a) <= times(power, b),
{
    lemma_times_commutes(power, a);
    lemma_times_commutes(power, b);
    lemma_times_difference(a, b, power);
    lemma_size_times(a - b, power);
    lemma_times_commutes(power, size(a - b));
    if a <= b {
        lemma_times_order(a, b, power);
    }
}

/// The last event takes a run to where its course comes to, up to rounding, before its
/// next shot.
proof fn lemma_runs_out(
    engine: &CompiledPulsedFusion,
    run: PulseRun,
    power_w: F64,
    dt_s: F64,
    last: PulseRun,
    end: real,
)
    requires
        charge_kept(engine, power_w, dt_s),
        in_bounds(engine, run),
        run.pulses_fired < MAX_PULSE_EVENTS,
        run.remaining_s <= dt_s,
        run.stored_j + engine.tolerance(dt_s).energy_j >= engine.driver_energy_per_pulse_j || precise(
            (engine.driver_energy_per_pulse_j - run.stored_j) / power_w,
        ),
        engine.event(run, power_w, engine.tolerance(dt_s)) == PulseEvent::Done(last),
        engine.event_wait_s(run, power_w, engine.tolerance(dt_s)) > run.remaining_s,
    ensures
        last.pulses_fired == run.pulses_fired,
        near_by(
            value(power_w),
            course_at(value(power_w), value(last.phase_s), value(last.stored_j), end),
            paused_of(engine, power_w, course_of(power_w, run, end), end),
            event_slack(engine, power_w, dt_s),
        ),
        due_of(engine, power_w, course_of(power_w, run, end)) >= end - event_slack(engine, power_w, dt_s),
{
    let tolerance = engine.tolerance(dt_s);
    let interval = engine.pulse_interval_s;
    let wait = engine.event_wait_s(run, power_w, tolerance);
    let sum = run.phase_s + run.remaining_s;
    let (c, d, t, p, s, phase, r, w) = (
        value(engine.buffer_capacity_j),
        value(engine.driver_energy_per_pulse_j),
        value(interval),
        value(power_w),
        value(run.stored_j),
        value(run.phase_s),
        value(run.remaining_s),
        value(wait),
    );
    let (span, scale, unit) = (
        time_scale(engine, dt_s),
        energy_scale(engine, power_w, dt_s),
        charge_time(engine, power_w, dt_s),
    );
    let exact = greater(t - phase, over(d - s, p));
    let now = end - r;
    lemma_one();
    lemma_figures(engine, power_w, dt_s);
    lemma_charge_time(engine, power_w, dt_s);
    lemma_event(engine, run, power_w, tolerance);
    lemma_wait(engine, run, power_w, dt_s);
    lemma_bounds(engine, run);
    lemma_parts(wait);
    lemma_parts(run.remaining_s);
    lemma_parts(run.phase_s);
    lemma_parts(interval);
    lemma_parts(dt_s);
    lemma_value_order(run.remaining_s, wait);
    lemma_value_order(run.remaining_s, dt_s);
    // The phase.
    lemma_sum_within(run.phase_s, run.remaining_s, interval, dt_s);
    lemma_parts(sum);
    lemma_sum_close(run.phase_s, run.remaining_s);
    lemma_value_order(sum, interval);
    lemma_value_order(interval, sum);
    lemma_value_order(last.phase_s, sum);
    lemma_value_order(sum, last.phase_s);
    lemma_value_order(last.phase_s, interval);
    lemma_value_order(interval, last.phase_s);
    lemma_allowance(2, 70);
    lemma_times_order(size(phase + r), unit, allowance(2));
    let reached = value(last.phase_s);
    assert(size(reached - lesser(t, phase + r)) <= times(unit, allowance(2)));
    // The buffer.
    lemma_allowance(0, 0);
    lemma_times_positive(span, allowance(0));
    lemma_charge_to(engine, run, power_w, dt_s, run.remaining_s, r, 0);
    // Against the course.
    let course = course_of(power_w, run, end);
    lemma_due_at(d, t, p, phase, s, now);
    lemma_times_adds(now, r, p);
    lemma_times_commutes(now, p);
    lemma_times_commutes(r, p);
    lemma_times_commutes(end, p);
    let there = come_to(c, t, p, course, end);
    let got = course_at(p, reached, value(last.stored_j), end);
    lemma_slack_charge(engine, power_w, dt_s, 9);
    lemma_slack_charge(engine, power_w, dt_s, 70);
    lemma_allowance(2, 9);
    lemma_times_order(allowance(2), allowance(9), unit);
    assert(near_by(p, got, there, times(unit, allowance(9))));
    // No later than its next shot.
    let stop = lesser(end, due_of(engine, power_w, course));
    assert(size(end - stop) <= times(unit, allowance(70)));
    lemma_allowance(70, 0);
    lemma_times_positive(unit, allowance(70));
    lemma_times_positive(scale, allowance(70));
    lemma_come_to_follows(c, t, p, course, course, end, stop, times(unit, allowance(70)));
    lemma_near_chain(
        p,
        got,
        there,
        come_to(c, t, p, course, stop),
        times(unit, allowance(9)),
        times(unit, allowance(70)),
    );
    lemma_allowances(unit, 9, 70);
    lemma_allowance(79, 256);
    lemma_times_order(allowance(79), allowance(256), unit);
    lemma_allowance(70, 256);
    lemma_times_order(allowance(70), allowance(256), unit);
    lemma_charge_apart(p, times(unit, allowance(79)), times(unit, allowance(256)));
}

/// A sum of parts of two numbers whose sum is finite.
proof fn lemma_sum_within(a: F64, b: F64, most_a: F64, most_b: F64)
    requires
        zero() <= a,
        zero() <= b,
        a <= most_a,
        b <= most_b,
        most_a.is_finite(),
        most_b.is_finite(),
        (most_a + most_b).is_finite(),
    ensures
        (a + b).is_finite(),
        a.is_finite(),
        b.is_finite(),
{
    lemma_one();
    lemma_within(a, most_a);
    lemma_within(b, most_b);
    lemma_parts(a);
    lemma_parts(b);
    lemma_parts(most_a);
    lemma_parts(most_b);
    lemma_parts(most_a + most_b);
    lemma_add_not_negative(a, b);
    lemma_add_not_negative(most_a, b);
    lemma_parts(a + b);
    lemma_parts(most_a + b);
    lemma_add_order(a, most_a, b);
    lemma_add_commutes(most_a, b);
    lemma_add_commutes(most_a, most_b);
    lemma_add_order(b, most_b, most_a);
    lemma_within(a + b, most_a + most_b);
}

/// A run with no time left is where its course comes to, up to the tolerance.
proof fn lemma_stopped(engine: &CompiledPulsedFusion, run: PulseRun, power_w: F64, dt_s: F64, end: real)
    requires
        charge_kept(engine, power_w, dt_s),
        in_bounds(engine, run),
        !(run.remaining_s > engine.tolerance(dt_s).time_s),
    ensures
        near_by(
            value(power_w),
            course_at(value(power_w), value(run.phase_s), value(run.stored_j), end),
            paused_of(engine, power_w, course_of(power_w, run, end), end),
            event_slack(engine, power_w, dt_s),
        ),
        due_of(engine, power_w, course_of(power_w, run, end)) >= end - event_slack(engine, power_w, dt_s),
{
    let tolerance = engine.tolerance(dt_s);
    let (c, d, t, p, s, phase, r) = (
        value(engine.buffer_capacity_j),
        value(engine.driver_energy_per_pulse_j),
        value(engine.pulse_interval_s),
        value(power_w),
        value(run.stored_j),
        value(run.phase_s),
        value(run.remaining_s),
    );
    let unit = charge_time(engine, power_w, dt_s);
    let now = end - r;
    let course = course_of(power_w, run, end);
    lemma_one();
    lemma_figures(engine, power_w, dt_s);
    lemma_charge_time(engine, power_w, dt_s);
    lemma_bounds(engine, run);
    lemma_sixteen_units(dt_s);
    lemma_parts(tolerance.time_s);
    lemma_normal(tolerance.time_s);
    lemma_parts(run.remaining_s);
    lemma_value_order(run.remaining_s, tolerance.time_s);
    lemma_allowance(64, 0);
    lemma_times_order(value(dt_s), unit, allowance(64));
    let most = times(unit, allowance(64));
    assert(r <= most);
    lemma_due_at(d, t, p, phase, s, now);
    lemma_over(d - s, p);
    let stop = lesser(end, due_of(engine, power_w, course));
    assert(now <= stop <= end);
    lemma_charge_apart(p, now, stop);
    lemma_charge_apart(p, stop, end);
    lemma_charge_apart(p, now, end);
    lemma_charge_apart(p, size(now - end), most);
    lemma_allowance(64, 256);
    lemma_times_order(allowance(64), allowance(256), unit);
    lemma_charge_apart(p, most, times(unit, allowance(256)));
}

/// A run follows its course.
proof fn lemma_run_course(
    engine: &CompiledPulsedFusion,
    run: PulseRun,
    power_w: F64,
    dt_s: F64,
    events: nat,
    last: PulseRun,
    end: real,
)
    requires
        charge_kept(engine, power_w, dt_s),
        in_bounds(engine, run),
        run.pulses_fired <= events,
        events <= MAX_PULSE_EVENTS,
        run.remaining_s <= dt_s,
        fires_each(engine, run, power_w, engine.tolerance(dt_s), events),
        engine.run_on(run, power_w, engine.tolerance(dt_s), events) == Ok::<PulseRun, Fault>(last),
    ensures
        ({
            let count = events_left(engine, run, power_w, engine.tolerance(dt_s), events);
            let slack = times(charge_time(engine, power_w, dt_s), allowance(256 * count + 256));
            let after = fires_of(
                engine,
                power_w,
                course_of(power_w, run, end),
                (last.pulses_fired - run.pulses_fired) as nat,
            );
            &&& run.pulses_fired <= last.pulses_fired
            &&& near_by(
                value(power_w),
                course_at(value(power_w), value(last.phase_s), value(last.stored_j), end),
                paused_of(engine, power_w, after, end),
                slack,
            )
            &&& due_of(engine, power_w, after) >= end - slack
        }),
    decreases MAX_PULSE_EVENTS - events,
{
    let tolerance = engine.tolerance(dt_s);
    let unit = charge_time(engine, power_w, dt_s);
    let (c, d, t, p) = (
        value(engine.buffer_capacity_j),
        value(engine.driver_energy_per_pulse_j),
        value(engine.pulse_interval_s),
        value(power_w),
    );
    lemma_charge_time(engine, power_w, dt_s);
    lemma_run_on(engine, run, power_w, tolerance, events);
    if run.remaining_s > tolerance.time_s && events < MAX_PULSE_EVENTS {
        match engine.event(run, power_w, tolerance) {
            PulseEvent::Done(after) => {
                lemma_runs_out(engine, run, power_w, dt_s, after, end);
                lemma_allowance(256, 512);
                lemma_times_order(allowance(256), allowance(512), unit);
                lemma_charge_apart(p, times(unit, allowance(256)), times(unit, allowance(512)));
            },
            PulseEvent::Continue(next) => {
                lemma_fired(engine, run, power_w, dt_s, next, end);
                lemma_parts(run.remaining_s);
                lemma_run_course(engine, next, power_w, dt_s, events + 1, last, end);
                lemma_run_on(engine, next, power_w, tolerance, events + 1);
                let more = events_left(engine, next, power_w, tolerance, events + 1);
                let shots = (last.pulses_fired - next.pulses_fired) as nat;
                let (from, to) = (course_of(power_w, run, end), course_of(power_w, next, end));
                let fired = fires_of(engine, power_w, from, 1);
                let slack = times(unit, allowance(256));
                lemma_fires_follow(c, d, t, p, to, fired, shots, slack);
                lemma_fires_add(c, d, t, p, from, 1, shots);
                let (near, exact) = (fires_of(engine, power_w, to, shots), fires_of(engine, power_w, from, shots + 1));
                lemma_allowance(256, 0);
                lemma_times_positive(unit, allowance(256));
                lemma_paused_follows(c, d, t, p, near, exact, end, end, slack);
                lemma_due_follows(d, t, p, near, exact, slack);
                lemma_near_chain(
                    p,
                    course_at(p, value(last.phase_s), value(last.stored_j), end),
                    paused_of(engine, power_w, near, end),
                    paused_of(engine, power_w, exact, end),
                    times(unit, allowance(256 * more + 256)),
                    slack,
                );
                lemma_allowances(unit, 256 * more + 256, 256);
                assert(256 * more + 256 + 256 == 256 * (1 + more) + 256);
            },
        }
    } else {
        lemma_stopped(engine, run, power_w, dt_s, end);
    }
}

/// A step of which nothing is lost, and each of whose events fires.
pub open spec fn charging_step(
    engine: &CompiledPulsedFusion,
    state: PulsedFusionState,
    command: PulsedFusionCommand,
    dt_s: F64,
) -> bool {
    let power_w = command.available_charge_power_w.min(engine.maximum_charge_power_w);
    &&& command.armed
    &&& charge_kept(engine, power_w, dt_s)
    &&& fires_each(engine, engine.run_start(state, dt_s), power_w, engine.tolerance(dt_s), 0)
}

/// By how much such a step may stray from its course (s).
pub open spec fn course_slack(
    engine: &CompiledPulsedFusion,
    state: PulsedFusionState,
    command: PulsedFusionCommand,
    dt_s: F64,
) -> real {
    let power_w = command.available_charge_power_w.min(engine.maximum_charge_power_w);
    times(
        charge_time(engine, power_w, dt_s),
        allowance(256 * step_events(engine, state, command, dt_s) + 256),
    )
}

/// The course of a state at a time.
pub open spec fn course_from(
    engine: &CompiledPulsedFusion,
    command: PulsedFusionCommand,
    state: PulsedFusionState,
    time: real,
) -> (real, real) {
    let power_w = command.available_charge_power_w.min(engine.maximum_charge_power_w);
    course_at(value(power_w), phase_of(engine, state), value(state.stored_driver_energy_j), time)
}

/// A step follows its course: where it comes to is where the exact timetable comes to
/// after as many shots, no later than the next, which is not overdue; all up to rounding.
pub proof fn lemma_charging_step(
    engine: &CompiledPulsedFusion,
    state: PulsedFusionState,
    command: PulsedFusionCommand,
    dt_s: F64,
    next: PulsedFusionState,
    point: PulsedFusionOperatingPoint,
    start: real,
)
    requires
        charging_step(engine, state, command, dt_s),
        engine.advanced(state, command, dt_s) == Ok::<(PulsedFusionState, PulsedFusionOperatingPoint), Fault>(
            (next, point),
        ),
    ensures
        ({
            let power_w = command.available_charge_power_w.min(engine.maximum_charge_power_w);
            let slack = course_slack(engine, state, command, dt_s);
            let end = start + value(dt_s);
            let after = fires_of(
                engine,
                power_w,
                course_from(engine, command, state, start),
                point.pulses_fired as nat,
            );
            &&& near_by(
                value(power_w),
                course_from(engine, command, next, end),
                paused_of(engine, power_w, after, end),
                slack,
            )
            &&& due_of(engine, power_w, after) >= end - slack
            &&& (0 as real) <= phase_of(engine, next) <= value(engine.pulse_interval_s)
            &&& phase_of(engine, next) == value(next.pulse_phase_s)
            &&& slack >= (0 as real)
        }),
{
    let power_w = command.available_charge_power_w.min(engine.maximum_charge_power_w);
    let run = engine.run_start(state, dt_s);
    let last = engine.run(state, command, dt_s)->Ok_0;
    lemma_one();
    lemma_start(engine, state, command, dt_s);
    lemma_step_keeps_state(engine, state, command, dt_s, next, point);
    lemma_parts(dt_s);
    lemma_parts(next.pulse_phase_s);
    lemma_run_on(engine, run, power_w, engine.tolerance(dt_s), 0);
    lemma_bounds(engine, last);
    lemma_run_course(engine, run, power_w, dt_s, 0, last, start + value(dt_s));
    lemma_charge_time(engine, power_w, dt_s);
    lemma_allowance(256 * step_events(engine, state, command, dt_s) + 256, 0);
    lemma_times_positive(
        charge_time(engine, power_w, dt_s),
        allowance(256 * step_events(engine, state, command, dt_s) + 256),
    );
}

/// Charging steps that follow each other.
pub open spec fn charging(
    engine: &CompiledPulsedFusion,
    command: PulsedFusionCommand,
    lengths: Seq<F64>,
    states: Seq<PulsedFusionState>,
    points: Seq<PulsedFusionOperatingPoint>,
) -> bool {
    &&& follow(engine, command, lengths, states, points)
    &&& forall|i: int|
        #![trigger lengths[i]]
        0 <= i < lengths.len() ==> charging_step(engine, states[i], command, lengths[i])
}

/// By how much the first `n` steps may stray together (s).
pub open spec fn course_slacks(
    engine: &CompiledPulsedFusion,
    command: PulsedFusionCommand,
    lengths: Seq<F64>,
    states: Seq<PulsedFusionState>,
    n: nat,
) -> real
    decreases n,
{
    if n == 0 {
        0 as real
    } else {
        course_slacks(engine, command, lengths, states, (n - 1) as nat) + course_slack(
            engine,
            states[n - 1],
            command,
            lengths[n - 1],
        )
    }
}

/// Steps that follow each other follow the course of the first.
proof fn lemma_charging(
    engine: &CompiledPulsedFusion,
    command: PulsedFusionCommand,
    lengths: Seq<F64>,
    states: Seq<PulsedFusionState>,
    points: Seq<PulsedFusionOperatingPoint>,
    n: nat,
)
    requires
        charging(engine, command, lengths, states, points),
        1 <= n <= lengths.len(),
    ensures
        ({
            let power_w = command.available_charge_power_w.min(engine.maximum_charge_power_w);
            let slack = course_slacks(engine, command, lengths, states, n);
            let end = time_of(lengths, n);
            let after = fires_of(
                engine,
                power_w,
                course_from(engine, command, states[0], 0 as real),
                shots_of(points, n),
            );
            let state = states[n as int];
            &&& near_by(
                value(power_w),
                course_from(engine, command, state, end),
                paused_of(engine, power_w, after, end),
                slack,
            )
            &&& due_of(engine, power_w, after) >= end - slack
            &&& (0 as real) <= phase_of(engine, state) <= value(engine.pulse_interval_s)
            &&& phase_of(engine, state) == value(state.pulse_phase_s)
            &&& slack >= (0 as real)
            &&& state.cumulative_shots == states[0].cumulative_shots + shots_of(points, n)
        }),
    decreases n,
{
    let power_w = command.available_charge_power_w.min(engine.maximum_charge_power_w);
    let m = (n - 1) as int;
    let (from, to, point, length) = (states[m], states[m + 1], points[m], lengths[m]);
    let (start, end) = (time_of(lengths, m as nat), time_of(lengths, n));
    let own = course_slack(engine, from, command, length);
    assert(charging_step(engine, from, command, length));
    lemma_charging_step(engine, from, command, length, to, point, start);
    lemma_step_keeps_state(engine, from, command, length, to, point);
    assert(shots_of(points, n) == shots_of(points, m as nat) + point.pulses_fired as nat);
    assert(end == start + value(length));
    if m > 0 {
        lemma_charging(engine, command, lengths, states, points, m as nat);
        lemma_charge_time(engine, power_w, length);
        let (c, d, t, p) = (
            value(engine.buffer_capacity_j),
            value(engine.driver_energy_per_pulse_j),
            value(engine.pulse_interval_s),
            value(power_w),
        );
        lemma_parts(engine.driver_energy_per_pulse_j);
        lemma_value_order(engine.driver_energy_per_pulse_j, engine.buffer_capacity_j);
        let slack = course_slacks(engine, command, lengths, states, m as nat);
        let origin = course_from(engine, command, states[0], 0 as real);
        let (before, now) = (shots_of(points, m as nat), point.pulses_fired as nat);
        let reached = fires_of(engine, power_w, origin, before);
        let stop = lesser(start, due_of(engine, power_w, reached));
        let held = come_to(c, t, p, reached, stop);
        let here = course_from(engine, command, from, start);
        assert(near_by(p, here, held, slack));
        lemma_come_to_fires(c, d, t, p, reached, stop);
        let (near, exact) = (fires_of(engine, power_w, here, now), fires_of(engine, power_w, held, now));
        lemma_fires_follow(c, d, t, p, here, held, now, slack);
        lemma_paused_follows(c, d, t, p, near, exact, end, end, slack);
        lemma_due_follows(d, t, p, near, exact, slack);
        lemma_near_chain(
            p,
            course_from(engine, command, to, end),
            paused_of(engine, power_w, near, end),
            paused_of(engine, power_w, exact, end),
            own,
            slack,
        );
        lemma_fires_add(c, d, t, p, origin, before, now);
        let after = fires_of(engine, power_w, origin, before + now);
        if now > 0 {
            assert(exact == after);
        } else {
            lemma_normal(length);
            let later = lesser(end, due_of(engine, power_w, reached));
            lemma_come_to_twice(c, t, p, reached, stop, later);
            assert(paused_of(engine, power_w, exact, end) == paused_of(engine, power_w, after, end));
        }
    } else {
        assert(time_of(lengths, 0) == (0 as real) && shots_of(points, 0) == 0);
        assert(course_slacks(engine, command, lengths, states, 0) == (0 as real));
    }
}

/// By how much steps that follow each other may stray from one step (s).
pub open spec fn charging_slack(
    engine: &CompiledPulsedFusion,
    command: PulsedFusionCommand,
    dt_s: F64,
    lengths: Seq<F64>,
    states: Seq<PulsedFusionState>,
) -> real {
    course_slack(engine, states[0], command, dt_s) + course_slacks(engine, command, lengths, states, lengths.len()) + size(
        value(dt_s) - time_of(lengths, lengths.len()),
    ) + size(value(dt_s) - time_of(lengths, lengths.len()))
}

/// A state that has neither just fired nor is about to: its last shot, if it fired one,
/// lies further back than `slack`, and its next is further ahead, for want of time or of
/// charge.
pub open spec fn clear_of_shots(
    engine: &CompiledPulsedFusion,
    power: real,
    state: PulsedFusionState,
    slack: real,
) -> bool {
    &&& slack < value(state.pulse_phase_s)
    &&& value(state.pulse_phase_s) < value(engine.pulse_interval_s) - slack || value(state.stored_driver_energy_j)
        < value(engine.driver_energy_per_pulse_j) - times(power, slack)
}

/// Splitting a step changes nothing but roundings, also where shots wait for their charge.
/// A step, and steps that follow each other for together its length, fire the same shots,
/// deliver the same impulse up to rounding, and come to the same phase and buffer up to
/// what they may stray, unless the step ends so near a shot that its strays decide whether
/// the shot falls within it.
pub proof fn lemma_charging_partition(
    engine: &CompiledPulsedFusion,
    command: PulsedFusionCommand,
    dt_s: F64,
    next: PulsedFusionState,
    point: PulsedFusionOperatingPoint,
    lengths: Seq<F64>,
    states: Seq<PulsedFusionState>,
    points: Seq<PulsedFusionOperatingPoint>,
)
    requires
        lengths.len() > 0,
        charging(engine, command, lengths, states, points),
        charging_step(engine, states[0], command, dt_s),
        engine.advanced(states[0], command, dt_s) == Ok::<(PulsedFusionState, PulsedFusionOperatingPoint), Fault>(
            (next, point),
        ),
        total_kept(point.pulses_fired, impulse_per_pulse(engine)),
        forall|i: int|
            #![trigger points[i]]
            0 <= i < points.len() ==> total_kept(points[i].pulses_fired, impulse_per_pulse(engine)),
        clear_of_shots(
            engine,
            value(command.available_charge_power_w.min(engine.maximum_charge_power_w)),
            next,
            charging_slack(engine, command, dt_s, lengths, states),
        ),
    ensures
        shots_of(points, points.len()) == point.pulses_fired,
        states.last().cumulative_shots == next.cumulative_shots,
        ({
            let slack = charging_slack(engine, command, dt_s, lengths, states);
            let end = states.last();
            let power = value(command.available_charge_power_w.min(engine.maximum_charge_power_w));
            let all = times(point.pulses_fired as real, value(impulse_per_pulse(engine)));
            &&& size(value(end.pulse_phase_s) - value(next.pulse_phase_s)) <= slack
            &&& size(value(end.stored_driver_energy_j) - value(next.stored_driver_energy_j)) <= times(power, slack)
            &&& size(impulse_of(points, points.len()) - value(point.impulse_ns)) <= times(all, allowance(4))
        }),
{
    let power_w = command.available_charge_power_w.min(engine.maximum_charge_power_w);
    let (c, d, t, p) = (
        value(engine.buffer_capacity_j),
        value(engine.driver_energy_per_pulse_j),
        value(engine.pulse_interval_s),
        value(power_w),
    );
    let count = lengths.len();
    let end = states.last();
    let (whole, parts) = (value(dt_s), time_of(lengths, count));
    let gap = size(whole - parts);
    let (own, sum) = (
        course_slack(engine, states[0], command, dt_s),
        course_slacks(engine, command, lengths, states, count),
    );
    let slack = charging_slack(engine, command, dt_s, lengths, states);
    let origin = course_from(engine, command, states[0], 0 as real);
    let (n, many) = (point.pulses_fired as nat, shots_of(points, count));
    let (one, other) = (fires_of(engine, power_w, origin, n), fires_of(engine, power_w, origin, many));
    lemma_charge_time(engine, power_w, dt_s);
    lemma_charging_step(engine, states[0], command, dt_s, next, point, 0 as real);
    lemma_step_keeps_state(engine, states[0], command, dt_s, next, point);
    lemma_charging(engine, command, lengths, states, points, count);
    assert(end == states[count as int]);
    let (a, b) = (course_from(engine, command, next, whole), course_from(engine, command, end, parts));
    // Neither has just fired, nor is about to.
    assert(one.0 <= a.0 + own);
    assert(other.0 <= b.0 + sum);
    let phase = value(next.pulse_phase_s);
    lemma_due_at(d, t, p, phase, value(next.stored_driver_energy_j), whole);
    lemma_lacking(engine, power_w, next, slack);
    assert(due_of(engine, power_w, a) > whole + slack);
    lemma_due_paused(engine, power_w, dt_s, one, whole);
    lemma_due_follows(d, t, p, a, paused_of(engine, power_w, one, whole), own);
    assert(due_of(engine, power_w, one) > whole + slack - own);
    if n < many {
        lemma_fires_advance(c, d, t, p, origin, n, many);
        assert(false);
    }
    if many < n {
        lemma_fires_advance(c, d, t, p, origin, many, n);
        assert(false);
    }
    // Both come to the same.
    lemma_times_positive(p, gap);
    lemma_times_adds(0 as real, 0 as real, p);
    lemma_times_commutes(p, 0 as real);
    lemma_paused_follows(c, d, t, p, one, one, whole, parts, gap);
    let (x, y) = (paused_of(engine, power_w, one, whole), paused_of(engine, power_w, one, parts));
    lemma_near_chain(p, a, x, y, own, gap);
    lemma_times_commutes(p, sum);
    assert(near_by(p, y, b, sum));
    lemma_near_chain(p, a, y, b, own + gap, sum);
    lemma_charge_apart(p, whole, parts);
    lemma_times_adds(own + gap + sum, gap, p);
    lemma_times_commutes(p, own + gap + sum);
    lemma_times_commutes(p, gap);
    lemma_times_commutes(p, slack);
    // The impulse.
    lemma_impulses(engine, command, lengths, states, points, count);
    let each = impulse_per_pulse(engine);
    lemma_total(point.pulses_fired, each);
    lemma_amount(each);
    lemma_times_positive(n as real, value(each));
    lemma_allowances(times(n as real, value(each)), 2, 2);
}

/// A state clear of shots waits longer than the slack.
proof fn lemma_lacking(engine: &CompiledPulsedFusion, power_w: F64, state: PulsedFusionState, slack: real)
    requires
        value(power_w) > (0 as real),
        clear_of_shots(engine, value(power_w), state, slack),
    ensures
        greater(
            value(engine.pulse_interval_s) - value(state.pulse_phase_s),
            over(
                value(engine.driver_energy_per_pulse_j) - value(state.stored_driver_energy_j),
                value(power_w),
            ),
        ) > slack,
{
    let p = value(power_w);
    let lack = value(engine.driver_energy_per_pulse_j) - value(state.stored_driver_energy_j);
    lemma_over(lack, p);
    lemma_times_commutes(over(lack, p), p);
    if over(lack, p) <= slack {
        lemma_charge_apart(p, over(lack, p), slack);
    }
}

/// A paused course is due when it was.
proof fn lemma_due_paused(engine: &CompiledPulsedFusion, power_w: F64, dt_s: F64, course: (real, real), time: real)
    requires
        charge_kept(engine, power_w, dt_s),
    ensures
        due_of(engine, power_w, paused_of(engine, power_w, course, time)) == due_of(engine, power_w, course),
{
    lemma_charge_time(engine, power_w, dt_s);
    lemma_parts(engine.driver_energy_per_pulse_j);
    lemma_value_order(engine.driver_energy_per_pulse_j, engine.buffer_capacity_j);
    lemma_come_to_fires(
        value(engine.buffer_capacity_j),
        value(engine.driver_energy_per_pulse_j),
        value(engine.pulse_interval_s),
        value(power_w),
        course,
        lesser(time, due_of(engine, power_w, course)),
    );
}

} // verus!
