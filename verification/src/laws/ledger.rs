//! The energy ledger of a step of the pulsed fusion drive.
use crate::error::Fault;
use crate::float::accuracy::{
    about, amount, lemma_about_bounds, lemma_about_same, lemma_amount, lemma_at_most, lemma_carried, lemma_normal,
    lemma_product_about, lemma_real_product, lemma_slack, lemma_slack_small, lemma_times_adds, lemma_times_associates,
    lemma_times_commutes, lemma_times_one, lemma_times_order, lemma_times_positive, lemma_times_strict,
    lemma_times_unique, lemma_unit_value, lemma_value_order, lemma_zero_value, normal, slack, step, times, value,
};
use crate::float::{all_finite_in, lemma_one, whole, zero, F64};
use crate::float::decimals::{lemma_decimal, lemma_whole};
use crate::float::errors::{
    allowance, close, lemma_allowance, lemma_difference_close, lemma_product_close, lemma_size_times, lemma_sum_close,
    lemma_times_difference, lemma_within_more, lemma_within_rounded, lemma_within_same, lemma_within_sum, precise,
    size,
};
use crate::float::exact::lemma_sub_self;
use crate::float::magnitude::{lemma_mag_scaled, mag, HIDDEN, INF_BITS};
use crate::float::nearness::{lemma_near, lemma_parts};
use crate::float::order::{
    lemma_add_commutes, lemma_add_not_negative, lemma_add_order, lemma_finite_difference, lemma_finite_less,
    lemma_less, lemma_mul_not_negative, lemma_negate, lemma_sum, lemma_within,
};
use crate::float::range::{lemma_near_range, lemma_sized, sized};
use crate::fusion::{
    epsilon, CompiledPulsedFusion, PulseEvent, PulseRun, PulseTolerance, PulsedFusionCommand,
    PulsedFusionOperatingPoint, PulsedFusionSpec, PulsedFusionState, MAX_PULSE_EVENTS,
};
use crate::laws::cadence::lesser;
use crate::laws::energy::{lemma_pulse_first_law, ordinary_pulse};
use crate::laws::pulses::{
    in_bounds, lemma_charge, lemma_compiled_well_formed, lemma_event, lemma_run_on, lemma_start,
    lemma_step_keeps_state, lemma_tolerance, well_formed,
};
use crate::numerics::Numerics;
use vstd::arithmetic::power2::{
    lemma2_to64, lemma2_to64_rest, lemma_pow2_adds, lemma_pow2_pos, lemma_pow2_strictly_increases, pow2,
};
use vstd::arithmetic::power::pow;
use vstd::prelude::*;

verus! {

/// How far the buffer strays from what the bus paid in and the shots took out (J).
pub open spec fn drift(engine: &CompiledPulsedFusion, from: PulseRun, to: PulseRun) -> real {
    (value(to.stored_j) - value(from.stored_j)) - (value(to.bus_energy_input_j) - value(from.bus_energy_input_j))
        + times((to.pulses_fired - from.pulses_fired) as real, value(engine.driver_energy_per_pulse_j))
}

/// A number of which sixteen rounding units keep full precision.
pub open spec fn tolerable(x: F64) -> bool {
    normal(x) && normal(x * whole(16)) && normal(x * whole(16) * epsilon())
}

/// A buffer and a driver energy of which nothing is lost to underflow or overflow: their
/// doubles are finite, and the tolerance of a shot keeps full precision.
pub open spec fn buffer_kept(engine: &CompiledPulsedFusion) -> bool {
    &&& (engine.buffer_capacity_j + engine.buffer_capacity_j).is_finite()
    &&& (engine.driver_energy_per_pulse_j + engine.driver_energy_per_pulse_j).is_finite()
    &&& tolerable(engine.driver_energy_per_pulse_j)
}

/// What bounds every energy of a run whose bus paid `bus`.
pub open spec fn turnover(engine: &CompiledPulsedFusion, bus: F64) -> real {
    value(engine.buffer_capacity_j) + value(engine.driver_energy_per_pulse_j) + value(bus)
}

/// Roundings of one scale add up.
pub proof fn lemma_allowances(scale: real, a: nat, b: nat)
    ensures
        times(scale, allowance(a)) + times(scale, allowance(b)) == times(scale, allowance(a + b)),
{
    lemma_allowance(a, b);
    lemma_times_adds(allowance(a), allowance(b), scale);
    lemma_times_commutes(scale, allowance(a));
    lemma_times_commutes(scale, allowance(b));
    lemma_times_commutes(scale, allowance(a + b));
}

/// What charging adds fits into the buffer, and is what is offered where that fits.
pub proof fn lemma_charge_parts(engine: &CompiledPulsedFusion, run: PulseRun, power_w: F64, elapsed_s: F64)
    requires
        well_formed(engine),
        (engine.buffer_capacity_j + engine.buffer_capacity_j).is_finite(),
        in_bounds(engine, run),
        zero() <= power_w,
        zero() <= elapsed_s,
        elapsed_s.is_finite(),
    ensures
        ({
            let added = (engine.buffer_capacity_j - run.stored_j).max(zero()).min(power_w * elapsed_s);
            let after = engine.charge(run, power_w, elapsed_s).stored_j;
            let (c, s, a) = (value(engine.buffer_capacity_j), value(run.stored_j), value(added));
            &&& zero() <= added && added.is_finite()
            &&& after.is_finite() && zero() <= after
            &&& (0 as real) <= s <= c && (0 as real) <= a <= c && (0 as real) <= value(after) <= c
            &&& size(value(after) - (s + a)) <= times(c, allowance(4))
            &&& (power_w * elapsed_s).is_finite() ==> size(a - lesser(c - s, value(power_w * elapsed_s))) <= times(
                c,
                allowance(2),
            )
        }),
{
    let cap = engine.buffer_capacity_j;
    let stored = run.stored_j;
    let room = (cap - stored).max(zero());
    let offer = power_w * elapsed_s;
    let added = room.min(offer);
    let sum = stored + added;
    let after = engine.charge(run, power_w, elapsed_s);
    lemma_one();
    lemma_charge(engine, run, power_w, elapsed_s);
    lemma_parts(cap);
    lemma_parts(stored);
    lemma_parts(zero());
    lemma_zero_value();
    // The room.
    lemma_finite_difference(cap, stored);
    lemma_parts(cap - stored);
    lemma_less(cap, stored);
    lemma_sub_self(stored);
    lemma_finite_less(stored, stored);
    lemma_negate(stored);
    lemma_add_order(stored, cap, stored.negate());
    lemma_difference_close(cap, stored);
    if !offer.is_nan() {
        lemma_mul_not_negative(power_w, elapsed_s);
    }
    lemma_parts(offer);
    assert(zero() <= added && added <= room && room <= cap);
    lemma_within(added, cap);
    lemma_parts(added);
    // The buffer.
    lemma_finite_sum(stored, added, cap);
    lemma_parts(sum);
    lemma_sum_close(stored, added);
    let (c, s, a) = (value(cap), value(stored), value(added));
    lemma_value_order(stored, cap);
    lemma_value_order(added, room);
    lemma_value_order(room, cap - stored);
    lemma_value_order(cap - stored, room);
    lemma_value_order(offer, room);
    lemma_value_order(added, cap);
    lemma_value_order(added, added);
    lemma_value_order(stored, stored);
    lemma_value_order(sum, cap);
    lemma_value_order(cap, sum);
    lemma_value_order(after.stored_j, cap);
    lemma_value_order(after.stored_j, after.stored_j);
    lemma_parts(after.stored_j);
    lemma_allowance(2, 2);
    lemma_times_order(size(c - s), c, allowance(2));
    lemma_times_order(size(s + a), c + c, allowance(2));
    lemma_times_adds(c, c, allowance(2));
    lemma_allowances(c, 2, 2);
    lemma_times_positive(c, allowance(2));
}

/// Charging strays by no more than eight roundings.
proof fn lemma_charge_drift(engine: &CompiledPulsedFusion, run: PulseRun, power_w: F64, elapsed_s: F64, limit: real)
    requires
        well_formed(engine),
        buffer_kept(engine),
        in_bounds(engine, run),
        zero() <= power_w,
        zero() <= elapsed_s,
        elapsed_s.is_finite(),
        zero() <= run.bus_energy_input_j,
        engine.charge(run, power_w, elapsed_s).bus_energy_input_j.is_finite(),
        turnover(engine, engine.charge(run, power_w, elapsed_s).bus_energy_input_j) <= limit,
    ensures
        size(drift(engine, run, engine.charge(run, power_w, elapsed_s))) <= times(limit, allowance(8)),
        run.bus_energy_input_j <= engine.charge(run, power_w, elapsed_s).bus_energy_input_j,
        value(engine.charge(run, power_w, elapsed_s).stored_j) <= value(engine.buffer_capacity_j),
        value(engine.charge(run, power_w, elapsed_s).stored_j) >= (0 as real),
        value(engine.buffer_capacity_j) >= (0 as real),
        engine.charge(run, power_w, elapsed_s).stored_j.is_finite(),
{
    let cap = engine.buffer_capacity_j;
    let bus = run.bus_energy_input_j;
    let added = (cap - run.stored_j).max(zero()).min(power_w * elapsed_s);
    let after = engine.charge(run, power_w, elapsed_s);
    lemma_one();
    lemma_charge_parts(engine, run, power_w, elapsed_s);
    lemma_parts(bus);
    lemma_parts(added);
    let (c, a) = (value(cap), value(added));
    // The bus.
    let paid = after.bus_energy_input_j;
    lemma_add_not_negative(bus, added);
    lemma_within(bus, paid);
    lemma_parts(paid);
    lemma_sum_close(bus, added);
    let (b, p) = (value(bus), value(paid));
    lemma_value_order(bus, bus);
    lemma_value_order(paid, paid);
    lemma_allowance(2, 2);
    lemma_allowance(4, 4);
    lemma_allowance(4, 0);
    lemma_times_order(allowance(2), (1 as real) / (2 as real), b + a);
    assert(times(b + a, (1 as real) / (2 as real)) == (b + a) / (2 as real)) by {
        reveal(times);
    }
    assert(b + a <= p + p);
    lemma_times_order(b + a, p + p, allowance(2));
    lemma_times_adds(p, p, allowance(2));
    lemma_allowances(p, 2, 2);
    assert(size(p - (b + a)) <= times(p, allowance(4)));
    // Both.
    let driver = value(engine.driver_energy_per_pulse_j);
    lemma_normal(engine.driver_energy_per_pulse_j);
    lemma_times_order(c, limit, allowance(4));
    lemma_times_order(p, limit, allowance(4));
    lemma_allowances(limit, 4, 4);
    lemma_times_adds(0 as real, 0 as real, driver);
}

/// A sum of two parts of a number whose double is finite.
pub proof fn lemma_finite_sum(a: F64, b: F64, cap: F64)
    requires
        zero() <= a,
        zero() <= b,
        a <= cap,
        b <= cap,
        cap.is_finite(),
        (cap + cap).is_finite(),
    ensures
        (a + b).is_finite(),
        a.is_finite(),
        b.is_finite(),
{
    lemma_one();
    lemma_within(a, cap);
    lemma_within(b, cap);
    lemma_parts(a);
    lemma_parts(b);
    lemma_parts(cap);
    lemma_parts(cap + cap);
    lemma_add_not_negative(a, b);
    lemma_add_not_negative(cap, b);
    lemma_parts(a + b);
    lemma_parts(cap + b);
    lemma_add_order(a, cap, b);
    lemma_add_commutes(cap, b);
    lemma_add_order(b, cap, cap);
    lemma_within(a + b, cap + cap);
}

/// Sixteen rounding units of a number are no more than sixty-four roundings of it.
pub proof fn lemma_sixteen_units(x: F64)
    requires
        tolerable(x),
    ensures
        value(x * whole(16) * epsilon()) <= times(value(x), allowance(64)),
        value(x * whole(16) * epsilon()) <= value(x),
{
    let (d, e) = (value(x), value(epsilon()));
    let tol = x * whole(16) * epsilon();
    lemma_one();
    lemma_normal(x);
    lemma_normal(x * whole(16));
    lemma_normal(tol);
    lemma_whole(16);
    lemma_pow2_pos(1074);
    lemma_parts(whole(16));
    lemma_epsilon();
    lemma_sized(epsilon(), -54, -51);
    lemma_normal(epsilon());
    lemma_product_about(x, whole(16));
    lemma_about_same(d);
    lemma_carried(x * whole(16), epsilon(), times(d, value(whole(16))), 1);
    lemma_at_most(value(tol), times(times(d, value(whole(16))), e), 2);
    lemma_sixteen();
    lemma_times_positive(d, 16 as real);
    lemma_times_order(e, (2 as real) * step(), times(d, 16 as real));
    lemma_slack_small(2);
    lemma_slack(2);
    let most = times(times(d, 16 as real), (2 as real) * step());
    lemma_times_order(times(times(d, 16 as real), e), most, slack(2));
    lemma_times_positive(times(d, 16 as real), (2 as real) * step());
    assert(slack(2) <= (2 as real)) by {
        reveal(times);
    }
    lemma_times_order(slack(2), 2 as real, most);
    assert(times(most, 2 as real) == times(d, allowance(64))) by {
        reveal(times);
        let s = step();
        assert(d * (16 as real) * ((2 as real) * s) * (2 as real) == d * ((64 as real) * s)) by (nonlinear_arith);
    }
    lemma_allowance(64, 0);
    lemma_times_order(allowance(64), 1 as real, d);
    lemma_times_one(d);
}

/// The value of sixteen.
proof fn lemma_sixteen()
    ensures
        value(whole(16)) == (16 as real),
{
    lemma_whole(16);
    lemma_unit_value(whole(16));
    let unit = pow2(1074) as real;
    assert(times(16 as real, unit) == (16 * pow2(1074)) as real) by {
        reveal(times);
    }
    lemma_times_unique(value(whole(16)), 16 as real, unit);
}

/// The rounding unit lies between 2^-54 and 2^-51, and is no more than two roundings.
proof fn lemma_epsilon()
    ensures
        sized(epsilon(), -54, -51),
        value(epsilon()) <= (2 as real) * step(),
{
    lemma_one();
    lemma_decimal(2_220_446_049_250_313, 31);
    let (unit, tens) = (pow2(1074) as int, pow(10, 31));
    lemma_pow2_adds(51, 1023);
    lemma_pow2_adds(54, 1020);
    lemma_pow2_adds(3, 1020);
    lemma2_to64();
    lemma2_to64_rest();
    lemma_pow2_pos(1020);
    reveal_with_fuel(pow, 32);
    assert(tens == 10_000_000_000_000_000_000_000_000_000_000);
    let small = pow2(1020) as int;
    let num = 2_220_446_049_250_313 * unit;
    assert(pow2(1020) * tens <= num <= pow2(1023) * tens) by (nonlinear_arith)
        requires
            num == 2_220_446_049_250_313 * unit,
            unit == 18_014_398_509_481_984 * small,
            pow2(1020) == small,
            pow2(1023) == 8 * small,
            tens == 10_000_000_000_000_000_000_000_000_000_000,
            small > 0,
    ;
    lemma_near_range(num, tens, 1020, 1023);
    lemma_near(false, num, tens);
    lemma_parts(epsilon());
    lemma_mag_of_infinity(1023);
    lemma_unit_value(epsilon());
    let (v, u) = (value(epsilon()), unit as real);
    assert(epsilon().units() as real <= times((2 as real) * step(), u)) by {
        reveal(times);
        let (w, s) = (pow2(1023) as real, step());
        assert(u == (2_251_799_813_685_248 as real) * w);
        assert((2 as real) * s * u == w) by (nonlinear_arith)
            requires
                u == (2_251_799_813_685_248 as real) * w,
                s * (4_503_599_627_370_496 as real) == (1 as real),
        ;
    }
    if v > (2 as real) * step() {
        lemma_times_strict((2 as real) * step(), v, u);
    }
}

/// A pattern no larger than a power of two is finite.
proof fn lemma_mag_of_infinity(b: nat)
    requires
        b <= 2097,
    ensures
        pow2(b) < mag(INF_BITS as nat),
{
    lemma_mag_scaled(HIDDEN as nat, 2046);
    assert(HIDDEN + 2046 * HIDDEN == INF_BITS);
    lemma_pow2_adds(52, 2046);
    lemma2_to64_rest();
    lemma_pow2_strictly_increases(b, 2098);
}

/// A buffer that pays for a shot within its tolerance lacks no more than sixty-eight
/// roundings of it.
pub proof fn lemma_paid(stored: F64, driver: F64, tol: F64)
    requires
        stored.is_finite(),
        zero() <= stored,
        normal(driver),
        (driver + driver).is_finite(),
        normal(tol),
        value(tol) <= times(value(driver), allowance(64)),
        value(tol) <= value(driver),
        stored + tol >= driver,
    ensures
        value(driver) - value(stored) <= times(value(driver), allowance(68)),
{
    let (s, d, t) = (value(stored), value(driver), value(tol));
    lemma_one();
    lemma_normal(driver);
    lemma_normal(tol);
    lemma_parts(stored);
    lemma_parts(driver);
    lemma_parts(tol);
    lemma_value_order(stored, stored);
    lemma_value_order(stored, driver);
    lemma_allowance(68, 0);
    lemma_times_positive(d, allowance(68));
    if stored < driver {
        lemma_sum_finite_below(stored, tol, driver);
        lemma_sum_close(stored, tol);
        lemma_parts(stored + tol);
        lemma_value_order(driver, stored + tol);
        lemma_allowance(2, 2);
        lemma_times_order(size(s + t), d + d, allowance(2));
        lemma_times_adds(d, d, allowance(2));
        lemma_allowances(d, 2, 2);
        lemma_allowances(d, 64, 4);
    } else {
        lemma_value_order(driver, stored);
    }
}

/// A shot takes its driver energy out of the buffer, to within seventy-two roundings.
pub proof fn lemma_shot_drift(stored: F64, driver: F64, tol: F64, limit: real)
    requires
        stored.is_finite(),
        zero() <= stored,
        normal(driver),
        (driver + driver).is_finite(),
        normal(tol),
        value(tol) <= times(value(driver), allowance(64)),
        value(tol) <= value(driver),
        stored + tol >= driver,
        value(stored) + value(driver) <= limit,
    ensures
        size(value((stored - driver).max(zero())) - (value(stored) - value(driver))) <= times(limit, allowance(72)),
{
    let (s, d, t) = (value(stored), value(driver), value(tol));
    let left = stored - driver;
    lemma_one();
    lemma_parts(zero());
    lemma_zero_value();
    lemma_normal(driver);
    lemma_normal(tol);
    lemma_parts(stored);
    lemma_parts(driver);
    lemma_parts(tol);
    lemma_value_order(stored, stored);
    lemma_finite_difference(stored, driver);
    lemma_parts(left);
    lemma_difference_close(stored, driver);
    lemma_allowance(2, 70);
    lemma_allowance(72, 0);
    lemma_times_order(size(s - d), limit, allowance(2));
    lemma_times_order(allowance(2), allowance(72), limit);
    lemma_value_order(left, left.max(zero()));
    lemma_value_order(left.max(zero()), left);
    lemma_value_order(left.max(zero()), zero());
    lemma_value_order(zero(), left.max(zero()));
    lemma_value_order(left, zero());
    if left < zero() {
        // Less is stored than a shot takes, but no less than the tolerance allows.
        lemma_paid(stored, driver, tol);
        lemma_allowance(68, 72);
        lemma_times_order(d, limit, allowance(68));
        lemma_times_order(allowance(68), allowance(72), limit);
    }
}

/// A sum of two numbers no larger than one whose double is finite.
proof fn lemma_sum_finite_below(a: F64, b: F64, bound: F64)
    requires
        zero() <= a,
        a <= bound,
        normal(b),
        value(b) <= value(bound),
        bound.is_finite(),
        (bound + bound).is_finite(),
    ensures
        (a + b).is_finite(),
{
    lemma_one();
    lemma_normal(b);
    lemma_parts(a);
    lemma_parts(b);
    lemma_parts(bound);
    lemma_value_order(b, bound);
    lemma_finite_sum(a, b, bound);
}

/// One event strays by no more than eighty roundings.
proof fn lemma_event_drift(
    engine: &CompiledPulsedFusion,
    run: PulseRun,
    power_w: F64,
    dt_s: F64,
    after: PulseRun,
    limit: real,
)
    requires
        well_formed(engine),
        buffer_kept(engine),
        in_bounds(engine, run),
        zero() <= power_w,
        run.pulses_fired < MAX_PULSE_EVENTS,
        zero() <= run.bus_energy_input_j,
        engine.event(run, power_w, engine.tolerance(dt_s)) == PulseEvent::Done(after) || engine.event(
            run,
            power_w,
            engine.tolerance(dt_s),
        ) == PulseEvent::Continue(after),
        after.bus_energy_input_j.is_finite(),
        turnover(engine, after.bus_energy_input_j) <= limit,
    ensures
        size(drift(engine, run, after)) <= times(limit, allowance(80)),
        run.bus_energy_input_j <= after.bus_energy_input_j,
{
    let tolerance = engine.tolerance(dt_s);
    let driver = engine.driver_energy_per_pulse_j;
    lemma_one();
    lemma_event(engine, run, power_w, tolerance);
    let wait = engine.event_wait_s(run, power_w, tolerance);
    lemma_event_wait(engine, run, power_w, tolerance);
    let elapsed = if !wait.is_finite() || wait > run.remaining_s {
        run.remaining_s
    } else {
        wait
    };
    lemma_charge_drift(engine, run, power_w, elapsed, limit);
    let charged = engine.charge(run, power_w, elapsed);
    let d = value(driver);
    lemma_normal(driver);
    lemma_sixteen_units(driver);
    lemma_allowance(8, 72);
    lemma_allowance(80, 0);
    lemma_parts(after.bus_energy_input_j);
    lemma_value_order(after.bus_energy_input_j, after.bus_energy_input_j);
    lemma_add_not_negative(run.bus_energy_input_j, charged.bus_energy_input_j);
    lemma_parts(charged.bus_energy_input_j);
    lemma_times_order(allowance(8), allowance(80), limit);
    lemma_allowances(limit, 8, 72);
    lemma_times_adds(0 as real, 0 as real, d);
    lemma_times_one(d);
    if after.pulses_fired != run.pulses_fired {
        lemma_parts(charged.stored_j);
        lemma_value_order(zero(), charged.stored_j);
        lemma_zero_value();
        lemma_shot_drift(charged.stored_j, driver, tolerance.energy_j, limit);
    }
}

/// The wait of an event is not negative.
pub proof fn lemma_event_wait(engine: &CompiledPulsedFusion, run: PulseRun, power_w: F64, tolerance: PulseTolerance)
    requires
        well_formed(engine),
        in_bounds(engine, run),
    ensures
        zero() <= engine.event_wait_s(run, power_w, tolerance),
{
    lemma_one();
    let interval = engine.pulse_interval_s;
    lemma_parts(interval);
    lemma_parts(run.phase_s);
    lemma_negate(run.phase_s);
    lemma_sum(interval, run.phase_s.negate());
}

/// How many events a run has left.
pub open spec fn events_left(
    engine: &CompiledPulsedFusion,
    run: PulseRun,
    power_w: F64,
    tolerance: PulseTolerance,
    events: nat,
) -> nat
    decreases MAX_PULSE_EVENTS - events,
{
    if !(run.remaining_s > tolerance.time_s) || events >= MAX_PULSE_EVENTS {
        0
    } else {
        match engine.event(run, power_w, tolerance) {
            PulseEvent::Done(_) => 1,
            PulseEvent::Continue(next) => 1 + events_left(engine, next, power_w, tolerance, events + 1),
        }
    }
}

/// A run strays by no more than eighty roundings an event.
proof fn lemma_run_drift(
    engine: &CompiledPulsedFusion,
    run: PulseRun,
    power_w: F64,
    dt_s: F64,
    events: nat,
    last: PulseRun,
)
    requires
        well_formed(engine),
        buffer_kept(engine),
        in_bounds(engine, run),
        zero() <= power_w,
        run.pulses_fired <= events,
        events <= MAX_PULSE_EVENTS,
        zero() <= run.bus_energy_input_j,
        engine.run_on(run, power_w, engine.tolerance(dt_s), events) == Ok::<PulseRun, Fault>(last),
        last.bus_energy_input_j.is_finite(),
    ensures
        run.bus_energy_input_j <= last.bus_energy_input_j,
        size(drift(engine, run, last)) <= times(
            turnover(engine, last.bus_energy_input_j),
            allowance(80 * events_left(engine, run, power_w, engine.tolerance(dt_s), events)),
        ),
    decreases MAX_PULSE_EVENTS - events,
{
    let tolerance = engine.tolerance(dt_s);
    let limit = turnover(engine, last.bus_energy_input_j);
    let driver = value(engine.driver_energy_per_pulse_j);
    lemma_one();
    lemma_parts(last.bus_energy_input_j);
    lemma_parts(run.bus_energy_input_j);
    lemma_times_adds(0 as real, 0 as real, driver);
    lemma_limit(engine, last.bus_energy_input_j);
    if run.remaining_s > tolerance.time_s && events < MAX_PULSE_EVENTS {
        lemma_event(engine, run, power_w, tolerance);
        match engine.event(run, power_w, tolerance) {
            PulseEvent::Done(after) => {
                lemma_event_drift(engine, run, power_w, dt_s, after, limit);
            },
            PulseEvent::Continue(next) => {
                lemma_event_bus(engine, run, power_w, tolerance, next);
                lemma_run_drift(engine, next, power_w, dt_s, events + 1, last);
                lemma_within(next.bus_energy_input_j, last.bus_energy_input_j);
                lemma_value_order(next.bus_energy_input_j, last.bus_energy_input_j);
                lemma_event_drift(engine, run, power_w, dt_s, next, limit);
                let n = events_left(engine, next, power_w, tolerance, events + 1);
                lemma_allowances(limit, 80, 80 * n);
                lemma_run_on(engine, next, power_w, tolerance, events + 1);
                lemma_times_adds(
                    (next.pulses_fired - run.pulses_fired) as real,
                    (last.pulses_fired - next.pulses_fired) as real,
                    driver,
                );
                assert(80 * (1 + n) == 80 + 80 * n);
            },
        }
    } else {
        lemma_allowance(0, 0);
        lemma_times_commutes(limit, 0 as real);
        lemma_times_adds(0 as real, 0 as real, limit);
    }
}

/// The bus of an event pays nothing back.
proof fn lemma_event_bus(
    engine: &CompiledPulsedFusion,
    run: PulseRun,
    power_w: F64,
    tolerance: PulseTolerance,
    next: PulseRun,
)
    requires
        well_formed(engine),
        in_bounds(engine, run),
        zero() <= power_w,
        run.pulses_fired < MAX_PULSE_EVENTS,
        zero() <= run.bus_energy_input_j,
        engine.event(run, power_w, tolerance) == PulseEvent::Continue(next),
    ensures
        zero() <= next.bus_energy_input_j,
        run.bus_energy_input_j <= next.bus_energy_input_j,
{
    lemma_one();
    lemma_event_wait(engine, run, power_w, tolerance);
    let wait = engine.event_wait_s(run, power_w, tolerance);
    let room = (engine.buffer_capacity_j - run.stored_j).max(zero());
    let offer = power_w * wait;
    lemma_parts(room);
    lemma_parts(zero());
    lemma_parts(engine.buffer_capacity_j);
    lemma_parts(run.stored_j);
    lemma_finite_difference(engine.buffer_capacity_j, run.stored_j);
    lemma_parts(engine.buffer_capacity_j - run.stored_j);
    if !offer.is_nan() {
        lemma_mul_not_negative(power_w, wait);
    }
    let added = room.min(offer);
    assert(zero() <= added);
    lemma_add_not_negative(run.bus_energy_input_j, added);
    lemma_parts(run.bus_energy_input_j + added);
}

/// What bounds the energies of a run is not negative.
proof fn lemma_limit(engine: &CompiledPulsedFusion, bus: F64)
    requires
        well_formed(engine),
        buffer_kept(engine),
        bus.is_finite(),
    ensures
        value(engine.buffer_capacity_j) >= (0 as real),
        value(engine.driver_energy_per_pulse_j) > (0 as real),
{
    lemma_one();
    lemma_parts(engine.buffer_capacity_j);
    lemma_value_order(engine.buffer_capacity_j, engine.buffer_capacity_j);
    lemma_normal(engine.driver_energy_per_pulse_j);
}

/// How many events a step takes: one charge when disarmed.
pub open spec fn step_events(
    engine: &CompiledPulsedFusion,
    state: PulsedFusionState,
    command: PulsedFusionCommand,
    dt_s: F64,
) -> nat {
    let power_w = command.available_charge_power_w.min(engine.maximum_charge_power_w);
    if command.armed {
        events_left(engine, engine.run_start(state, dt_s), power_w, engine.tolerance(dt_s), 0)
    } else {
        1
    }
}

/// The buffer of a step changes by what the bus paid in less a driver energy for each
/// shot, to within eighty roundings an event of capacity, driver energy and bus energy
/// together.
pub proof fn lemma_buffer_balance(
    engine: &CompiledPulsedFusion,
    state: PulsedFusionState,
    command: PulsedFusionCommand,
    dt_s: F64,
    next: PulsedFusionState,
    point: PulsedFusionOperatingPoint,
)
    requires
        well_formed(engine),
        buffer_kept(engine),
        engine.advanced(state, command, dt_s) == Ok::<(PulsedFusionState, PulsedFusionOperatingPoint), Fault>(
            (next, point),
        ),
    ensures
        ({
            let stored = value(next.stored_driver_energy_j) - value(state.stored_driver_energy_j);
            let spent = times(point.pulses_fired as real, value(engine.driver_energy_per_pulse_j));
            size(stored - (value(point.bus_energy_input_j) - spent)) <= times(
                turnover(engine, point.bus_energy_input_j),
                allowance(80 * step_events(engine, state, command, dt_s)),
            )
        }),
{
    let power_w = command.available_charge_power_w.min(engine.maximum_charge_power_w);
    let start = engine.run_start(state, dt_s);
    let tolerance = engine.tolerance(dt_s);
    let bus = point.bus_energy_input_j;
    lemma_one();
    lemma_zero_value();
    lemma_start(engine, state, command, dt_s);
    lemma_parts(zero());
    let numbers = point.numbers();
    assert(all_finite_in(numbers));
    assert(numbers[9].is_finite());
    let last = engine.run(state, command, dt_s)->Ok_0;
    if command.armed {
        lemma_run_drift(engine, start, power_w, dt_s, 0, last);
    } else {
        lemma_limit(engine, bus);
        let charged = PulseRun { remaining_s: zero(), ..engine.charge(start, power_w, dt_s) };
        lemma_tolerance(dt_s);
        assert(engine.run_on(charged, power_w, tolerance, 0) == Ok::<PulseRun, Fault>(charged));
        lemma_charge_drift(engine, start, power_w, dt_s, turnover(engine, bus));
        lemma_allowance(8, 80);
        lemma_parts(bus);
        lemma_value_order(zero(), bus);
        lemma_charge(engine, start, power_w, dt_s);
        lemma_times_order(allowance(8), allowance(80), turnover(engine, bus));
    }
}

/// An energy whose total over some pulses keeps full precision, or is nothing.
pub open spec fn total_kept(pulses: u32, energy: F64) -> bool {
    amount(energy) && (precise(whole(pulses as u64) * energy) || pulses == 0 || energy.units() == 0)
}

/// The energies of a pulse and their totals lose nothing to underflow or overflow.
pub open spec fn totals_kept(engine: &CompiledPulsedFusion, pulses: u32) -> bool {
    &&& total_kept(pulses, engine.fusion_energy_per_pulse_j)
    &&& total_kept(pulses, engine.jet_energy_per_pulse_j)
    &&& total_kept(pulses, engine.exhaust_internal_energy_per_pulse_j)
    &&& total_kept(pulses, engine.waste_heat_per_pulse_j)
}

/// What goes out of a pulse is what goes in, to within a hundred and twenty-two roundings.
proof fn lemma_pulse_closes(fusion: F64, driver: F64, jet: F64, inner: F64, waste: F64)
    requires
        normal(fusion),
        normal(driver),
        (fusion + driver).is_finite(),
        amount(jet),
        amount(inner),
        amount(waste),
        (jet + inner).is_finite(),
        (jet + inner + waste).is_finite(),
        about(value(jet + inner + waste), value(fusion + driver), 7),
    ensures
        ({
            let (spent, made) = (value(fusion) + value(driver), value(jet) + value(inner) + value(waste));
            &&& size(made - spent) <= times(spent, allowance(122))
            &&& made <= (8 as real) * spent
            &&& spent > (0 as real) && made >= (0 as real)
        }),
{
    let (f, d, j, i, w) = (value(fusion), value(driver), value(jet), value(inner), value(waste));
    let (spent, made) = (f + d, j + i + w);
    lemma_normal(fusion);
    lemma_normal(driver);
    lemma_amount(jet);
    lemma_amount(inner);
    lemma_amount(waste);
    let (got, put) = (value(jet + inner + waste), value(fusion + driver));
    // The sums.
    lemma_within_same(j + i, j + i);
    lemma_sum_close(jet, inner);
    lemma_within_rounded(value(jet + inner), j + i, j + i, j + i, 0);
    lemma_within_same(w, w);
    lemma_within_more(w, w, w, 0, w, 4);
    lemma_within_sum(value(jet + inner), j + i, w, w, j + i, w, 4);
    lemma_sum_close(jet + inner, waste);
    lemma_within_rounded(got, value(jet + inner) + w, made, made, 4);
    lemma_sum_close(fusion, driver);
    // Halves of them at least are left.
    lemma_allowance(2, 2);
    lemma_allowance(8, 8);
    lemma_allowance(4, 0);
    lemma_allowance(16, 0);
    let half = (1 as real) / (2 as real);
    lemma_times_order(allowance(2), half, spent);
    lemma_times_order(allowance(8), half, made);
    assert(times(spent, half) == spent / (2 as real) && times(made, half) == made / (2 as real)) by {
        reveal(times);
    }
    // The pulse.
    lemma_about_bounds(got, put, 7);
    lemma_slack_small(7);
    lemma_slack(7);
    let s = times((2 as real) * (7 as real), step());
    assert(s == allowance(14));
    lemma_allowance(14, 14);
    lemma_times_order(slack(7), (1 as real) + s, put);
    lemma_times_order(slack(7), (1 as real) + s, got);
    lemma_times_adds(1 as real, s, put);
    lemma_times_adds(1 as real, s, got);
    lemma_times_one(put);
    lemma_times_one(got);
    lemma_times_commutes(put, (1 as real) + s);
    lemma_times_commutes(got, (1 as real) + s);
    lemma_times_commutes(put, s);
    lemma_times_commutes(got, s);
    lemma_times_order(s, 1 as real, put);
    lemma_times_order(s, 1 as real, got);
    assert(size(got - put) <= times(put + put, s)) by {
        lemma_times_order(got, put + put, s);
        lemma_times_order(put, put + put, s);
    }
    assert(put <= spent + spent && got <= put + put && made <= got + got);
    lemma_times_order(put + put, (4 as real) * spent, s);
    lemma_times_order(made, (8 as real) * spent, allowance(8));
    assert(times((4 as real) * spent, allowance(14)) == times(spent, allowance(56))) by {
        lemma_multiple(spent, 4, 14);
    }
    // Over the reals, with the exact products.
    assert(size(made - spent) <= times((8 as real) * spent, allowance(8)) + times(spent, allowance(56)) + times(
        spent,
        allowance(2),
    ));
    lemma_multiple(spent, 8, 8);
    lemma_finer(spent);
}

/// A multiple of a scale allows as many roundings more.
proof fn lemma_multiple(scale: real, n: nat, k: nat)
    ensures
        times((n as real) * scale, allowance(k)) == times(scale, allowance(n * k)),
{
    reveal(times);
    let (m, a, s) = (n as real, k as real, step());
    lemma_real_product(n as int, k as int);
    assert((n * k) as real == m * a);
    assert((m * scale) * (a * s) == scale * ((m * a) * s)) by (nonlinear_arith);
}

/// Sixty-four, fifty-six and two roundings are no more than a hundred and twenty-two.
proof fn lemma_finer(scale: real)
    ensures
        times(scale, allowance(64)) + times(scale, allowance(56)) + times(scale, allowance(2)) == times(
            scale,
            allowance(122),
        ),
{
    lemma_allowances(scale, 64, 56);
    lemma_allowances(scale, 120, 2);
}

/// The total of some pulses' energy is close to so many times the energy of one.
pub proof fn lemma_total(pulses: u32, energy: F64)
    requires
        total_kept(pulses, energy),
    ensures
        close(value(whole(pulses as u64) * energy), times(pulses as real, value(energy))),
        value(whole(pulses as u64)) == (pulses as real),
{
    lemma_whole(pulses as u64);
    lemma_parts(whole(pulses as u64));
    lemma_unit_value(whole(pulses as u64));
    let unit = pow2(1074) as real;
    assert(times(pulses as real, unit) == (pulses * pow2(1074)) as real) by {
        reveal(times);
        lemma_real_product(pulses as int, pow2(1074) as int);
    }
    lemma_times_unique(value(whole(pulses as u64)), pulses as real, unit);
    if pulses == 0 {
        let scale = pow2(1074) as int;
        assert(pulses * scale == 0) by (nonlinear_arith)
            requires
                pulses == 0,
        ;
        assert(whole(pulses as u64).units() == pulses * scale);
    }
    lemma_product_close(whole(pulses as u64), energy);
}

/// The energy of a step closes: bus energy and fusion energy are what the buffer took
/// up, jet, exhaust and waste heat together. The slack is eighty roundings an event of
/// the buffer's turnover and a hundred and forty of what the pulses turned over.
pub proof fn lemma_step_energy<M: Numerics>(
    spec: &PulsedFusionSpec,
    math: &M,
    engine: &CompiledPulsedFusion,
    state: PulsedFusionState,
    command: PulsedFusionCommand,
    dt_s: F64,
    next: PulsedFusionState,
    point: PulsedFusionOperatingPoint,
)
    requires
        spec.compiled(math) == Ok::<CompiledPulsedFusion, Fault>(*engine),
        ordinary_pulse(spec, math),
        buffer_kept(engine),
        totals_kept(engine, point.pulses_fired),
        engine.advanced(state, command, dt_s) == Ok::<(PulsedFusionState, PulsedFusionOperatingPoint), Fault>(
            (next, point),
        ),
    ensures
        ({
            let paid = value(point.bus_energy_input_j) + value(point.fusion_energy_j);
            let taken = value(next.stored_driver_energy_j) - value(state.stored_driver_energy_j);
            let made = value(point.jet_kinetic_energy_j) + value(point.exhaust_internal_energy_j) + value(
                point.waste_heat_j,
            );
            let pulses = times(
                point.pulses_fired as real,
                value(engine.fusion_energy_per_pulse_j) + value(engine.driver_energy_per_pulse_j),
            );
            size(paid - (taken + made)) <= times(
                turnover(engine, point.bus_energy_input_j),
                allowance(80 * step_events(engine, state, command, dt_s)),
            ) + times(pulses, allowance(140))
        }),
{
    let (fusion, driver, jet, inner, waste) = (
        engine.fusion_energy_per_pulse_j,
        engine.driver_energy_per_pulse_j,
        engine.jet_energy_per_pulse_j,
        engine.exhaust_internal_energy_per_pulse_j,
        engine.waste_heat_per_pulse_j,
    );
    let (f, d, j, i, w) = (value(fusion), value(driver), value(jet), value(inner), value(waste));
    let n = point.pulses_fired as real;
    lemma_compiled_well_formed(*spec, math);
    lemma_step_keeps_state(engine, state, command, dt_s, next, point);
    lemma_buffer_balance(engine, state, command, dt_s, next, point);
    lemma_pulse_first_law(spec, math);
    lemma_normal(fusion + driver);
    lemma_normal(jet + inner);
    lemma_normal(jet + inner + waste);
    lemma_pulse_closes(fusion, driver, jet, inner, waste);
    lemma_total(point.pulses_fired, fusion);
    lemma_total(point.pulses_fired, jet);
    lemma_total(point.pulses_fired, inner);
    lemma_total(point.pulses_fired, waste);
    lemma_normal(fusion);
    lemma_normal(driver);
    lemma_amount(jet);
    lemma_amount(inner);
    lemma_amount(waste);
    let (spent, made) = (f + d, j + i + w);
    let (all, out) = (times(n, spent), times(n, made));
    let a = allowance(2);
    // Each total.
    lemma_times_positive(n, f);
    lemma_times_positive(n, d);
    lemma_times_positive(n, j);
    lemma_times_positive(n, i);
    lemma_times_positive(n, w);
    lemma_times_adds(f, d, n);
    lemma_times_adds(j, i, n);
    lemma_times_adds(j + i, w, n);
    lemma_times_adds(times(n, j), times(n, i), a);
    lemma_times_adds(times(n, j) + times(n, i), times(n, w), a);
    lemma_allowance(2, 0);
    lemma_times_order(times(n, f), all, a);
    // What the pulses make against what they take.
    lemma_times_difference(made, spent, n);
    lemma_times_commutes(n, made);
    lemma_times_commutes(n, spent);
    lemma_times_positive(n, made);
    lemma_times_positive(n, spent);
    lemma_size_times(made - spent, n);
    lemma_times_order(size(made - spent), times(spent, allowance(122)), n);
    lemma_times_associates(spent, allowance(122), n);
    lemma_times_commutes(allowance(122), n);
    lemma_times_associates(spent, n, allowance(122));
    // The roundings of the totals.
    lemma_times_order(made, (8 as real) * spent, n);
    assert(times((8 as real) * spent, n) == (8 as real) * all) by {
        reveal(times);
        assert((8 as real) * spent * n == (8 as real) * (spent * n)) by (nonlinear_arith);
    }
    lemma_times_order(out, (8 as real) * all, a);
    lemma_multiple(all, 8, 2);
    lemma_allowances(all, 16, 2);
    lemma_allowances(all, 18, 122);
}

} // verus!
