//! Ignition shots are never regained, a shut engine stays shut, and a motor's clock
//! runs one way.
use crate::engine::CompiledEngine;
use crate::error::Fault;
use crate::float::{lemma_one, zero, F64};
use crate::float::nearness::lemma_parts;
use crate::float::order::lemma_add_not_negative;
use crate::numerics::Numerics;
use crate::spool::{next_spool, EngineSpool};
use vstd::prelude::*;

verus! {

/// A step spends one shot where it ignites an engine that was not running, and none
/// otherwise; unlimited shots stay so.
pub proof fn lemma_shots<M: Numerics>(
    math: &M,
    engine: &CompiledEngine,
    state: EngineSpool,
    throttle_cmd: F64,
    dt_s: F64,
    next: EngineSpool,
)
    requires
        next_spool(math, engine, state, throttle_cmd, dt_s) == Ok::<EngineSpool, Fault>(next),
    ensures
        state.shots_remaining is None <==> next.shots_remaining is None,
        state.shots_remaining is Some ==> next.shots_remaining->0 <= state.shots_remaining->0
            <= next.shots_remaining->0 + 1,
        state.running || throttle_cmd.same(zero()) ==> next.shots_remaining == state.shots_remaining,
        engine is Liquid && !state.running && next.running && state.shots_remaining is Some
            ==> next.shots_remaining->0 + 1 == state.shots_remaining->0,
{
    lemma_one();
}

/// An engine at rest without shots cannot be lit: a liquid engine refuses every
/// command but zero, an unburned motor the command to fire.
pub proof fn lemma_spent_stays_dark<M: Numerics>(
    math: &M,
    engine: &CompiledEngine,
    state: EngineSpool,
    throttle_cmd: F64,
    dt_s: F64,
)
    requires
        !state.running,
        state.shots_remaining == Some(0u32),
    ensures
        match next_spool(math, engine, state, throttle_cmd, dt_s) {
            Ok(next) => !next.running && next.shots_remaining == Some(0u32),
            Err(_) => true,
        },
        engine is Liquid && next_spool(math, engine, state, throttle_cmd, dt_s) is Ok ==> throttle_cmd.same(zero()),
{
    lemma_one();
    lemma_parts(throttle_cmd);
    if engine is Liquid {
        lemma_parts(engine.throttle_range().0);
    }
}

/// Zero shuts a liquid engine down, at once and for as long as it is commanded.
pub proof fn lemma_zero_shuts_down<M: Numerics>(
    math: &M,
    engine: &CompiledEngine,
    state: EngineSpool,
    throttle_cmd: F64,
    dt_s: F64,
    next: EngineSpool,
)
    requires
        engine is Liquid,
        throttle_cmd.same(zero()),
        next_spool(math, engine, state, throttle_cmd, dt_s) == Ok::<EngineSpool, Fault>(next),
    ensures
        !next.running,
        !state.running ==> next.throttle_actual == zero(),
        next.shots_remaining == state.shots_remaining,
        next.burn_elapsed_s == state.burn_elapsed_s,
{
    lemma_one();
}

/// The clock of a motor never runs back nor past the burn time, and stands still while
/// the motor is dark.
pub proof fn lemma_burn_clock<M: Numerics>(
    math: &M,
    engine: &CompiledEngine,
    state: EngineSpool,
    throttle_cmd: F64,
    dt_s: F64,
    next: EngineSpool,
)
    requires
        engine is Solid,
        zero() <= state.burn_elapsed_s,
        state.burn_elapsed_s <= engine->Solid_0.burn_time_s,
        next_spool(math, engine, state, throttle_cmd, dt_s) == Ok::<EngineSpool, Fault>(next),
    ensures
        state.burn_elapsed_s <= next.burn_elapsed_s,
        next.burn_elapsed_s <= engine->Solid_0.burn_time_s,
        !state.running && throttle_cmd.same(zero()) ==> next.burn_elapsed_s == state.burn_elapsed_s,
        next.running ==> next.burn_elapsed_s < engine->Solid_0.burn_time_s,
{
    lemma_one();
    lemma_parts(dt_s);
    if dt_s.is_finite() && !(dt_s < zero()) {
        lemma_add_not_negative(state.burn_elapsed_s, dt_s);
    }
}

/// A motor that burns cannot be shut down: it burns on, whatever is commanded, until
/// its clock runs out; and then it is out for good.
pub proof fn lemma_motor_burns_once<M: Numerics>(
    math: &M,
    engine: &CompiledEngine,
    state: EngineSpool,
    throttle_cmd: F64,
    dt_s: F64,
    next: EngineSpool,
)
    requires
        engine is Solid,
        !engine->Solid_0.burn_time_s.is_nan(),
        zero() <= state.burn_elapsed_s,
        next_spool(math, engine, state, throttle_cmd, dt_s) == Ok::<EngineSpool, Fault>(next),
    ensures
        state.burn_elapsed_s >= engine->Solid_0.burn_time_s ==> !next.running && next.throttle_actual == zero()
            && next.burn_elapsed_s == state.burn_elapsed_s && next.shots_remaining == state.shots_remaining,
        state.running ==> next.running || next.burn_elapsed_s >= engine->Solid_0.burn_time_s,
{
    lemma_one();
    lemma_parts(dt_s);
    if dt_s.is_finite() && !(dt_s < zero()) {
        lemma_add_not_negative(state.burn_elapsed_s, dt_s);
    }
}

} // verus!
