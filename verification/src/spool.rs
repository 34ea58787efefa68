//! Ignition dynamics: spool lag, ignition shots, and the solid burn clock.
use crate::engine::CompiledEngine;
use crate::error::{bad_command, in_unit_interval, invalid_command, seen, Fault, PropulsionError};
use crate::float::{dec, whole, zero, F64};
use crate::numerics::{exp, repeatable, Numerics};
use vstd::prelude::*;

verus! {

/// Live engine state: ignition, spool lag, solid burn clock. Pure data; advance
/// it with [`advance_spool`] using physics seconds.
#[derive(Debug, Clone, Copy, PartialEq)]
pub struct EngineSpool {
    pub running: bool,
    pub throttle_actual: F64,
    /// Ignitions left; `None` = unlimited.
    pub shots_remaining: Option<u32>,
    pub burn_elapsed_s: F64,
}

impl EngineSpool {
    /// [`new`] in contracts.
    pub open spec fn new_spec(engine: &CompiledEngine) -> EngineSpool {
        EngineSpool {
            running: false,
            throttle_actual: zero(),
            shots_remaining: match engine {
                CompiledEngine::Liquid(liquid) => if liquid.restartable {
                    None
                } else {
                    Some(1u32)
                },
                CompiledEngine::Solid(solid) => Some(solid.ignition_shots),
            },
            burn_elapsed_s: zero(),
        }
    }

    /// New engine: cold, full shots, zero burn clock.
    #[verifier::when_used_as_spec(new_spec)]
    pub fn new(engine: &CompiledEngine) -> (r: EngineSpool)
        ensures
            r == Self::new(engine),
    {
        EngineSpool {
            running: false,
            throttle_actual: zero(),
            shots_remaining: match engine {
                CompiledEngine::Liquid(liquid) => if liquid.restartable {
                    None
                } else {
                    Some(1u32)
                },
                CompiledEngine::Solid(solid) => Some(solid.ignition_shots),
            },
            burn_elapsed_s: zero(),
        }
    }
}

/// [`approach`] in contracts.
pub open spec fn approach_spec<M: Numerics>(math: &M, current: F64, target: F64, dt_s: F64, tau_s: F64) -> F64 {
    let alpha = whole(1) - exp(math, dt_s.negate() / tau_s);
    current + (target - current) * alpha
}

/// First-order approach of `current` to `target` over `dt_s` with time constant `tau_s`.
#[verifier::when_used_as_spec(approach_spec)]
pub fn approach<M: Numerics>(math: &M, current: F64, target: F64, dt_s: F64, tau_s: F64) -> (r: F64)
    ensures
        repeatable(math) ==> r == approach(math, current, target, dt_s, tau_s),
{
    let alpha = whole(1) - exp(math, dt_s.negate() / tau_s);
    current + (target - current) * alpha
}

/// [`settled`] in contracts.
pub open spec fn settled_spec(running: bool, throttle: F64) -> F64 {
    if !running && throttle < dec(1, 6) {
        zero()
    } else {
        throttle
    }
}

/// An actual throttle that counts as zero once the engine is shut down.
#[verifier::when_used_as_spec(settled_spec)]
pub fn settled(running: bool, throttle: F64) -> (r: F64)
    ensures
        r == settled(running, throttle),
{
    if !running && throttle < dec(1, 6) {
        zero()
    } else {
        throttle
    }
}

/// The next state of a liquid engine that aims at `target`.
pub open spec fn next_liquid<M: Numerics>(
    math: &M,
    state: EngineSpool,
    target: F64,
    dt_s: F64,
    tau_s: F64,
) -> Result<EngineSpool, Fault> {
    let off = target.same(zero());
    if !state.running && off {
        Ok(EngineSpool { throttle_actual: zero(), ..state })
    } else if !state.running && state.shots_remaining == Some(0u32) {
        Err(bad_command("no ignition shots remaining"))
    } else {
        let running = !off;
        let shots = if state.running {
            state.shots_remaining
        } else {
            match state.shots_remaining {
                Some(shots) => Some((shots - 1) as u32),
                None => None,
            }
        };
        Ok(
            EngineSpool {
                running,
                throttle_actual: settled(running, approach(math, state.throttle_actual, target, dt_s, tau_s)),
                shots_remaining: shots,
                burn_elapsed_s: state.burn_elapsed_s,
            },
        )
    }
}

/// The next state of a solid motor: it burns on until its clock runs out.
pub open spec fn next_solid(state: EngineSpool, fire: bool, dt_s: F64, burn_time_s: F64) -> Result<EngineSpool, Fault> {
    if state.burn_elapsed_s >= burn_time_s {
        Ok(EngineSpool { running: false, throttle_actual: zero(), ..state })
    } else if !state.running && !fire {
        Ok(state)
    } else if !state.running && state.shots_remaining == Some(0u32) {
        Err(bad_command("motor already burned"))
    } else {
        let shots = if state.running {
            state.shots_remaining
        } else {
            match state.shots_remaining {
                Some(shots) => Some((shots - 1) as u32),
                None => None,
            }
        };
        let elapsed = (state.burn_elapsed_s + dt_s).min(burn_time_s);
        let spent = elapsed >= burn_time_s;
        Ok(
            EngineSpool {
                running: !spent,
                throttle_actual: if spent {
                    zero()
                } else {
                    whole(1)
                },
                shots_remaining: shots,
                burn_elapsed_s: elapsed,
            },
        )
    }
}

/// The next live state under a throttle command.
pub open spec fn next_spool<M: Numerics>(
    math: &M,
    engine: &CompiledEngine,
    state: EngineSpool,
    throttle_cmd: F64,
    dt_s: F64,
) -> Result<EngineSpool, Fault> {
    if !in_unit_interval(throttle_cmd) {
        Err(bad_command("throttle command must be finite in [0, 1]"))
    } else if !dt_s.is_finite() || dt_s < zero() {
        Err(bad_command("spool dt must be finite and >= 0"))
    } else {
        match engine {
            CompiledEngine::Liquid(liquid) => {
                let target = if throttle_cmd.same(zero()) {
                    zero()
                } else {
                    throttle_cmd.max(engine.throttle_range().0)
                };
                next_liquid(math, state, target, dt_s, liquid.spool_tau_s)
            },
            CompiledEngine::Solid(solid) => if !throttle_cmd.same(zero()) && !throttle_cmd.same(whole(1)) {
                Err(bad_command("solid throttle commands are 0 (safe) or 1 (fire)"))
            } else {
                next_solid(state, !throttle_cmd.same(zero()), dt_s, solid.burn_time_s)
            },
        }
    }
}

/// Takes one ignition shot; `None` when none is left.
fn take_shot(shots_remaining: Option<u32>) -> (r: Option<Option<u32>>)
    ensures
        r is None <==> shots_remaining == Some(0u32),
        r is Some ==> r->0 == match shots_remaining {
            Some(shots) => Some((shots - 1) as u32),
            None => None,
        },
{
    match shots_remaining {
        None => Some(None),
        Some(shots) => if shots == 0 {
            None
        } else {
            Some(Some(shots - 1))
        },
    }
}

/// Advances live state toward a throttle command over `dt_s`: first-order spool
/// lag for liquids, ballistic ignition and burn clock for solids.
pub fn advance_spool<M: Numerics>(
    math: &M,
    engine: &CompiledEngine,
    state: EngineSpool,
    throttle_cmd: F64,
    dt_s: F64,
) -> (r: Result<
    EngineSpool,
    PropulsionError,
>)
    ensures
        repeatable(math) ==> seen(r) == next_spool(math, engine, state, throttle_cmd, dt_s),
        r is Err ==> seen(r) == next_spool(math, engine, state, throttle_cmd, dt_s),
        engine is Solid ==> seen(r) == next_spool(math, engine, state, throttle_cmd, dt_s),
{
    let mut state: EngineSpool = state;
    if !in_unit_interval(throttle_cmd) {
        return Err(invalid_command("throttle command must be finite in [0, 1]"));
    }
    if !dt_s.is_finite() || dt_s < zero() {
        return Err(invalid_command("spool dt must be finite and >= 0"));
    }
    match engine {
        CompiledEngine::Liquid(liquid) => {
            let floor: F64 = engine.throttle_range().0;
            let target: F64 = if throttle_cmd.same(zero()) {
                zero()
            } else {
                throttle_cmd.max(floor)
            };
            if !state.running {
                if target.same(zero()) {
                    state.throttle_actual = zero();
                    return Ok(state);
                }
                match take_shot(state.shots_remaining) {
                    None => {
                        return Err(invalid_command("no ignition shots remaining"));
                    },
                    Some(left) => {
                        state.shots_remaining = left;
                    },
                }
                state.running = true;
            } else if target.same(zero()) {
                state.running = false;
            }
            state.throttle_actual =
            settled(state.running, approach(math, state.throttle_actual, target, dt_s, liquid.spool_tau_s));
            Ok(state)
        },
        CompiledEngine::Solid(solid) => {
            if !throttle_cmd.same(zero()) && !throttle_cmd.same(whole(1)) {
                return Err(invalid_command("solid throttle commands are 0 (safe) or 1 (fire)"));
            }
            if state.burn_elapsed_s >= solid.burn_time_s {
                state.running = false;
                state.throttle_actual = zero();
                return Ok(state);
            }
            if !state.running {
                if throttle_cmd.same(zero()) {
                    return Ok(state);
                }
                match take_shot(state.shots_remaining) {
                    None => {
                        return Err(invalid_command("motor already burned"));
                    },
                    Some(left) => {
                        state.shots_remaining = left;
                    },
                }
                state.running = true;
            }
            state.throttle_actual = whole(1);
            state.burn_elapsed_s = (state.burn_elapsed_s + dt_s).min(solid.burn_time_s);
            if state.burn_elapsed_s >= solid.burn_time_s {
                state.running = false;
                state.throttle_actual = zero();
            }
            Ok(state)
        },
    }
}

} // verus!
