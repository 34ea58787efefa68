//! Ideal frozen-flow isentropic nozzle kernel and nozzle contour families.
use crate::constants::nozzle_efficiency;
use crate::error::{bad_spec, invalid_spec, seen, Fault, PropulsionError};
use crate::float::{big, dec, whole, zero, F64};
use crate::numerics::{ln, powf, repeatable, Numerics};
use crate::propellant::PropellantThermo;
use vstd::prelude::*;

verus! {

/// [`characteristic_velocity`] in contracts.
pub open spec fn characteristic_velocity_spec<M: Numerics>(math: &M, thermo: &PropellantThermo) -> F64 {
    let gamma = thermo.gamma;
    let gamma_fn = gamma.sqrt() * powf(
        math,
        whole(2) / (gamma + whole(1)),
        (gamma + whole(1)) / (whole(2) * (gamma - whole(1))),
    );
    (thermo.gas_constant_j_kg_k * thermo.chamber_temp_k).sqrt() / gamma_fn
}

/// Characteristic velocity c* = sqrt(R*Tc) / Gamma (m/s).
#[verifier::when_used_as_spec(characteristic_velocity_spec)]
pub fn characteristic_velocity<M: Numerics>(math: &M, thermo: &PropellantThermo) -> (r: F64)
    ensures
        repeatable(math) ==> r == characteristic_velocity(math, thermo),
{
    let gamma = thermo.gamma;
    let gamma_fn = gamma.sqrt() * powf(
        math,
        whole(2) / (gamma + whole(1)),
        (gamma + whole(1)) / (whole(2) * (gamma - whole(1))),
    );
    (thermo.gas_constant_j_kg_k * thermo.chamber_temp_k).sqrt() / gamma_fn
}

/// [`area_ratio_from_mach`] in contracts.
pub open spec fn area_ratio_from_mach_spec<M: Numerics>(math: &M, gamma: F64, mach: F64) -> F64 {
    let term = (whole(2) / (gamma + whole(1))) * (whole(1) + (gamma - whole(1)) / whole(2) * mach * mach);
    powf(math, term, (gamma + whole(1)) / (whole(2) * (gamma - whole(1)))) / mach
}

/// Supersonic area ratio A/A* for a Mach number (isentropic).
#[verifier::when_used_as_spec(area_ratio_from_mach_spec)]
pub fn area_ratio_from_mach<M: Numerics>(math: &M, gamma: F64, mach: F64) -> (r: F64)
    ensures
        repeatable(math) ==> r == area_ratio_from_mach(math, gamma, mach),
{
    let term = (whole(2) / (gamma + whole(1))) * (whole(1) + (gamma - whole(1)) / whole(2) * mach * mach);
    powf(math, term, (gamma + whole(1)) / (whole(2) * (gamma - whole(1)))) / mach
}

/// What one Newton step on the logarithm of the area ratio comes to.
pub enum NewtonStep {
    /// The residual has vanished.
    Converged,
    /// The next Mach number to try.
    Next(F64),
    /// The step is unusable: bisection takes over.
    Stuck,
}

/// One Newton step from `mach`, with a central difference for the slope.
pub open spec fn newton_step_spec<M: Numerics>(math: &M, gamma: F64, target: F64, mach: F64) -> NewtonStep {
    let residual = ln(math, area_ratio_from_mach(math, gamma, mach)) - target;
    if residual.abs() < dec(1, 13) {
        NewtonStep::Converged
    } else {
        let step = dec(1, 6) * mach.max(whole(1));
        let slope = (ln(math, area_ratio_from_mach(math, gamma, mach + step)) - ln(
            math,
            area_ratio_from_mach(math, gamma, mach - step),
        )) / (whole(2) * step);
        if !slope.is_finite() || slope.same(zero()) {
            NewtonStep::Stuck
        } else {
            let next = mach - residual / slope;
            if !next.is_finite() || next <= whole(1) {
                NewtonStep::Stuck
            } else {
                NewtonStep::Next(next)
            }
        }
    }
}

fn newton_step<M: Numerics>(math: &M, gamma: F64, target: F64, mach: F64) -> (r: NewtonStep)
    ensures
        repeatable(math) ==> r == newton_step_spec(math, gamma, target, mach),
{
    let residual = ln(math, area_ratio_from_mach(math, gamma, mach)) - target;
    if residual.abs() < dec(1, 13) {
        return NewtonStep::Converged;
    }
    let step = dec(1, 6) * mach.max(whole(1));
    let slope = (ln(math, area_ratio_from_mach(math, gamma, mach + step)) - ln(
        math,
        area_ratio_from_mach(math, gamma, mach - step),
    )) / (whole(2) * step);
    if !slope.is_finite() || slope.same(zero()) {
        return NewtonStep::Stuck;
    }
    let next = mach - residual / slope;
    if !next.is_finite() || next <= whole(1) {
        return NewtonStep::Stuck;
    }
    NewtonStep::Next(next)
}

/// The Mach number that at most `tries` Newton steps converge to.
pub open spec fn newton<M: Numerics>(math: &M, gamma: F64, target: F64, mach: F64, tries: nat) -> Option<F64>
    decreases tries,
{
    if tries == 0 {
        None
    } else {
        match newton_step_spec(math, gamma, target, mach) {
            NewtonStep::Converged => Some(mach),
            NewtonStep::Stuck => None,
            NewtonStep::Next(next) => newton(math, gamma, target, next, (tries - 1) as nat),
        }
    }
}

fn run_newton<M: Numerics>(math: &M, gamma: F64, target: F64, start: F64) -> (r: Option<F64>)
    ensures
        repeatable(math) ==> r == newton(math, gamma, target, start, 64),
{
    let mut mach: F64 = start;
    let mut tries: u32 = 64;
    while tries > 0
        invariant
            tries <= 64,
            repeatable(math) ==> newton(math, gamma, target, start, 64) == newton(math, gamma, target, mach, tries as nat),
        decreases tries,
    {
        match newton_step(math, gamma, target, mach) {
            NewtonStep::Converged => {
                return Some(mach);
            },
            NewtonStep::Stuck => {
                return None;
            },
            NewtonStep::Next(next) => {
                mach = next;
                tries = tries - 1;
            },
        }
    }
    None
}

/// [`falls_short`] in contracts.
pub open spec fn falls_short_spec<M: Numerics>(math: &M, gamma: F64, target: F64, mach: F64) -> bool {
    ln(math, area_ratio_from_mach(math, gamma, mach)) < target
}

/// Whether the area ratio at `mach` is still below the target.
#[verifier::when_used_as_spec(falls_short_spec)]
pub fn falls_short<M: Numerics>(math: &M, gamma: F64, target: F64, mach: F64) -> (r: bool)
    ensures
        repeatable(math) ==> r == falls_short(math, gamma, target, mach),
{
    ln(math, area_ratio_from_mach(math, gamma, mach)) < target
}

/// The first of `high`, its double, its fourfold, ... whose area ratio reaches
/// the target, unless a millionfold Mach number comes first.
pub open spec fn bracket<M: Numerics>(math: &M, gamma: F64, target: F64, high: F64, doublings: nat) -> Option<F64>
    decreases doublings,
{
    if !falls_short(math, gamma, target, high) {
        Some(high)
    } else if doublings == 0 || high * whole(2) > big(1, 6) {
        None
    } else {
        bracket(math, gamma, target, high * whole(2), (doublings - 1) as nat)
    }
}

/// The half of `low..high` that holds the root.
pub open spec fn halved<M: Numerics>(math: &M, gamma: F64, target: F64, span: (F64, F64)) -> (F64, F64) {
    let mid = dec(5, 1) * (span.0 + span.1);
    if falls_short(math, gamma, target, mid) {
        (mid, span.1)
    } else {
        (span.0, mid)
    }
}

/// The bracket after `n` halvings.
pub open spec fn halvings<M: Numerics>(math: &M, gamma: F64, target: F64, span: (F64, F64), n: nat) -> (F64, F64)
    decreases n,
{
    if n == 0 {
        span
    } else {
        halved(math, gamma, target, halvings(math, gamma, target, span, (n - 1) as nat))
    }
}

/// Supersonic exit Mach for an expansion ratio: Newton iteration on the log
/// residual, with bisection where it does not converge.
pub open spec fn solved_mach<M: Numerics>(math: &M, gamma: F64, expansion_ratio: F64) -> Result<F64, Fault> {
    if !(gamma > whole(1)) || !(expansion_ratio >= whole(1)) {
        Err(bad_spec("gamma must be > 1 and expansion ratio >= 1"))
    } else if expansion_ratio.same(whole(1)) {
        Ok(whole(1))
    } else {
        let target = ln(math, expansion_ratio);
        let start = (whole(2) + ln(math, expansion_ratio)).max(dec(15, 1));
        match newton(math, gamma, target, start, 64) {
            Some(mach) => Ok(mach),
            None => match bracket(math, gamma, target, whole(2), 20) {
                None => Err(bad_spec("expansion ratio out of range")),
                Some(high) => {
                    let span = halvings(math, gamma, target, (whole(1), high), 200);
                    Ok(dec(5, 1) * (span.0 + span.1))
                },
            },
        }
    }
}

/// Supersonic exit Mach for an expansion ratio.
pub fn mach_from_area_ratio<M: Numerics>(
    math: &M,
    gamma: F64,
    expansion_ratio: F64,
) -> (r: Result<F64, PropulsionError>)
    ensures
        repeatable(math) ==> seen(r) == solved_mach(math, gamma, expansion_ratio),
        !(gamma > whole(1)) || !(expansion_ratio >= whole(1)) || expansion_ratio.same(whole(1)) ==> seen(r) == solved_mach(
            math,
            gamma,
            expansion_ratio,
        ),
        r is Err ==> r->Err_0 is InvalidSpec,
{
    if !(gamma > whole(1)) || !(expansion_ratio >= whole(1)) {
        return Err(invalid_spec("gamma must be > 1 and expansion ratio >= 1"));
    }
    if expansion_ratio.same(whole(1)) {
        return Ok(whole(1));
    }
    let target: F64 = ln(math, expansion_ratio);
    let start: F64 = (whole(2) + ln(math, expansion_ratio)).max(dec(15, 1));
    match run_newton(math, gamma, target, start) {
        Some(mach) => {
            return Ok(mach);
        },
        None => {},
    }
    // Bisection on a bracket that holds the root for every ratio in range.
    match find_bracket(math, gamma, target) {
        None => Err(invalid_spec("expansion ratio out of range")),
        Some(high) => {
            let span: (F64, F64) = bisect(math, gamma, target, high);
            Ok(dec(5, 1) * (span.0 + span.1))
        },
    }
}

/// Doubles an upper bound from Mach 2 until it holds the root; 2^20 is above the limit.
fn find_bracket<M: Numerics>(math: &M, gamma: F64, target: F64) -> (r: Option<F64>)
    ensures
        repeatable(math) ==> r == bracket(math, gamma, target, whole(2), 20),
{
    let mut high: F64 = whole(2);
    let mut doublings: u32 = 20;
    while falls_short(math, gamma, target, high)
        invariant
            doublings <= 20,
            repeatable(math) ==> bracket(math, gamma, target, whole(2), 20) == bracket(
                math,
                gamma,
                target,
                high,
                doublings as nat,
            ),
        ensures
            repeatable(math) ==> bracket(math, gamma, target, whole(2), 20) == Some(high),
        decreases doublings,
    {
        if doublings == 0 || high * whole(2) > big(1, 6) {
            return None;
        }
        high = high * whole(2);
        doublings = doublings - 1;
    }
    Some(high)
}

fn bisect<M: Numerics>(math: &M, gamma: F64, target: F64, high: F64) -> (r: (F64, F64))
    ensures
        repeatable(math) ==> r == halvings(math, gamma, target, (whole(1), high), 200),
{
    let mut span: (F64, F64) = (whole(1), high);
    let mut n: u32 = 0;
    while n < 200
        invariant
            n <= 200,
            repeatable(math) ==> span == halvings(math, gamma, target, (whole(1), high), n as nat),
        decreases 200 - n,
    {
        let mid: F64 = dec(5, 1) * (span.0 + span.1);
        span = if falls_short(math, gamma, target, mid) {
            (mid, span.1)
        } else {
            (span.0, mid)
        };
        n = n + 1;
    }
    span
}

/// Exit-plane state for an expansion ratio at chamber conditions.
#[derive(Debug, Clone, Copy, PartialEq)]
pub struct NozzleExitState {
    pub exit_mach: F64,
    /// Exit-to-chamber pressure ratio.
    pub exit_pressure_ratio: F64,
    /// Exit static temperature (K).
    pub exit_temp_k: F64,
    /// Exhaust velocity at full expansion (m/s).
    pub exhaust_velocity_mps: F64,
}

/// [`pressure_ratio_at`] in contracts.
pub open spec fn pressure_ratio_at_spec<M: Numerics>(math: &M, gamma: F64, exit_mach: F64) -> F64 {
    powf(
        math,
        whole(1) + (gamma - whole(1)) / whole(2) * exit_mach * exit_mach,
        gamma.negate() / (gamma - whole(1)),
    )
}

/// Exit-to-chamber pressure ratio at an exit Mach number (isentropic).
#[verifier::when_used_as_spec(pressure_ratio_at_spec)]
pub fn pressure_ratio_at<M: Numerics>(math: &M, gamma: F64, exit_mach: F64) -> (r: F64)
    ensures
        repeatable(math) ==> r == pressure_ratio_at(math, gamma, exit_mach),
{
    powf(
        math,
        whole(1) + (gamma - whole(1)) / whole(2) * exit_mach * exit_mach,
        gamma.negate() / (gamma - whole(1)),
    )
}

/// [`exit_state_at`] in contracts.
pub open spec fn exit_state_at_spec<M: Numerics>(
    math: &M,
    thermo: &PropellantThermo,
    exit_mach: F64,
) -> NozzleExitState {
    let exit_pressure_ratio = pressure_ratio_at(math, thermo.gamma, exit_mach);
    let exit_temp_k = thermo.chamber_temp_k / (whole(1) + (thermo.gamma - whole(1)) / whole(2) * exit_mach * exit_mach);
    let exhaust_velocity_mps = exit_mach * (thermo.gamma * thermo.gas_constant_j_kg_k * exit_temp_k).sqrt();
    NozzleExitState { exit_mach, exit_pressure_ratio, exit_temp_k, exhaust_velocity_mps }
}

/// Exit-plane state at an exit Mach number.
#[verifier::when_used_as_spec(exit_state_at_spec)]
pub fn exit_state_at<M: Numerics>(math: &M, thermo: &PropellantThermo, exit_mach: F64) -> (r: NozzleExitState)
    ensures
        repeatable(math) ==> r == exit_state_at(math, thermo, exit_mach),
{
    let exit_pressure_ratio = pressure_ratio_at(math, thermo.gamma, exit_mach);
    let exit_temp_k = thermo.chamber_temp_k / (whole(1) + (thermo.gamma - whole(1)) / whole(2) * exit_mach * exit_mach);
    let exhaust_velocity_mps = exit_mach * (thermo.gamma * thermo.gas_constant_j_kg_k * exit_temp_k).sqrt();
    NozzleExitState { exit_mach, exit_pressure_ratio, exit_temp_k, exhaust_velocity_mps }
}

/// Exit-plane state for an expansion ratio, where the ratio can be solved.
pub open spec fn exit_for<M: Numerics>(
    math: &M,
    thermo: &PropellantThermo,
    expansion_ratio: F64,
) -> Result<NozzleExitState, Fault> {
    match solved_mach(math, thermo.gamma, expansion_ratio) {
        Ok(exit_mach) => Ok(exit_state_at(math, thermo, exit_mach)),
        Err(fault) => Err(fault),
    }
}

/// Exit-plane state for an expansion ratio.
pub fn nozzle_exit<M: Numerics>(
    math: &M,
    thermo: &PropellantThermo,
    expansion_ratio: F64,
) -> (r: Result<NozzleExitState, PropulsionError>)
    ensures
        repeatable(math) ==> seen(r) == exit_for(math, thermo, expansion_ratio),
        r is Err ==> r->Err_0 is InvalidSpec,
{
    let exit_mach: F64 = mach_from_area_ratio(math, thermo.gamma, expansion_ratio)?;
    Ok(exit_state_at(math, thermo, exit_mach))
}

/// [`thrust_coefficient`] in contracts.
pub open spec fn thrust_coefficient_spec<M: Numerics>(
    math: &M,
    thermo: &PropellantThermo,
    chamber_pa: F64,
    exit: &NozzleExitState,
    expansion_ratio: F64,
    ambient_pa: F64,
    divergence_factor: F64,
) -> F64 {
    let gamma = thermo.gamma;
    let momentum = divergence_factor * nozzle_efficiency() * ((whole(2) * gamma * gamma / (gamma - whole(1))) * powf(
        math,
        whole(2) / (gamma + whole(1)),
        (gamma + whole(1)) / (gamma - whole(1)),
    ) * (whole(1) - powf(math, exit.exit_pressure_ratio, (gamma - whole(1)) / gamma))).sqrt();
    let exit_pa = exit.exit_pressure_ratio * chamber_pa;
    momentum + (exit_pa - ambient_pa) / chamber_pa * expansion_ratio
}

/// Ideal thrust coefficient for chamber pressure `chamber_pa`, exit state,
/// expansion ratio, ambient pressure, and geometric divergence factor.
#[verifier::when_used_as_spec(thrust_coefficient_spec)]
pub fn thrust_coefficient<M: Numerics>(
    math: &M,
    thermo: &PropellantThermo,
    chamber_pa: F64,
    exit: &NozzleExitState,
    expansion_ratio: F64,
    ambient_pa: F64,
    divergence_factor: F64,
) -> (r: F64)
    ensures
        repeatable(math) ==> r == thrust_coefficient(math, thermo, chamber_pa, exit, expansion_ratio, ambient_pa, divergence_factor),
{
    let gamma = thermo.gamma;
    let momentum = divergence_factor * nozzle_efficiency() * ((whole(2) * gamma * gamma / (gamma - whole(1))) * powf(
        math,
        whole(2) / (gamma + whole(1)),
        (gamma + whole(1)) / (gamma - whole(1)),
    ) * (whole(1) - powf(math, exit.exit_pressure_ratio, (gamma - whole(1)) / gamma))).sqrt();
    let exit_pa = exit.exit_pressure_ratio * chamber_pa;
    momentum + (exit_pa - ambient_pa) / chamber_pa * expansion_ratio
}

/// Nozzle contour family. Bell and cone derive the divergence factor from wall
/// geometry; the bell recovers half the residual divergence loss. The aerospike
/// compensates for altitude: its free jet boundary adapts to ambient, which eats
/// only the base area.
#[derive(Debug, Clone, Copy, PartialEq, Eq, Hash, Structural)]
pub enum NozzleContour {
    Conical,
    Bell,
    Aerospike,
}

} // verus!
