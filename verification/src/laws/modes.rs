//! Mode discipline of the combined cycle, and what a mounted jet threads forward.
use crate::air::FlightCondition;
use crate::constants::standard_gravity_mps2;
use crate::error::{bad_command, Fault};
use crate::estoc::{lerp, CompiledEstoc, ConditionedPoint, EstocMode, EstocPoint, EstocTransient};
use crate::float::decimals::lemma_decimal;
use crate::float::exact::{lemma_add_zero, lemma_sub_self, lemma_vanishing};
use crate::float::{lemma_one, whole, zero, F64};
use crate::float::nearness::lemma_parts;
use crate::float::order::{
    lemma_between_not_negative, lemma_finite_difference, lemma_finite_less, lemma_less, lemma_shares_add,
    lemma_sub_order,
};
use crate::jet::{JetCommand, JetMount};
use crate::numerics::{exp, Numerics};
use crate::shaft::JetShaftState;
use vstd::prelude::*;

verus! {

/// Manual selection always wins; at zero throttle the mode otherwise stays what it was.
pub proof fn lemma_manual_wins<M: Numerics>(
    engine: &CompiledEstoc,
    math: &M,
    condition: &FlightCondition,
    throttle: F64,
    manual: Option<EstocMode>,
    last_mode: EstocMode,
    prev: Option<EstocTransient>,
    dt_s: F64,
    shaft: JetShaftState,
    result: (EstocPoint, EstocTransient),
)
    requires
        engine.point(math, condition, throttle, manual, last_mode, prev, dt_s, shaft) == Ok::<
            (EstocPoint, EstocTransient),
            Fault,
        >(result),
    ensures
        manual is Some ==> result.0.mode == manual->0,
        manual is None && throttle.same(zero()) ==> result.0.mode == last_mode,
{
}

/// The reported point is the transition state: every flow of the one is that of the
/// other, and the specific impulse is their thrust over their propellant weight, in
/// the middle of a transition too.
pub proof fn lemma_bookkeeping<M: Numerics>(
    engine: &CompiledEstoc,
    math: &M,
    condition: &FlightCondition,
    throttle: F64,
    manual: Option<EstocMode>,
    last_mode: EstocMode,
    prev: Option<EstocTransient>,
    dt_s: F64,
    shaft: JetShaftState,
    result: (EstocPoint, EstocTransient),
)
    requires
        engine.point(math, condition, throttle, manual, last_mode, prev, dt_s, shaft) == Ok::<
            (EstocPoint, EstocTransient),
            Fault,
        >(result),
    ensures
        ({
            let (point, state) = result;
            let propellant = point.fuel_flow_kg_s + point.oxidizer_flow_kg_s;
            &&& point.thrust_n == state.thrust_n
            &&& point.fuel_flow_kg_s == state.fuel_flow_kg_s
            &&& point.oxidizer_flow_kg_s == state.oxidizer_flow_kg_s
            &&& point.air_flow_kg_s == state.air_flow_kg_s
            &&& point.precooler_wall_temp_k == state.precooler_wall_temp_k
            &&& propellant > zero() ==> point.isp_total_s == point.thrust_n / (propellant * standard_gravity_mps2())
            &&& !(propellant > zero()) ==> point.isp_total_s == zero()
        }),
{
    lemma_one();
    lemma_add_zero(zero(), zero());
}

/// At zero throttle nothing flows and nothing pushes.
pub proof fn lemma_shut_down<M: Numerics>(
    engine: &CompiledEstoc,
    math: &M,
    condition: &FlightCondition,
    throttle: F64,
    manual: Option<EstocMode>,
    last_mode: EstocMode,
    prev: Option<EstocTransient>,
    dt_s: F64,
    shaft: JetShaftState,
    result: (EstocPoint, EstocTransient),
)
    requires
        throttle.same(zero()),
        engine.point(math, condition, throttle, manual, last_mode, prev, dt_s, shaft) == Ok::<
            (EstocPoint, EstocTransient),
            Fault,
        >(result),
    ensures
        result.0.thrust_n == zero(),
        result.0.fuel_flow_kg_s == zero(),
        result.0.oxidizer_flow_kg_s == zero(),
        result.0.air_flow_kg_s == zero(),
{
}

/// A fresh start lands on the target of its mode; of the air and rocket paths only one
/// is fed: the rocket takes in no air, and the air path no oxidizer.
pub proof fn lemma_fresh_start<M: Numerics>(
    engine: &CompiledEstoc,
    math: &M,
    condition: &FlightCondition,
    throttle: F64,
    manual: Option<EstocMode>,
    last_mode: EstocMode,
    dt_s: F64,
    shaft: JetShaftState,
    result: (EstocPoint, EstocTransient),
    cooled: ConditionedPoint,
)
    requires
        !throttle.same(zero()),
        engine.point(math, condition, throttle, manual, last_mode, None, dt_s, shaft) == Ok::<
            (EstocPoint, EstocTransient),
            Fault,
        >(result),
        engine.conditioned(math, condition, throttle, shaft, None, dt_s) == Ok::<ConditionedPoint, Fault>(cooled),
    ensures
        engine.target(math, result.0.mode, condition, throttle, cooled, None) == Ok::<EstocTransient, Fault>(result.1),
        result.0.mode == EstocMode::Rocket ==> result.0.air_flow_kg_s == zero(),
        result.0.mode == EstocMode::Air ==> result.0.oxidizer_flow_kg_s == zero() && zero() <= result.0.thrust_n,
{
    lemma_one();
    lemma_parts(cooled.point.thrust_n);
}

/// Flows and thrust that are numbers and not negative.
pub open spec fn flows_forward(state: &EstocTransient) -> bool {
    &&& zero() <= state.thrust_n && state.thrust_n.is_finite()
    &&& zero() <= state.fuel_flow_kg_s && state.fuel_flow_kg_s.is_finite()
    &&& zero() <= state.oxidizer_flow_kg_s && state.oxidizer_flow_kg_s.is_finite()
    &&& zero() <= state.air_flow_kg_s && state.air_flow_kg_s.is_finite()
}

/// A transition never turns a flow around: between two states that flow forward, thrust
/// and flows are not negative, and without time passing they stay what they were. The
/// host's decay must be a share, and all of it where no time passes.
pub proof fn lemma_transition<M: Numerics>(
    engine: &CompiledEstoc,
    math: &M,
    target: EstocTransient,
    previous: EstocTransient,
    dt_s: F64,
)
    requires
        flows_forward(&target),
        flows_forward(&previous),
        ({
            let decay = exp(math, dt_s.negate() / engine.transition_tau_s);
            zero() <= decay && decay <= whole(1)
        }),
    ensures
        ({
            let state = engine.smoothed(math, target, Some(previous), dt_s);
            &&& zero() <= state.thrust_n
            &&& zero() <= state.fuel_flow_kg_s
            &&& zero() <= state.oxidizer_flow_kg_s
            &&& zero() <= state.air_flow_kg_s
            &&& exp(math, dt_s.negate() / engine.transition_tau_s) == whole(1) ==> {
                &&& state.thrust_n.same(previous.thrust_n)
                &&& state.fuel_flow_kg_s.same(previous.fuel_flow_kg_s)
                &&& state.oxidizer_flow_kg_s.same(previous.oxidizer_flow_kg_s)
                &&& state.air_flow_kg_s.same(previous.air_flow_kg_s)
            }
        }),
{
    let decay = exp(math, dt_s.negate() / engine.transition_tau_s);
    lemma_channel(previous.thrust_n, target.thrust_n, decay);
    lemma_channel(previous.fuel_flow_kg_s, target.fuel_flow_kg_s, decay);
    lemma_channel(previous.oxidizer_flow_kg_s, target.oxidizer_flow_kg_s, decay);
    lemma_channel(previous.air_flow_kg_s, target.air_flow_kg_s, decay);
}

/// One channel of a transition.
proof fn lemma_channel(old: F64, new: F64, decay: F64)
    requires
        zero() <= old,
        old.is_finite(),
        zero() <= new,
        new.is_finite(),
        zero() <= decay,
        decay <= whole(1),
    ensures
        zero() <= lerp(old, new, whole(1) - decay),
        decay == whole(1) ==> lerp(old, new, whole(1) - decay).same(old),
{
    lemma_one();
    lemma_shares_add(decay, decay);
    lemma_parts(whole(1));
    lemma_finite_difference(whole(1), decay);
    lemma_parts(whole(1) - decay);
    lemma_sub_self(whole(1));
    lemma_finite_less(whole(1), whole(1));
    lemma_finite_less(whole(1), decay);
    lemma_sub_order(decay, whole(1), whole(1));
    lemma_less(whole(1), decay);
    lemma_between_not_negative(old, new, whole(1) - decay);
    if decay == whole(1) {
        lemma_finite_difference(new, old);
        lemma_vanishing(new - old, zero());
        lemma_add_zero(old, (new - old) * zero());
        lemma_parts(old + (new - old) * zero());
        lemma_parts(old);
    }
}

/// Without a manual selection the air path is chosen only where it carries itself; in
/// air without oxygen it never is, and without an ejector the rocket takes over.
pub proof fn lemma_automatic_air<M: Numerics>(
    engine: &CompiledEstoc,
    math: &M,
    condition: &FlightCondition,
    throttle: F64,
    last_mode: EstocMode,
    prev: Option<EstocTransient>,
    dt_s: F64,
    shaft: JetShaftState,
    result: (EstocPoint, EstocTransient),
    cooled: ConditionedPoint,
)
    requires
        !throttle.same(zero()),
        engine.point(math, condition, throttle, None, last_mode, prev, dt_s, shaft) == Ok::<
            (EstocPoint, EstocTransient),
            Fault,
        >(result),
        engine.conditioned(math, condition, throttle, shaft, prev, dt_s) == Ok::<ConditionedPoint, Fault>(cooled),
    ensures
        result.0.mode == EstocMode::Air ==> engine.air_viable(condition, &cooled.point),
        result.0.mode == EstocMode::Air ==> condition.mach < engine.switch_mach_hi || engine.switch_mach_hi.is_nan()
            || condition.mach.is_nan(),
        last_mode == EstocMode::Rocket && condition.mach > engine.switch_mach_lo ==> result.0.mode != EstocMode::Air,
        condition.composition.oxygen_mass_fraction.same(zero()) ==> result.0.mode != EstocMode::Air,
        condition.composition.oxygen_mass_fraction.same(zero()) && engine.ejector is None
            ==> result.0.mode == EstocMode::Rocket,
        condition.ambient_pa.same(zero()) ==> result.0.mode != EstocMode::Air,
        result.0.mode == EstocMode::Ejector ==> engine.ejector is Some,
{
    lemma_one();
    lemma_decimal(1, 9);
}

/// The precooler wall never passes its temperature limit.
pub proof fn lemma_wall_limit<M: Numerics>(
    engine: &CompiledEstoc,
    math: &M,
    condition: &FlightCondition,
    throttle: F64,
    prev: Option<EstocTransient>,
    dt_s: F64,
    shaft: JetShaftState,
    cooled: ConditionedPoint,
)
    requires
        engine.is_ordered(),
        engine.precooler is Some,
        engine.conditioned(math, condition, throttle, shaft, prev, dt_s) == Ok::<ConditionedPoint, Fault>(cooled),
    ensures
        cooled.wall_temp_k <= engine.precooler->0.wall_max_temp_k,
{
    let precooler = engine.precooler->0;
    let prior = engine.prior_wall_temp_k(&precooler, prev);
    if prev is Some {
        lemma_parts(prev->0.precooler_wall_temp_k);
    }
    assert(prior <= precooler.wall_max_temp_k);
}

/// What a mounted jet hands on agrees: the transition state books the point's flows,
/// and the shaft is the advanced one, or a running one on a cycle without a shaft.
pub proof fn lemma_jet_threads<M: Numerics>(
    mount: &JetMount,
    math: &M,
    throttle: F64,
    condition: &FlightCondition,
    jet: &JetCommand,
    advanced: Result<JetShaftState, Fault>,
    result: (EstocPoint, EstocTransient, JetShaftState),
)
    requires
        mount.point(math, throttle, condition, jet, advanced) == Ok::<
            (EstocPoint, EstocTransient, JetShaftState),
            Fault,
        >(result),
    ensures
        result.0.thrust_n == result.1.thrust_n,
        result.0.fuel_flow_kg_s == result.1.fuel_flow_kg_s,
        result.0.air_flow_kg_s == result.1.air_flow_kg_s,
        mount.engine.air().cycle.has_shaft() ==> advanced == Ok::<JetShaftState, Fault>(result.2),
        !mount.engine.air().cycle.has_shaft() ==> result.2.spool_n == JetShaftState::running(
            &mount.engine.air(),
        ).spool_n && !jet.starter_engaged,
        mount.engine is Air ==> result.0.mode == EstocMode::Air && zero() <= result.0.thrust_n,
        ({
            let next = jet.with_state(&result.0, result.1, result.2);
            &&& next.last_mode == result.0.mode
            &&& next.prev == Some(result.1)
            &&& next.shaft == result.2
            &&& next.manual == jet.manual
            &&& next.dt_s == jet.dt_s
        }),
{
    lemma_one();
    lemma_parts(result.0.thrust_n);
}

/// A cycle without a shaft takes neither starter nor generator commands.
pub proof fn lemma_passive_refuses_accessories<M: Numerics>(
    mount: &JetMount,
    math: &M,
    throttle: F64,
    condition: &FlightCondition,
    jet: &JetCommand,
    advanced: Result<JetShaftState, Fault>,
)
    requires
        mount.fault() is None,
        !mount.engine.air().cycle.has_shaft(),
        jet.starter_engaged || !jet.generator_load_w.same(zero()),
    ensures
        mount.point(math, throttle, condition, jet, advanced) == Err::<
            (EstocPoint, EstocTransient, JetShaftState),
            Fault,
        >(bad_command("ramjet/scramjet mounts do not accept starter or generator commands")),
{
}

} // verus!
