//! Jet mounts: air-breathers and combined cycles installed on a vehicle with body
//! stations, thrust axes, and gimbal ranges. Runtime evaluation is a pure function
//! of throttle, flight condition, and threaded state: the mount stores none.
use crate::air::{AirOperatingPoint, CompiledAirbreather, FlightCondition};
use crate::engine::EnginePlumeState;
use crate::error::{bad_command, bad_spec, checks, invalid_command, invalid_spec, outcome, seen, Fault, PropulsionError};
use crate::estoc::{air_snapshot, point_of, CompiledEstoc, EstocMode, EstocPoint, EstocTransient};
use crate::float::{dec, largest, pi, whole, zero, F64};
use crate::mount::{gimbal_pair, GimbalEffector};
use crate::numerics::{repeatable, Numerics};
use crate::shaft::{JetShaftState, ShaftBalance};
use crate::text::{blank, is_blank};
use crate::vector::Vector;
use vstd::prelude::*;

verus! {

/// One installed jet of either family.
#[derive(Debug, Clone, PartialEq)]
pub enum CompiledJet {
    Air(Box<CompiledAirbreather>),
    Estoc(Box<CompiledEstoc>),
}

impl CompiledJet {
    /// Display name.
    pub fn name(&self) -> (r: &str)
        ensures
            r@ == match *self {
                CompiledJet::Air(engine) => engine.name@,
                CompiledJet::Estoc(engine) => engine.name@,
            },
    {
        match self {
            CompiledJet::Air(engine) => engine.name.as_str(),
            CompiledJet::Estoc(engine) => engine.name.as_str(),
        }
    }

    /// [`Self::dry_mass_kg`] in contracts.
    pub open spec fn dry_mass_kg_spec(&self) -> F64 {
        match self {
            CompiledJet::Air(engine) => engine.dry_mass_kg,
            CompiledJet::Estoc(engine) => engine.dry_mass_kg,
        }
    }

    /// Dry mass in kg.
    #[verifier::when_used_as_spec(dry_mass_kg_spec)]
    pub fn dry_mass_kg(&self) -> (r: F64)
        ensures
            r == self.dry_mass_kg(),
    {
        match self {
            CompiledJet::Air(engine) => engine.dry_mass_kg,
            CompiledJet::Estoc(engine) => engine.dry_mass_kg,
        }
    }

    /// [`Self::spool_tau_s`] in contracts.
    pub open spec fn spool_tau_s_spec(&self) -> F64 {
        match self {
            CompiledJet::Air(engine) => engine.spool_tau_s,
            CompiledJet::Estoc(engine) => engine.air.spool_tau_s,
        }
    }

    /// Spool time constant of the air-path compressor (s).
    #[verifier::when_used_as_spec(spool_tau_s_spec)]
    pub fn spool_tau_s(&self) -> (r: F64)
        ensures
            r == self.spool_tau_s(),
    {
        match self {
            CompiledJet::Air(engine) => engine.spool_tau_s,
            CompiledJet::Estoc(engine) => engine.air.spool_tau_s,
        }
    }

    /// [`Self::transition_tau_s`] in contracts.
    pub open spec fn transition_tau_s_spec(&self) -> Option<F64> {
        match self {
            CompiledJet::Air(_) => None,
            CompiledJet::Estoc(engine) => Some(engine.transition_tau_s),
        }
    }

    /// Mode-transition lag (s); `None` for plain air-breathers.
    #[verifier::when_used_as_spec(transition_tau_s_spec)]
    pub fn transition_tau_s(&self) -> (r: Option<F64>)
        ensures
            r == self.transition_tau_s(),
    {
        match self {
            CompiledJet::Air(_) => None,
            CompiledJet::Estoc(engine) => Some(engine.transition_tau_s),
        }
    }

    /// The air-breather core.
    pub open spec fn air(&self) -> CompiledAirbreather {
        match self {
            CompiledJet::Air(engine) => **engine,
            CompiledJet::Estoc(engine) => engine.air,
        }
    }

    pub fn air_engine(&self) -> (r: &CompiledAirbreather)
        ensures
            *r == self.air(),
    {
        match self {
            CompiledJet::Air(engine) => engine,
            CompiledJet::Estoc(engine) => &engine.air,
        }
    }

    /// Whether the precooler wall, if there is one, starts within its limit.
    pub open spec fn is_ordered(&self) -> bool {
        match self {
            CompiledJet::Air(_) => true,
            CompiledJet::Estoc(engine) => engine.is_ordered(),
        }
    }
}

/// Jet command threading for stateless calls: manual override, last mode, previous
/// transient, timestep, and the live shaft state.
#[derive(Debug, Clone, Copy, PartialEq)]
pub struct JetCommand {
    pub manual: Option<EstocMode>,
    pub last_mode: EstocMode,
    /// Previous transition snapshot; `None` evaluates the fresh target.
    pub prev: Option<EstocTransient>,
    pub dt_s: F64,
    /// Live shaft state feeding the air path.
    pub shaft: JetShaftState,
    /// Starter engagement request for this step.
    pub starter_engaged: bool,
    /// Requested electrical generator load (W) for this step.
    pub generator_load_w: F64,
}

impl JetCommand {
    /// [`fresh`] in contracts.
    pub open spec fn fresh_spec() -> JetCommand {
        JetCommand {
            manual: None,
            last_mode: EstocMode::Air,
            prev: None,
            dt_s: zero(),
            shaft: JetShaftState { spool_n: whole(1), lit: true, starter_charge_j: largest() },
            starter_engaged: false,
            generator_load_w: zero(),
        }
    }

    /// Fresh-start evaluation (direct target, no smoothing) with an already-running
    /// shaft. A running engine never spends starter energy, so the starter charge is
    /// the greatest double: untouched.
    #[verifier::when_used_as_spec(fresh_spec)]
    pub fn fresh() -> (r: JetCommand)
        ensures
            r == Self::fresh(),
    {
        JetCommand {
            manual: None,
            last_mode: EstocMode::Air,
            prev: None,
            dt_s: zero(),
            shaft: JetShaftState { spool_n: whole(1), lit: true, starter_charge_j: largest() },
            starter_engaged: false,
            generator_load_w: zero(),
        }
    }

    /// Cold-start command: stopped, unlit shaft at full starter charge.
    pub fn cold(engine: &CompiledJet) -> (r: JetCommand)
        ensures
            r == (JetCommand { shaft: JetShaftState::cold(&engine.air()), ..JetCommand::fresh() }),
    {
        JetCommand { shaft: JetShaftState::cold(engine.air_engine()), ..JetCommand::fresh() }
    }

    /// [`Self::with_state`] in contracts.
    pub open spec fn with_state_spec(
        &self,
        point: &EstocPoint,
        transient: EstocTransient,
        shaft: JetShaftState,
    ) -> JetCommand {
        JetCommand {
            manual: self.manual,
            last_mode: point.mode,
            prev: Some(transient),
            dt_s: self.dt_s,
            shaft,
            starter_engaged: self.starter_engaged,
            generator_load_w: self.generator_load_w,
        }
    }

    /// The command to use on the next tick after an operating-point evaluation.
    /// Manual selection and timestep are caller inputs; mode, transient and shaft are
    /// runtime state.
    #[verifier::when_used_as_spec(with_state_spec)]
    pub fn with_state(&self, point: &EstocPoint, transient: EstocTransient, shaft: JetShaftState) -> (r: JetCommand)
        ensures
            r == self.with_state(point, transient, shaft),
    {
        JetCommand {
            manual: self.manual,
            last_mode: point.mode,
            prev: Some(transient),
            dt_s: self.dt_s,
            shaft,
            starter_engaged: self.starter_engaged,
            generator_load_w: self.generator_load_w,
        }
    }
}

/// One jet installed on the airframe.
#[derive(Debug, Clone, PartialEq)]
pub struct JetMount {
    pub name: String,
    pub engine: CompiledJet,
    /// Nozzle station in vehicle body metres.
    pub position_body_m: Vector,
    /// Unit thrust direction in vehicle body axes (usually +X).
    pub thrust_axis_body: Vector,
    /// Gimbal half-range (rad, 0 = fixed).
    pub gimbal_range_rad: F64,
}

impl JetMount {
    /// What is wrong with the mount, if anything.
    pub open spec fn fault(&self) -> Option<Fault> {
        checks()
            .refuse(blank(self.name@), bad_spec("jet mount needs a name"))
            .refuse(!self.position_body_m.is_finite(), bad_spec("jet position must be finite"))
            .refuse(!self.thrust_axis_body.is_finite(), bad_spec("jet axis must be finite"))
            .refuse(!self.thrust_axis_body.is_unit(), bad_spec("jet axis must be unit length"))
            .refuse(
                !self.gimbal_range_rad.is_finite() || self.gimbal_range_rad < zero() || self.gimbal_range_rad > dec(35, 2),
                bad_spec("jet gimbal range must be finite in [0, 0.35]"),
            )
            .fault
    }

    /// Validates mount data (NaN fails closed; the axis must be unit).
    pub fn validate(&self) -> (r: Result<(), PropulsionError>)
        ensures
            seen(r) == outcome(self.fault()),
    {
        if is_blank(self.name.as_str()) {
            return Err(invalid_spec("jet mount needs a name"));
        }
        if !self.position_body_m.is_finite() {
            return Err(invalid_spec("jet position must be finite"));
        }
        if !self.thrust_axis_body.is_finite() {
            return Err(invalid_spec("jet axis must be finite"));
        }
        if !self.thrust_axis_body.is_unit() {
            return Err(invalid_spec("jet axis must be unit length"));
        }
        if !self.gimbal_range_rad.is_finite() || self.gimbal_range_rad < zero() || self.gimbal_range_rad > dec(35, 2) {
            return Err(invalid_spec("jet gimbal range must be finite in [0, 0.35]"));
        }
        Ok(())
    }

    /// [`air_result`] in contracts.
    pub open spec fn air_result_spec(
        point: AirOperatingPoint,
        shaft: JetShaftState,
    ) -> (EstocPoint, EstocTransient, JetShaftState) {
        let snapshot = air_snapshot(point, zero(), zero());
        (point_of(snapshot, EstocMode::Air, point.isp_s, false), snapshot, shaft)
    }

    /// The point, snapshot and shaft state of an air-path point.
    #[verifier::when_used_as_spec(air_result_spec)]
    pub fn air_result(
        point: AirOperatingPoint,
        shaft: JetShaftState,
    ) -> (r: (EstocPoint, EstocTransient, JetShaftState))
        ensures
            r == Self::air_result(point, shaft),
    {
        let snapshot = air_snapshot(point, zero(), zero());
        (point_of(snapshot, EstocMode::Air, point.isp_s, false), snapshot, shaft)
    }

    /// [`asks_accessories`] in contracts.
    pub open spec fn asks_accessories_spec(jet: &JetCommand) -> bool {
        jet.starter_engaged || !jet.generator_load_w.is_finite() || !jet.generator_load_w.same(zero())
    }

    /// Whether a command asks a passive cycle for shaft accessories.
    #[verifier::when_used_as_spec(asks_accessories_spec)]
    pub fn asks_accessories(jet: &JetCommand) -> (r: bool)
        ensures
            r == Self::asks_accessories(jet),
    {
        jet.starter_engaged || !jet.generator_load_w.is_finite() || !jet.generator_load_w.same(zero())
    }

    /// The full point, transition snapshot, and next shaft state, or what stops them;
    /// `advanced` is the shaft state that the command's step leads to.
    pub open spec fn point<M: Numerics>(
        &self,
        math: &M,
        throttle: F64,
        condition: &FlightCondition,
        jet: &JetCommand,
        advanced: Result<JetShaftState, Fault>,
    ) -> Result<(EstocPoint, EstocTransient, JetShaftState), Fault> {
        match self.fault() {
            Some(fault) => Err(fault),
            None => if !self.engine.air().cycle.has_shaft() {
                if JetMount::asks_accessories(jet) {
                    Err(bad_command("ramjet/scramjet mounts do not accept starter or generator commands"))
                } else {
                    match self.engine.air().steady(math, condition, throttle) {
                        Err(fault) => Err(fault),
                        Ok(point) => Ok(
                            JetMount::air_result(
                                point,
                                JetShaftState { lit: point.lit, ..JetShaftState::running(&self.engine.air()) },
                            ),
                        ),
                    }
                }
            } else {
                match advanced {
                    Err(fault) => Err(fault),
                    Ok(shaft) => match self.engine {
                        CompiledJet::Air(engine) => match engine.at_spool(
                            math,
                            condition,
                            throttle,
                            shaft.spool_n,
                            shaft.lit,
                            zero(),
                            None,
                        ) {
                            Err(fault) => Err(fault),
                            Ok((point, _)) => Ok(JetMount::air_result(point, shaft)),
                        },
                        CompiledJet::Estoc(engine) => match engine.point(
                            math,
                            condition,
                            throttle,
                            jet.manual,
                            jet.last_mode,
                            jet.prev,
                            jet.dt_s,
                            shaft,
                        ) {
                            Err(fault) => Err(fault),
                            Ok((point, transient)) => Ok((point, transient, shaft)),
                        },
                    },
                }
            },
        }
    }

    /// Full point, updated transition snapshot, and next shaft state. The shaft is
    /// advanced one command step first (`advanced` holds the outcome of that step),
    /// then the air path is evaluated at the resulting spool speed with `lit` as the
    /// ignition gate, so state, point, and mode agree. Thread all three forward with
    /// [`JetCommand::with_state`].
    pub fn estoc_point<M: Numerics>(
        &self,
        math: &M,
        throttle: F64,
        condition: &FlightCondition,
        jet: &JetCommand,
        advanced: &Result<JetShaftState, PropulsionError>,
    ) -> (r: Result<(EstocPoint, EstocTransient, JetShaftState), PropulsionError>)
        requires
            throttle.same(zero()) || self.engine.is_ordered(),
        ensures
            repeatable(math) ==> seen(r) == self.point(math, throttle, condition, jet, seen(*advanced)),
            self.fault() is Some ==> seen(r) == Err::<(EstocPoint, EstocTransient, JetShaftState), Fault>(self.fault()->0),
    {
        self.validate()?;
        let air_engine: &CompiledAirbreather = self.engine.air_engine();
        if !air_engine.cycle.has_shaft() {
            if JetMount::asks_accessories(jet) {
                return Err(invalid_command("ramjet/scramjet mounts do not accept starter or generator commands"));
            }
            let point: AirOperatingPoint = air_engine.operating_point(math, condition, throttle)?;
            let mut shaft: JetShaftState = JetShaftState::running(air_engine);
            shaft.lit = point.lit;
            return Ok(JetMount::air_result(point, shaft));
        }
        let shaft: JetShaftState = match advanced {
            Ok(shaft) => *shaft,
            Err(error) => {
                return Err(error.duplicate());
            },
        };
        match &self.engine {
            CompiledJet::Air(engine) => {
                let (point, _balance): (AirOperatingPoint, ShaftBalance) = engine.operating_point_at_spool(
                    math,
                    condition,
                    throttle,
                    shaft.spool_n,
                    shaft.lit,
                )?;
                Ok(JetMount::air_result(point, shaft))
            },
            CompiledJet::Estoc(engine) => {
                let (point, transient): (EstocPoint, EstocTransient) = engine.operating_point(
                    math,
                    condition,
                    throttle,
                    jet.manual,
                    jet.last_mode,
                    jet.prev,
                    jet.dt_s,
                    shaft,
                )?;
                Ok((point, transient, shaft))
            },
        }
    }

    /// Thrust magnitude (N) at throttle, condition, and jet command.
    pub fn thrust_n<M: Numerics>(
        &self,
        math: &M,
        throttle: F64,
        condition: &FlightCondition,
        jet: &JetCommand,
        advanced: &Result<JetShaftState, PropulsionError>,
    ) -> (r: Result<F64, PropulsionError>)
        requires
            throttle.same(zero()) || self.engine.is_ordered(),
        ensures
            repeatable(math) ==> seen(r) == match self.point(math, throttle, condition, jet, seen(*advanced)) {
                Ok((point, _, _)) => Ok(point.thrust_n),
                Err(fault) => Err(fault),
            },
    {
        let (point, _transient, _shaft): (EstocPoint, EstocTransient, JetShaftState) = self.estoc_point(
            math,
            throttle,
            condition,
            jet,
            advanced,
        )?;
        Ok(point.thrust_n)
    }

    /// Thrust vector in body axes (N).
    pub fn thrust_vector_body_n<M: Numerics>(
        &self,
        math: &M,
        throttle: F64,
        condition: &FlightCondition,
        jet: &JetCommand,
        advanced: &Result<JetShaftState, PropulsionError>,
    ) -> (r: Result<Vector, PropulsionError>)
        requires
            throttle.same(zero()) || self.engine.is_ordered(),
        ensures
            repeatable(math) ==> seen(r) == match self.point(math, throttle, condition, jet, seen(*advanced)) {
                Ok((point, _, _)) => Ok(self.thrust_axis_body.scaled(point.thrust_n)),
                Err(fault) => Err(fault),
            },
    {
        let thrust_n: F64 = self.thrust_n(math, throttle, condition, jet, advanced)?;
        Ok(self.thrust_axis_body.scaled(thrust_n))
    }

    /// [`plume_of`] in contracts.
    pub open spec fn plume_of_spec(air: &CompiledAirbreather, point: &EstocPoint) -> EnginePlumeState {
        EnginePlumeState {
            exit_radius_m: (air.exit_area_core_m2 / pi()).sqrt(),
            mass_flow_kg_s: point.fuel_flow_kg_s + point.oxidizer_flow_kg_s + point.air_flow_kg_s,
            exhaust_velocity_mps: point.exhaust_velocity_mps,
            exit_pressure_pa: point.exit_pressure_pa,
            exit_temp_k: point.exhaust_temp_k,
            exit_mach: point.exit_mach,
            propellant: air.fuel.exhaust_propellant(),
        }
    }

    /// The plume of a point.
    #[verifier::when_used_as_spec(plume_of_spec)]
    pub fn plume_of(air: &CompiledAirbreather, point: &EstocPoint) -> (r: EnginePlumeState)
        ensures
            r == Self::plume_of(air, point),
    {
        EnginePlumeState {
            exit_radius_m: (air.exit_area_core_m2 / pi()).sqrt(),
            mass_flow_kg_s: point.fuel_flow_kg_s + point.oxidizer_flow_kg_s + point.air_flow_kg_s,
            exhaust_velocity_mps: point.exhaust_velocity_mps,
            exit_pressure_pa: point.exit_pressure_pa,
            exit_temp_k: point.exhaust_temp_k,
            exit_mach: point.exit_mach,
            propellant: air.fuel.exhaust_propellant(),
        }
    }

    /// Plume-renderer input for the jet at throttle and condition: it shows the same
    /// flow that the thrust came from.
    pub fn plume_state<M: Numerics>(
        &self,
        math: &M,
        throttle: F64,
        condition: &FlightCondition,
        jet: &JetCommand,
        advanced: &Result<JetShaftState, PropulsionError>,
    ) -> (r: Result<EnginePlumeState, PropulsionError>)
        requires
            throttle.same(zero()) || self.engine.is_ordered(),
        ensures
            repeatable(math) ==> seen(r) == match self.point(math, throttle, condition, jet, seen(*advanced)) {
                Ok((point, _, _)) => Ok(JetMount::plume_of(&self.engine.air(), &point)),
                Err(fault) => Err(fault),
            },
    {
        let (point, _transient, _shaft): (EstocPoint, EstocTransient, JetShaftState) = self.estoc_point(
            math,
            throttle,
            condition,
            jet,
            advanced,
        )?;
        Ok(JetMount::plume_of(self.engine.air_engine(), &point))
    }

    /// Gimbal authority pair for the flight allocator (shared math with rocket
    /// mounts; moments about the body origin).
    pub fn gimbal_authority<M: Numerics>(
        &self,
        math: &M,
        throttle: F64,
        condition: &FlightCondition,
        jet: &JetCommand,
        advanced: &Result<JetShaftState, PropulsionError>,
    ) -> (r: Result<(GimbalEffector, GimbalEffector), PropulsionError>)
        requires
            throttle.same(zero()) || self.engine.is_ordered(),
        ensures
            repeatable(math) ==> seen(r) == match self.point(math, throttle, condition, jet, seen(*advanced)) {
                Ok((point, _, _)) => Ok(
                    gimbal_pair(
                        self.position_body_m,
                        self.thrust_axis_body,
                        self.thrust_axis_body.scaled(point.thrust_n),
                        self.gimbal_range_rad,
                    ),
                ),
                Err(fault) => Err(fault),
            },
    {
        let thrust_n: Vector = self.thrust_vector_body_n(math, throttle, condition, jet, advanced)?;
        Ok(gimbal_pair(self.position_body_m, self.thrust_axis_body, thrust_n, self.gimbal_range_rad))
    }
}

} // verus!
