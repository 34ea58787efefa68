//! Vehicle mounts: installed engines with their stations, thrust axes, and
//! gimbal authority pairs for the flight allocator.
use crate::engine::{CompiledEngine, EngineOperatingPoint};
use crate::error::{bad_spec, checks, invalid_spec, outcome, seen, Fault, PropulsionError};
use crate::float::{dec, whole, zero, F64};
use crate::numerics::{repeatable, Numerics};
use crate::text::{blank, is_blank};
use crate::vector::Vector;
use vstd::prelude::*;

verus! {

/// One gimbal control effector for the flight allocator. A normalized command
/// in [-1, 1] spans the gimbal range about `gimbal_axis` (right-hand rule); force
/// and moment scale linearly with the command.
#[derive(Debug, Clone, Copy, PartialEq)]
pub struct GimbalEffector {
    /// Unit gimbal rotation axis in body axes.
    pub gimbal_axis: Vector,
    /// Force per unit command (N, body axes).
    pub force_per_command_n: Vector,
    /// Moment about the body origin per unit command (N m, body axes).
    pub moment_per_command_nm: Vector,
}

/// One engine installed on a vehicle.
#[derive(Debug, Clone, PartialEq)]
pub struct EngineMount {
    pub name: String,
    pub engine: CompiledEngine,
    /// Mount (throat) station in vehicle body metres.
    pub position_body_m: Vector,
    /// Unit thrust direction in vehicle body axes (usually +X).
    pub thrust_axis_body: Vector,
}

/// [`gimbal_effector`] in contracts.
pub open spec fn gimbal_effector_spec(
    position_body_m: Vector,
    gimbal_axis: Vector,
    thrust_n: Vector,
    range_rad: F64,
) -> GimbalEffector {
    let force_per_rad = gimbal_axis.cross(thrust_n);
    let moment_per_rad = position_body_m.cross(force_per_rad);
    GimbalEffector {
        gimbal_axis,
        force_per_command_n: force_per_rad.scaled(range_rad),
        moment_per_command_nm: moment_per_rad.scaled(range_rad),
    }
}

/// What a gimbal about one axis does to a thrust vector: the force turns by
/// `axis x F` per radian, at the arm of the mount.
#[verifier::when_used_as_spec(gimbal_effector_spec)]
pub fn gimbal_effector(
    position_body_m: Vector,
    gimbal_axis: Vector,
    thrust_n: Vector,
    range_rad: F64,
) -> (r: GimbalEffector)
    ensures
        r == gimbal_effector(position_body_m, gimbal_axis, thrust_n, range_rad),
{
    let force_per_rad = gimbal_axis.cross(thrust_n);
    let moment_per_rad = position_body_m.cross(force_per_rad);
    GimbalEffector {
        gimbal_axis,
        force_per_command_n: force_per_rad.scaled(range_rad),
        moment_per_command_nm: moment_per_rad.scaled(range_rad),
    }
}

/// [`gimbal_pair`] in contracts.
pub open spec fn gimbal_pair_spec(
    position_body_m: Vector,
    thrust_axis_body: Vector,
    thrust_vector_body_n: Vector,
    range_rad: F64,
) -> (GimbalEffector, GimbalEffector) {
    let reference = if thrust_axis_body.x.abs() < dec(9, 1) {
        Vector::new(whole(1), zero(), zero())
    } else {
        Vector::new(zero(), whole(1), zero())
    };
    let gimbal_a = thrust_axis_body.cross(reference).normalized();
    let gimbal_b = thrust_axis_body.cross(gimbal_a).normalized();
    (
        gimbal_effector(position_body_m, gimbal_a, thrust_vector_body_n, range_rad),
        gimbal_effector(position_body_m, gimbal_b, thrust_vector_body_n, range_rad),
    )
}

/// Two effectors about the body axes perpendicular to the thrust axis. A
/// normalized command spans `range_rad` about each gimbal axis; moments are
/// about the body origin.
#[verifier::when_used_as_spec(gimbal_pair_spec)]
pub fn gimbal_pair(
    position_body_m: Vector,
    thrust_axis_body: Vector,
    thrust_vector_body_n: Vector,
    range_rad: F64,
) -> (r: (GimbalEffector, GimbalEffector))
    ensures
        r == gimbal_pair(position_body_m, thrust_axis_body, thrust_vector_body_n, range_rad),
{
    let reference = if thrust_axis_body.x.abs() < dec(9, 1) {
        Vector::new(whole(1), zero(), zero())
    } else {
        Vector::new(zero(), whole(1), zero())
    };
    let gimbal_a = thrust_axis_body.cross(reference).normalized();
    let gimbal_b = thrust_axis_body.cross(gimbal_a).normalized();
    (
        gimbal_effector(position_body_m, gimbal_a, thrust_vector_body_n, range_rad),
        gimbal_effector(position_body_m, gimbal_b, thrust_vector_body_n, range_rad),
    )
}

impl EngineMount {
    /// What is wrong with the mount, if anything.
    pub open spec fn fault(&self) -> Option<Fault> {
        checks()
            .refuse(blank(self.name@), bad_spec("engine mount needs a name"))
            .refuse(!self.position_body_m.is_finite(), bad_spec("mount position must be finite"))
            .refuse(!self.thrust_axis_body.is_finite(), bad_spec("thrust axis must be finite"))
            .refuse(!self.thrust_axis_body.is_unit(), bad_spec("thrust axis must be unit length"))
            .part(self.engine.fault())
            .fault
    }

    /// Validates mount data (NaN fails closed; the axis must be unit). The nested
    /// engine is baked data too: a tampered field must fail here.
    pub fn validate(&self) -> (r: Result<(), PropulsionError>)
        ensures
            seen(r) == outcome(self.fault()),
    {
        if is_blank(self.name.as_str()) {
            return Err(invalid_spec("engine mount needs a name"));
        }
        if !self.position_body_m.is_finite() {
            return Err(invalid_spec("mount position must be finite"));
        }
        if !self.thrust_axis_body.is_finite() {
            return Err(invalid_spec("thrust axis must be finite"));
        }
        if !self.thrust_axis_body.is_unit() {
            return Err(invalid_spec("thrust axis must be unit length"));
        }
        self.engine.validate()
    }

    /// Thrust vector in body axes at this mount's command, or what stops it.
    pub open spec fn thrust_vector<M: Numerics>(
        &self,
        math: &M,
        throttle: F64,
        ambient_pa: F64,
        burn_time_s: F64,
    ) -> Result<Vector, Fault> {
        match self.fault() {
            Some(fault) => Err(fault),
            None => match self.engine.point(math, throttle, ambient_pa, burn_time_s) {
                Err(fault) => Err(fault),
                Ok(point) => Ok(self.thrust_axis_body.scaled(point.thrust_n)),
            },
        }
    }

    /// Thrust vector in body axes at this mount's command.
    pub fn thrust_vector_body_n<M: Numerics>(
        &self,
        math: &M,
        throttle: F64,
        ambient_pa: F64,
        burn_time_s: F64,
    ) -> (r: Result<
        Vector,
        PropulsionError,
    >)
        ensures
            repeatable(math) ==> seen(r) == self.thrust_vector(math, throttle, ambient_pa, burn_time_s),
            r is Err ==> seen(r) == self.thrust_vector(math, throttle, ambient_pa, burn_time_s),
            r is Err <==> self.thrust_vector(math, throttle, ambient_pa, burn_time_s) is Err,
    {
        self.validate()?;
        let point: EngineOperatingPoint = self.engine.operating_point(math, throttle, ambient_pa, burn_time_s)?;
        Ok(self.thrust_axis_body.scaled(point.thrust_n))
    }

    /// [`Self::gimbal_range_rad`] in contracts.
    pub open spec fn gimbal_range_rad_spec(&self) -> F64 {
        self.engine.gimbal_range_rad()
    }

    /// Gimbal range of the installed engine (rad, 0 = fixed).
    #[verifier::when_used_as_spec(gimbal_range_rad_spec)]
    pub fn gimbal_range_rad(&self) -> (r: F64)
        ensures
            r == self.gimbal_range_rad(),
    {
        self.engine.gimbal_range_rad()
    }

    /// Gimbal control authority, or what stops it.
    pub open spec fn authority<M: Numerics>(
        &self,
        math: &M,
        throttle: F64,
        ambient_pa: F64,
        burn_time_s: F64,
    ) -> Result<(GimbalEffector, GimbalEffector), Fault> {
        match self.thrust_vector(math, throttle, ambient_pa, burn_time_s) {
            Err(fault) => Err(fault),
            Ok(thrust_n) => Ok(gimbal_pair(self.position_body_m, self.thrust_axis_body, thrust_n, self.gimbal_range_rad())),
        }
    }

    /// Gimbal control authority for the flight allocator: moment per normalized
    /// command about the two body axes perpendicular to the thrust axis, at an
    /// operating point. Fixed mounts give zero moments.
    pub fn gimbal_authority<M: Numerics>(
        &self,
        math: &M,
        throttle: F64,
        ambient_pa: F64,
        burn_time_s: F64,
    ) -> (r: Result<
        (GimbalEffector, GimbalEffector),
        PropulsionError,
    >)
        ensures
            repeatable(math) ==> seen(r) == self.authority(math, throttle, ambient_pa, burn_time_s),
            r is Err ==> seen(r) == self.authority(math, throttle, ambient_pa, burn_time_s),
            r is Err <==> self.authority(math, throttle, ambient_pa, burn_time_s) is Err,
    {
        let thrust_n: Vector = self.thrust_vector_body_n(math, throttle, ambient_pa, burn_time_s)?;
        Ok(gimbal_pair(self.position_body_m, self.thrust_axis_body, thrust_n, self.gimbal_range_rad()))
    }
}

} // verus!
