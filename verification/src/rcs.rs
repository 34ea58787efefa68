//! Reaction control thrusters: monopropellant pulse engines, cold-gas blowdown
//! thrusters, and mounted clusters producing force and moment impulses.
//!
//! Monopropellant hydrazine compiles through the shared liquid path
//! (pressure-fed chamber, fixed full thrust: commands are on-times, not
//! throttle). Cold gas has no chamber to size, so it compiles on its own path:
//! rated at storage pressure, runtime thrust scales with actual inlet pressure.
//! Pulse physics books a triangular valve rise: short pulses deliver less impulse
//! per propellant, which is where the minimum impulse bit comes from.
use crate::constants::{sea_level_pa, separation_pressure_ratio, standard_gravity_mps2};
use crate::cycle::EngineCycle;
use crate::engine::{CompiledEngine, EngineOperatingPoint};
use crate::error::{
    bad_command, bad_spec, checks, invalid_command, invalid_spec, outcome, require_non_negative, require_positive,
    seen, Fault, PropulsionError,
};
use crate::float::{dec, pi, whole, zero, F64};
use crate::liquid::{divergence_of, CompiledLiquid, LiquidEngineSpec};
use crate::material::{ChamberMaterial, CoolingMode};
use crate::mount::EngineMount;
use crate::nozzle::{characteristic_velocity, exit_for, nozzle_exit, thrust_coefficient, NozzleContour, NozzleExitState};
use crate::numerics::{atan, powi, repeatable, Numerics};
use crate::propellant::{FluidThermo, Propellant, PropellantThermo};
use crate::text::{blank, copied, is_blank, join, number, number_text};
use crate::vector::Vector;
use vstd::prelude::*;

verus! {

/// [`rcs_default_rise_time_s`] in contracts.
pub open spec fn rcs_default_rise_time_s_spec() -> F64 {
    dec(5, 3)
}

/// Default valve rise time (s).
#[verifier::when_used_as_spec(rcs_default_rise_time_s_spec)]
pub fn rcs_default_rise_time_s() -> (r: F64)
    ensures
        r == rcs_default_rise_time_s(),
{
    dec(5, 3)
}

/// [`rcs_default_min_on_time_s`] in contracts.
pub open spec fn rcs_default_min_on_time_s_spec() -> F64 {
    dec(20, 3)
}

/// Default minimum valve on-time (s).
#[verifier::when_used_as_spec(rcs_default_min_on_time_s_spec)]
pub fn rcs_default_min_on_time_s() -> (r: F64)
    ensures
        r == rcs_default_min_on_time_s(),
{
    dec(20, 3)
}

/// One delivered pulse: impulse, booked propellant, and their ratio.
#[derive(Debug, Clone, Copy, PartialEq)]
pub struct RcsPulse {
    pub impulse_ns: F64,
    pub propellant_kg: F64,
    pub effective_isp_s: F64,
}

/// [`deliver_pulse`] in contracts.
pub open spec fn deliver_pulse_spec(thrust_n: F64, mass_flow_kg_s: F64, on_time_s: F64, rise_s: F64) -> RcsPulse {
    if on_time_s <= zero() {
        RcsPulse { impulse_ns: zero(), propellant_kg: zero(), effective_isp_s: zero() }
    } else {
        let impulse_ns = if on_time_s <= rise_s {
            thrust_n * on_time_s * on_time_s / (whole(2) * rise_s)
        } else {
            thrust_n * (on_time_s - rise_s / whole(2))
        };
        let propellant_kg = mass_flow_kg_s * on_time_s;
        RcsPulse {
            impulse_ns,
            propellant_kg,
            effective_isp_s: if propellant_kg > zero() {
                impulse_ns / (propellant_kg * standard_gravity_mps2())
            } else {
                zero()
            },
        }
    }
}

/// Triangular-rise pulse delivery: thrust rises linearly over `rise_s`,
/// propellant books the full open time.
#[verifier::when_used_as_spec(deliver_pulse_spec)]
pub fn deliver_pulse(thrust_n: F64, mass_flow_kg_s: F64, on_time_s: F64, rise_s: F64) -> (r: RcsPulse)
    ensures
        r == deliver_pulse(thrust_n, mass_flow_kg_s, on_time_s, rise_s),
{
    if on_time_s <= zero() {
        RcsPulse { impulse_ns: zero(), propellant_kg: zero(), effective_isp_s: zero() }
    } else {
        let impulse_ns = if on_time_s <= rise_s {
            thrust_n * on_time_s * on_time_s / (whole(2) * rise_s)
        } else {
            thrust_n * (on_time_s - rise_s / whole(2))
        };
        let propellant_kg = mass_flow_kg_s * on_time_s;
        RcsPulse {
            impulse_ns,
            propellant_kg,
            effective_isp_s: if propellant_kg > zero() {
                impulse_ns / (propellant_kg * standard_gravity_mps2())
            } else {
                zero()
            },
        }
    }
}

/// Cold-gas thruster authoring: stored gas expanded through a nozzle. Rated at
/// `rated_pressure_pa`; runtime thrust follows actual inlet pressure.
#[derive(Debug, Clone, PartialEq)]
pub struct ColdGasThrusterSpec {
    pub name: String,
    /// A stored gas.
    pub gas: Propellant,
    /// Storage or stagnation temperature (K).
    pub storage_temp_k: F64,
    /// Rated inlet pressure (Pa).
    pub rated_pressure_pa: F64,
    pub throat_radius_m: F64,
    pub expansion_ratio: F64,
    pub nozzle_length_m: F64,
    pub contour: NozzleContour,
    pub material: ChamberMaterial,
    /// Valve rise time (s).
    pub valve_rise_time_s: F64,
    /// Minimum valve on-time (s, must clear the rise).
    pub min_on_time_s: F64,
}

/// Compiled cold-gas thruster.
#[derive(Debug, Clone, PartialEq)]
pub struct CompiledColdGas {
    pub name: String,
    pub gas: Propellant,
    pub storage_temp_k: F64,
    pub rated_pressure_pa: F64,
    pub throat_area_m2: F64,
    pub expansion_ratio: F64,
    pub exit_radius_m: F64,
    pub divergence_factor: F64,
    pub gamma: F64,
    pub gas_constant_j_kg_k: F64,
    pub c_star_mps: F64,
    pub exit_mach: F64,
    pub exit_temp_k: F64,
    pub exhaust_velocity_mps: F64,
    pub rated_thrust_vac_n: F64,
    pub rated_thrust_sl_n: F64,
    pub rated_flow_kg_s: F64,
    pub rated_isp_vac_s: F64,
    pub dry_mass_kg: F64,
    pub valve_rise_time_s: F64,
    pub min_on_time_s: F64,
}

impl ColdGasThrusterSpec {
    /// What is wrong with the authoring values, if anything.
    pub open spec fn fault(&self) -> Option<Fault> {
        checks()
            .refuse(blank(self.name@), bad_spec("thruster name must not be empty"))
            .refuse(!self.gas.is_cold_gas(), bad_spec("cold-gas thruster needs a cold-gas propellant"))
            .positive(self.storage_temp_k, "storage temperature")
            .positive(self.rated_pressure_pa, "rated pressure")
            .positive(self.throat_radius_m, "throat radius")
            .refuse(!(self.expansion_ratio >= whole(1)), bad_spec("expansion ratio must be finite and >= 1"))
            .positive(self.nozzle_length_m, "nozzle length")
            .part(self.material.fault())
            .positive(self.valve_rise_time_s, "valve rise time")
            .positive(self.min_on_time_s, "min on-time")
            .refuse(self.min_on_time_s < self.valve_rise_time_s, bad_spec("min on-time must clear the valve rise"))
            .fault
    }

    /// Validates the authoring values (NaN fails closed).
    pub fn validate(&self) -> (r: Result<(), PropulsionError>)
        ensures
            seen(r) == outcome(self.fault()),
    {
        if is_blank(self.name.as_str()) {
            return Err(invalid_spec("thruster name must not be empty"));
        }
        if !self.gas.is_cold_gas() {
            return Err(invalid_spec("cold-gas thruster needs a cold-gas propellant"));
        }
        require_positive(self.storage_temp_k, "storage temperature")?;
        require_positive(self.rated_pressure_pa, "rated pressure")?;
        require_positive(self.throat_radius_m, "throat radius")?;
        if !(self.expansion_ratio >= whole(1)) {
            return Err(invalid_spec("expansion ratio must be finite and >= 1"));
        }
        require_positive(self.nozzle_length_m, "nozzle length")?;
        self.material.validate()?;
        require_positive(self.valve_rise_time_s, "valve rise time")?;
        require_positive(self.min_on_time_s, "min on-time")?;
        if self.min_on_time_s < self.valve_rise_time_s {
            return Err(invalid_spec("min on-time must clear the valve rise"));
        }
        Ok(())
    }

    /// [`Self::stored_thermo`] in contracts.
    pub open spec fn stored_thermo_spec(&self, gas_thermo: &PropellantThermo) -> PropellantThermo {
        PropellantThermo {
            gamma: gas_thermo.gamma,
            chamber_temp_k: self.storage_temp_k,
            gas_constant_j_kg_k: gas_thermo.gas_constant_j_kg_k,
            bulk_density_kg_m3: gas_thermo.bulk_density_kg_m3,
            characteristic_length_m: gas_thermo.characteristic_length_m,
            reference_c_star_mps: gas_thermo.reference_c_star_mps,
        }
    }

    /// The gas at its storage temperature.
    #[verifier::when_used_as_spec(stored_thermo_spec)]
    pub fn stored_thermo(&self, gas_thermo: &PropellantThermo) -> (r: PropellantThermo)
        ensures
            r == self.stored_thermo(gas_thermo),
    {
        PropellantThermo {
            gamma: gas_thermo.gamma,
            chamber_temp_k: self.storage_temp_k,
            gas_constant_j_kg_k: gas_thermo.gas_constant_j_kg_k,
            bulk_density_kg_m3: gas_thermo.bulk_density_kg_m3,
            characteristic_length_m: gas_thermo.characteristic_length_m,
            reference_c_star_mps: gas_thermo.reference_c_star_mps,
        }
    }

    /// [`Self::design`] in contracts.
    pub open spec fn design_spec<M: Numerics>(
        &self,
        math: &M,
        thermo: &PropellantThermo,
        exit: &NozzleExitState,
    ) -> CompiledColdGas {
        let c_star = characteristic_velocity(math, thermo);
        let throat_area_m2 = pi() * self.throat_radius_m * self.throat_radius_m;
        let exit_radius_m = self.throat_radius_m * self.expansion_ratio.sqrt();
        let wall_slope = (exit_radius_m - self.throat_radius_m) / self.nozzle_length_m;
        let divergence = divergence_of(math, self.contour, atan(math, wall_slope));
        let rated_flow_kg_s = self.rated_pressure_pa * throat_area_m2 / c_star;
        let rated_thrust_vac_n = thrust_coefficient(
            math,
            thermo,
            self.rated_pressure_pa,
            exit,
            self.expansion_ratio,
            zero(),
            divergence,
        ) * self.rated_pressure_pa * throat_area_m2;
        let rated_thrust_sl_n = thrust_coefficient(
            math,
            thermo,
            self.rated_pressure_pa,
            exit,
            self.expansion_ratio,
            sea_level_pa(),
            divergence,
        ) * self.rated_pressure_pa * throat_area_m2;
        // Cold wall, no chamber: thin frustum at rating plus a valve and
        // manifold allowance.
        let slant_m = (self.nozzle_length_m * self.nozzle_length_m + powi(math, exit_radius_m - self.throat_radius_m, 2)).sqrt();
        let wall_m = self.rated_pressure_pa * self.throat_radius_m / (whole(2) * self.material.yield_strength_pa) * dec(15, 1)
            * dec(5, 1);
        let nozzle_kg = pi() * (self.throat_radius_m + exit_radius_m) * slant_m * wall_m * self.material.density_kg_m3;
        CompiledColdGas {
            name: copied(&self.name),
            gas: self.gas,
            storage_temp_k: self.storage_temp_k,
            rated_pressure_pa: self.rated_pressure_pa,
            throat_area_m2,
            expansion_ratio: self.expansion_ratio,
            exit_radius_m,
            divergence_factor: divergence,
            gamma: thermo.gamma,
            gas_constant_j_kg_k: thermo.gas_constant_j_kg_k,
            c_star_mps: c_star,
            exit_mach: exit.exit_mach,
            exit_temp_k: exit.exit_temp_k,
            exhaust_velocity_mps: exit.exhaust_velocity_mps,
            rated_thrust_vac_n,
            rated_thrust_sl_n,
            rated_flow_kg_s,
            rated_isp_vac_s: rated_thrust_vac_n / (rated_flow_kg_s * standard_gravity_mps2()),
            dry_mass_kg: nozzle_kg + dec(4, 1),
            valve_rise_time_s: self.valve_rise_time_s,
            min_on_time_s: self.min_on_time_s,
        }
    }

    /// The thruster for a solved nozzle exit.
    #[verifier::when_used_as_spec(design_spec)]
    pub fn design<M: Numerics>(
        &self,
        math: &M,
        thermo: &PropellantThermo,
        exit: &NozzleExitState,
    ) -> (r: CompiledColdGas)
        ensures
            repeatable(math) ==> r == self.design(math, thermo, exit),
    {
        let c_star = characteristic_velocity(math, thermo);
        let throat_area_m2 = pi() * self.throat_radius_m * self.throat_radius_m;
        let exit_radius_m = self.throat_radius_m * self.expansion_ratio.sqrt();
        let wall_slope = (exit_radius_m - self.throat_radius_m) / self.nozzle_length_m;
        let divergence = divergence_of(math, self.contour, atan(math, wall_slope));
        let rated_flow_kg_s = self.rated_pressure_pa * throat_area_m2 / c_star;
        let rated_thrust_vac_n = thrust_coefficient(
            math,
            thermo,
            self.rated_pressure_pa,
            exit,
            self.expansion_ratio,
            zero(),
            divergence,
        ) * self.rated_pressure_pa * throat_area_m2;
        let rated_thrust_sl_n = thrust_coefficient(
            math,
            thermo,
            self.rated_pressure_pa,
            exit,
            self.expansion_ratio,
            sea_level_pa(),
            divergence,
        ) * self.rated_pressure_pa * throat_area_m2;
        // Cold wall, no chamber: thin frustum at rating plus a valve and
        // manifold allowance.
        let slant_m = (self.nozzle_length_m * self.nozzle_length_m + powi(math, exit_radius_m - self.throat_radius_m, 2)).sqrt();
        let wall_m = self.rated_pressure_pa * self.throat_radius_m / (whole(2) * self.material.yield_strength_pa) * dec(15, 1)
            * dec(5, 1);
        let nozzle_kg = pi() * (self.throat_radius_m + exit_radius_m) * slant_m * wall_m * self.material.density_kg_m3;
        CompiledColdGas {
            name: copied(&self.name),
            gas: self.gas,
            storage_temp_k: self.storage_temp_k,
            rated_pressure_pa: self.rated_pressure_pa,
            throat_area_m2,
            expansion_ratio: self.expansion_ratio,
            exit_radius_m,
            divergence_factor: divergence,
            gamma: thermo.gamma,
            gas_constant_j_kg_k: thermo.gas_constant_j_kg_k,
            c_star_mps: c_star,
            exit_mach: exit.exit_mach,
            exit_temp_k: exit.exit_temp_k,
            exhaust_velocity_mps: exit.exhaust_velocity_mps,
            rated_thrust_vac_n,
            rated_thrust_sl_n,
            rated_flow_kg_s,
            rated_isp_vac_s: rated_thrust_vac_n / (rated_flow_kg_s * standard_gravity_mps2()),
            dry_mass_kg: nozzle_kg + dec(4, 1),
            valve_rise_time_s: self.valve_rise_time_s,
            min_on_time_s: self.min_on_time_s,
        }
    }

    /// The compiled thruster, or what stops it.
    pub open spec fn compiled<M: Numerics>(
        &self,
        math: &M,
        fluids: &FluidThermo,
    ) -> Result<CompiledColdGas, Fault> {
        let thermo = self.stored_thermo(&self.gas.thermo_among(fluids));
        match self.fault() {
            Some(fault) => Err(fault),
            None => match exit_for(math, &thermo, self.expansion_ratio) {
                Err(fault) => Err(fault),
                Ok(exit) => Ok(self.design(math, &thermo, &exit)),
            },
        }
    }

    /// Compiles the thruster at the rated inlet pressure; the gas has its ratio of
    /// specific heats and its gas constant from `fluids`.
    pub fn compile<M: Numerics>(
        &self,
        math: &M,
        fluids: &FluidThermo,
    ) -> (r: Result<CompiledColdGas, PropulsionError>)
        ensures
            repeatable(math) ==> seen(r) == self.compiled(math, fluids),
            self.fault() is Some ==> seen(r) == self.compiled(math, fluids),
    {
        self.validate()?;
        let thermo: PropellantThermo = self.stored_thermo(&self.gas.thermo_among(fluids));
        let exit: NozzleExitState = nozzle_exit(math, &thermo, self.expansion_ratio)?;
        Ok(self.design(math, &thermo, &exit))
    }
}

impl CompiledColdGas {
    /// [`Self::thermo_ref`] in contracts.
    pub open spec fn thermo_ref_spec(&self) -> PropellantThermo {
        PropellantThermo {
            gamma: self.gamma,
            chamber_temp_k: self.storage_temp_k,
            gas_constant_j_kg_k: self.gas_constant_j_kg_k,
            bulk_density_kg_m3: zero(),
            characteristic_length_m: zero(),
            reference_c_star_mps: zero(),
        }
    }

    /// The gas as compiled, for runtime evaluation.
    #[verifier::when_used_as_spec(thermo_ref_spec)]
    pub fn thermo_ref(&self) -> (r: PropellantThermo)
        ensures
            r == self.thermo_ref(),
    {
        PropellantThermo {
            gamma: self.gamma,
            chamber_temp_k: self.storage_temp_k,
            gas_constant_j_kg_k: self.gas_constant_j_kg_k,
            bulk_density_kg_m3: zero(),
            characteristic_length_m: zero(),
            reference_c_star_mps: zero(),
        }
    }

    /// [`Self::flowing_point`] in contracts.
    pub open spec fn flowing_point_spec<M: Numerics>(
        &self,
        math: &M,
        exit: &NozzleExitState,
        inlet_pressure_pa: F64,
        ambient_pa: F64,
    ) -> EngineOperatingPoint {
        let cf = thrust_coefficient(
            math,
            &self.thermo_ref(),
            inlet_pressure_pa,
            exit,
            self.expansion_ratio,
            ambient_pa,
            self.divergence_factor,
        );
        let thrust_n = cf * inlet_pressure_pa * self.throat_area_m2;
        let flow_kg_s = inlet_pressure_pa * self.throat_area_m2 / self.c_star_mps;
        let exit_pressure_pa = exit.exit_pressure_ratio * inlet_pressure_pa;
        EngineOperatingPoint {
            thrust_n,
            mass_flow_kg_s: flow_kg_s,
            isp_s: thrust_n / (flow_kg_s * standard_gravity_mps2()),
            exhaust_velocity_mps: self.exhaust_velocity_mps,
            exit_pressure_pa,
            exit_temp_k: self.exit_temp_k,
            exit_mach: self.exit_mach,
            separation_risk: exit_pressure_pa < separation_pressure_ratio() * ambient_pa,
        }
    }

    /// The operating point at a positive inlet pressure for a solved nozzle exit.
    #[verifier::when_used_as_spec(flowing_point_spec)]
    pub fn flowing_point<M: Numerics>(
        &self,
        math: &M,
        exit: &NozzleExitState,
        inlet_pressure_pa: F64,
        ambient_pa: F64,
    ) -> (r: EngineOperatingPoint)
        ensures
            repeatable(math) ==> r == self.flowing_point(math, exit, inlet_pressure_pa, ambient_pa),
    {
        let cf = thrust_coefficient(
            math,
            &self.thermo_ref(),
            inlet_pressure_pa,
            exit,
            self.expansion_ratio,
            ambient_pa,
            self.divergence_factor,
        );
        let thrust_n = cf * inlet_pressure_pa * self.throat_area_m2;
        let flow_kg_s = inlet_pressure_pa * self.throat_area_m2 / self.c_star_mps;
        let exit_pressure_pa = exit.exit_pressure_ratio * inlet_pressure_pa;
        EngineOperatingPoint {
            thrust_n,
            mass_flow_kg_s: flow_kg_s,
            isp_s: thrust_n / (flow_kg_s * standard_gravity_mps2()),
            exhaust_velocity_mps: self.exhaust_velocity_mps,
            exit_pressure_pa,
            exit_temp_k: self.exit_temp_k,
            exit_mach: self.exit_mach,
            separation_risk: exit_pressure_pa < separation_pressure_ratio() * ambient_pa,
        }
    }

    /// Steady operating point at inlet pressure and ambient, or what stops it.
    pub open spec fn steady<M: Numerics>(&self, math: &M, inlet_pressure_pa: F64, ambient_pa: F64) -> Result<
        EngineOperatingPoint,
        Fault,
    > {
        if !(inlet_pressure_pa >= zero()) {
            Err(bad_command("inlet pressure must be finite and >= 0"))
        } else if !ambient_pa.is_finite() || ambient_pa < zero() {
            Err(bad_command("ambient pressure must be finite and >= 0"))
        } else if inlet_pressure_pa.same(zero()) {
            Ok(EngineOperatingPoint::idle(self.exhaust_velocity_mps, self.exit_temp_k, self.exit_mach))
        } else {
            match exit_for(math, &self.thermo_ref(), self.expansion_ratio) {
                Err(fault) => Err(fault),
                Ok(exit) => Ok(self.flowing_point(math, &exit, inlet_pressure_pa, ambient_pa)),
            }
        }
    }

    /// Steady operating point at inlet pressure and ambient: thrust and flow
    /// track inlet pressure at frozen geometry.
    pub fn steady_point<M: Numerics>(&self, math: &M, inlet_pressure_pa: F64, ambient_pa: F64) -> (r: Result<
        EngineOperatingPoint,
        PropulsionError,
    >)
        ensures
            repeatable(math) ==> seen(r) == self.steady(math, inlet_pressure_pa, ambient_pa),
            !(inlet_pressure_pa > zero()) || !ambient_pa.is_finite() || ambient_pa < zero() ==> seen(r) == self.steady(
                math,
                inlet_pressure_pa,
                ambient_pa,
            ),
    {
        if !(inlet_pressure_pa >= zero()) {
            return Err(invalid_command("inlet pressure must be finite and >= 0"));
        }
        if !ambient_pa.is_finite() || ambient_pa < zero() {
            return Err(invalid_command("ambient pressure must be finite and >= 0"));
        }
        proof {
            crate::float::lemma_one();
        }
        if inlet_pressure_pa.same(zero()) {
            return Ok(EngineOperatingPoint::idle(self.exhaust_velocity_mps, self.exit_temp_k, self.exit_mach));
        }
        let exit: NozzleExitState = nozzle_exit(math, &self.thermo_ref(), self.expansion_ratio)?;
        Ok(self.flowing_point(math, &exit, inlet_pressure_pa, ambient_pa))
    }

    /// One valve pulse at inlet pressure and ambient, or what stops it.
    pub open spec fn pulsed<M: Numerics>(
        &self,
        math: &M,
        on_time_s: F64,
        inlet_pressure_pa: F64,
        ambient_pa: F64,
    ) -> Result<
        RcsPulse,
        Fault,
    > {
        if !(on_time_s >= zero()) {
            Err(bad_command("pulse on-time must be finite and >= 0"))
        } else {
            match self.steady(math, inlet_pressure_pa, ambient_pa) {
                Err(fault) => Err(fault),
                Ok(point) => Ok(deliver_pulse(point.thrust_n, point.mass_flow_kg_s, on_time_s, self.valve_rise_time_s)),
            }
        }
    }

    /// One valve pulse at inlet pressure and ambient.
    pub fn pulse<M: Numerics>(&self, math: &M, on_time_s: F64, inlet_pressure_pa: F64, ambient_pa: F64) -> (r: Result<
        RcsPulse,
        PropulsionError,
    >)
        ensures
            repeatable(math) ==> seen(r) == self.pulsed(math, on_time_s, inlet_pressure_pa, ambient_pa),
            !(on_time_s >= zero()) ==> seen(r) == self.pulsed(math, on_time_s, inlet_pressure_pa, ambient_pa),
    {
        if !(on_time_s >= zero()) {
            return Err(invalid_command("pulse on-time must be finite and >= 0"));
        }
        let point: EngineOperatingPoint = self.steady_point(math, inlet_pressure_pa, ambient_pa)?;
        Ok(deliver_pulse(point.thrust_n, point.mass_flow_kg_s, on_time_s, self.valve_rise_time_s))
    }

    /// Minimum impulse bit at rated pressure in vacuum.
    pub fn min_impulse_bit_ns<M: Numerics>(&self, math: &M) -> (r: F64)
        ensures
            repeatable(math) ==> r == impulse_or_none(self.pulsed(math, self.min_on_time_s, self.rated_pressure_pa, zero())),
    {
        match self.pulse(math, self.min_on_time_s, self.rated_pressure_pa, zero()) {
            Ok(pulse) => pulse.impulse_ns,
            Err(_) => zero(),
        }
    }
}

/// The impulse of a pulse; one that is refused has none.
pub open spec fn impulse_or_none(pulse: Result<RcsPulse, Fault>) -> F64 {
    match pulse {
        Ok(pulse) => pulse.impulse_ns,
        Err(_) => zero(),
    }
}

/// Monopropellant hydrazine authoring: catalyst-bed chamber compiled through the
/// shared liquid path at fixed full thrust.
#[derive(Debug, Clone, PartialEq)]
pub struct MonopropThrusterSpec {
    pub name: String,
    /// Design chamber pressure (Pa).
    pub chamber_pressure_pa: F64,
    pub throat_radius_m: F64,
    pub expansion_ratio: F64,
    pub nozzle_length_m: F64,
    pub contour: NozzleContour,
    pub material: ChamberMaterial,
    pub valve_rise_time_s: F64,
    pub min_on_time_s: F64,
}

/// Compiled monopropellant thruster (fixed full thrust; commands are on-times).
#[derive(Debug, Clone, PartialEq)]
pub struct CompiledMonoprop {
    pub engine: CompiledLiquid,
    pub valve_rise_time_s: F64,
    pub min_on_time_s: F64,
}

impl MonopropThrusterSpec {
    /// What is wrong with the authoring values, if anything.
    pub open spec fn fault(&self) -> Option<Fault> {
        checks()
            .refuse(blank(self.name@), bad_spec("thruster name must not be empty"))
            .positive(self.chamber_pressure_pa, "chamber pressure")
            .positive(self.throat_radius_m, "throat radius")
            .refuse(!(self.expansion_ratio >= whole(1)), bad_spec("expansion ratio must be finite and >= 1"))
            .positive(self.nozzle_length_m, "nozzle length")
            .part(self.material.fault())
            .positive(self.valve_rise_time_s, "valve rise time")
            .positive(self.min_on_time_s, "min on-time")
            .refuse(self.min_on_time_s < self.valve_rise_time_s, bad_spec("min on-time must clear the valve rise"))
            .fault
    }

    /// Validates the authoring values (NaN fails closed).
    pub fn validate(&self) -> (r: Result<(), PropulsionError>)
        ensures
            seen(r) == outcome(self.fault()),
    {
        if is_blank(self.name.as_str()) {
            return Err(invalid_spec("thruster name must not be empty"));
        }
        require_positive(self.chamber_pressure_pa, "chamber pressure")?;
        require_positive(self.throat_radius_m, "throat radius")?;
        if !(self.expansion_ratio >= whole(1)) {
            return Err(invalid_spec("expansion ratio must be finite and >= 1"));
        }
        require_positive(self.nozzle_length_m, "nozzle length")?;
        self.material.validate()?;
        require_positive(self.valve_rise_time_s, "valve rise time")?;
        require_positive(self.min_on_time_s, "min on-time")?;
        if self.min_on_time_s < self.valve_rise_time_s {
            return Err(invalid_spec("min on-time must clear the valve rise"));
        }
        Ok(())
    }

    /// [`Self::chamber_spec`] in contracts.
    pub open spec fn chamber_spec_spec(&self) -> LiquidEngineSpec {
        LiquidEngineSpec {
            name: copied(&self.name),
            propellant: Propellant::MonopropHydrazine,
            cycle: EngineCycle::PressureFed,
            chamber_pressure_pa: self.chamber_pressure_pa,
            throat_radius_m: self.throat_radius_m,
            expansion_ratio: self.expansion_ratio,
            nozzle_length_m: self.nozzle_length_m,
            contour: self.contour,
            chamber_material: self.material,
            cooling: CoolingMode::Regenerative,
            mixture_ratio: None,
            characteristic_length_m: None,
            gimbal_range_rad: zero(),
            min_throttle: Some(whole(1)),
            restartable: true,
        }
    }

    /// The pressure-fed chamber that the thruster compiles to.
    #[verifier::when_used_as_spec(chamber_spec_spec)]
    pub fn chamber_spec(&self) -> (r: LiquidEngineSpec)
        ensures
            r == self.chamber_spec(),
    {
        LiquidEngineSpec {
            name: copied(&self.name),
            propellant: Propellant::MonopropHydrazine,
            cycle: EngineCycle::PressureFed,
            chamber_pressure_pa: self.chamber_pressure_pa,
            throat_radius_m: self.throat_radius_m,
            expansion_ratio: self.expansion_ratio,
            nozzle_length_m: self.nozzle_length_m,
            contour: self.contour,
            chamber_material: self.material,
            cooling: CoolingMode::Regenerative,
            mixture_ratio: None,
            characteristic_length_m: None,
            gimbal_range_rad: zero(),
            min_throttle: Some(whole(1)),
            restartable: true,
        }
    }

    /// The compiled thruster, or what stops it.
    pub open spec fn compiled<M: Numerics>(
        &self,
        math: &M,
        fluids: &FluidThermo,
    ) -> Result<CompiledMonoprop, Fault> {
        match self.fault() {
            Some(fault) => Err(fault),
            None => match self.chamber_spec().compiled(math, fluids) {
                Err(fault) => Err(fault),
                Ok(engine) => Ok(
                    CompiledMonoprop {
                        engine,
                        valve_rise_time_s: self.valve_rise_time_s,
                        min_on_time_s: self.min_on_time_s,
                    },
                ),
            },
        }
    }

    /// Compiles the thruster through the shared pressure-fed liquid path, on the
    /// thermo of decomposed hydrazine.
    pub fn compile<M: Numerics>(
        &self,
        math: &M,
        fluids: &FluidThermo,
    ) -> (r: Result<CompiledMonoprop, PropulsionError>)
        ensures
            repeatable(math) ==> seen(r) == self.compiled(math, fluids),
            self.fault() is Some ==> seen(r) == self.compiled(math, fluids),
    {
        self.validate()?;
        let engine: CompiledLiquid = self.chamber_spec().compile(math, fluids)?;
        Ok(CompiledMonoprop { engine, valve_rise_time_s: self.valve_rise_time_s, min_on_time_s: self.min_on_time_s })
    }
}

impl CompiledMonoprop {
    /// Steady operating point at full thrust and ambient, or what stops it.
    pub open spec fn steady<M: Numerics>(&self, math: &M, ambient_pa: F64) -> Result<EngineOperatingPoint, Fault> {
        CompiledEngine::Liquid(self.engine).point(math, whole(1), ambient_pa, zero())
    }

    /// Steady operating point at full thrust and ambient.
    pub fn steady_point<M: Numerics>(
        &self,
        math: &M,
        ambient_pa: F64,
    ) -> (r: Result<EngineOperatingPoint, PropulsionError>)
        ensures
            repeatable(math) ==> seen(r) == self.steady(math, ambient_pa),
            r is Err ==> seen(r) == self.steady(math, ambient_pa),
    {
        self.engine.operating_point(math, whole(1), ambient_pa)
    }

    /// One valve pulse at ambient, or what stops it.
    pub open spec fn pulsed<M: Numerics>(&self, math: &M, on_time_s: F64, ambient_pa: F64) -> Result<RcsPulse, Fault> {
        if !(on_time_s >= zero()) {
            Err(bad_command("pulse on-time must be finite and >= 0"))
        } else {
            match self.steady(math, ambient_pa) {
                Err(fault) => Err(fault),
                Ok(point) => Ok(deliver_pulse(point.thrust_n, point.mass_flow_kg_s, on_time_s, self.valve_rise_time_s)),
            }
        }
    }

    /// One valve pulse at ambient.
    pub fn pulse<M: Numerics>(
        &self,
        math: &M,
        on_time_s: F64,
        ambient_pa: F64,
    ) -> (r: Result<RcsPulse, PropulsionError>)
        ensures
            repeatable(math) ==> seen(r) == self.pulsed(math, on_time_s, ambient_pa),
            r is Err ==> seen(r) == self.pulsed(math, on_time_s, ambient_pa),
            !(on_time_s >= zero()) ==> r is Err,
    {
        if !(on_time_s >= zero()) {
            return Err(invalid_command("pulse on-time must be finite and >= 0"));
        }
        let point: EngineOperatingPoint = self.steady_point(math, ambient_pa)?;
        Ok(deliver_pulse(point.thrust_n, point.mass_flow_kg_s, on_time_s, self.valve_rise_time_s))
    }

    /// Minimum impulse bit in vacuum.
    pub fn min_impulse_bit_ns<M: Numerics>(&self, math: &M) -> (r: F64)
        ensures
            repeatable(math) ==> r == impulse_or_none(self.pulsed(math, self.min_on_time_s, zero())),
    {
        match self.pulse(math, self.min_on_time_s, zero()) {
            Ok(pulse) => pulse.impulse_ns,
            Err(_) => zero(),
        }
    }
}

/// One thruster of either family for cluster assembly.
#[derive(Debug, Clone, PartialEq)]
pub enum RcsThruster {
    Monoprop(CompiledMonoprop),
    ColdGas(CompiledColdGas),
}

impl RcsThruster {
    /// Display name.
    pub fn name(&self) -> (r: &str)
        ensures
            r@ == match *self {
                RcsThruster::Monoprop(thruster) => thruster.engine.name@,
                RcsThruster::ColdGas(thruster) => thruster.name@,
            },
    {
        match self {
            RcsThruster::Monoprop(thruster) => thruster.engine.name.as_str(),
            RcsThruster::ColdGas(thruster) => thruster.name.as_str(),
        }
    }

    /// Steady operating point at inlet pressure (cold gas) and ambient, or what stops it.
    pub open spec fn steady<M: Numerics>(&self, math: &M, inlet_pressure_pa: F64, ambient_pa: F64) -> Result<
        EngineOperatingPoint,
        Fault,
    > {
        match self {
            RcsThruster::Monoprop(thruster) => thruster.steady(math, ambient_pa),
            RcsThruster::ColdGas(thruster) => thruster.steady(math, inlet_pressure_pa, ambient_pa),
        }
    }

    /// Steady thrust (N) at inlet pressure (cold gas) and ambient.
    /// Monopropellant ignores inlet pressure (regulated feed).
    pub fn steady_thrust_n<M: Numerics>(
        &self,
        math: &M,
        inlet_pressure_pa: F64,
        ambient_pa: F64,
    ) -> (r: Result<F64, PropulsionError>)
        ensures
            repeatable(math) ==> seen(r) == match self.steady(math, inlet_pressure_pa, ambient_pa) {
                Ok(point) => Ok(point.thrust_n),
                Err(fault) => Err(fault),
            },
    {
        let point: EngineOperatingPoint = match self {
            RcsThruster::Monoprop(thruster) => thruster.steady_point(math, ambient_pa)?,
            RcsThruster::ColdGas(thruster) => thruster.steady_point(math, inlet_pressure_pa, ambient_pa)?,
        };
        Ok(point.thrust_n)
    }

    /// One valve pulse at inlet pressure and ambient, or what stops it.
    pub open spec fn pulsed<M: Numerics>(
        &self,
        math: &M,
        on_time_s: F64,
        inlet_pressure_pa: F64,
        ambient_pa: F64,
    ) -> Result<
        RcsPulse,
        Fault,
    > {
        match self {
            RcsThruster::Monoprop(thruster) => thruster.pulsed(math, on_time_s, ambient_pa),
            RcsThruster::ColdGas(thruster) => thruster.pulsed(math, on_time_s, inlet_pressure_pa, ambient_pa),
        }
    }

    /// One valve pulse at inlet pressure and ambient.
    pub fn pulse<M: Numerics>(&self, math: &M, on_time_s: F64, inlet_pressure_pa: F64, ambient_pa: F64) -> (r: Result<
        RcsPulse,
        PropulsionError,
    >)
        ensures
            repeatable(math) ==> seen(r) == self.pulsed(math, on_time_s, inlet_pressure_pa, ambient_pa),
            !(on_time_s >= zero()) ==> seen(r) == self.pulsed(math, on_time_s, inlet_pressure_pa, ambient_pa),
    {
        match self {
            RcsThruster::Monoprop(thruster) => thruster.pulse(math, on_time_s, ambient_pa),
            RcsThruster::ColdGas(thruster) => thruster.pulse(math, on_time_s, inlet_pressure_pa, ambient_pa),
        }
    }

    /// Minimum impulse bit (N s) at rated feed in vacuum.
    pub fn min_impulse_bit_ns<M: Numerics>(&self, math: &M, rated_inlet_pa: F64) -> (r: F64)
        ensures
            repeatable(math) ==> r == match *self {
                RcsThruster::Monoprop(thruster) => impulse_or_none(thruster.pulsed(math, thruster.min_on_time_s, zero())),
                RcsThruster::ColdGas(thruster) => impulse_or_none(
                    thruster.pulsed(math, thruster.min_on_time_s, rated_inlet_pa, zero()),
                ),
            },
    {
        match self {
            RcsThruster::Monoprop(thruster) => thruster.min_impulse_bit_ns(math),
            RcsThruster::ColdGas(thruster) => match thruster.pulse(math, thruster.min_on_time_s, rated_inlet_pa, zero()) {
                Ok(pulse) => pulse.impulse_ns,
                Err(_) => zero(),
            },
        }
    }
}

/// One thruster installed on the airframe.
#[derive(Debug, Clone, PartialEq)]
pub struct RcsMount {
    pub name: String,
    pub thruster: RcsThruster,
    /// Nozzle station in vehicle body metres.
    pub position_body_m: Vector,
    /// Unit thrust direction in vehicle body axes.
    pub direction_body: Vector,
}

impl RcsMount {
    /// What is wrong with the mount, if anything.
    pub open spec fn fault(&self) -> Option<Fault> {
        checks()
            .refuse(blank(self.name@), bad_spec("RCS mount needs a name"))
            .refuse(!self.position_body_m.is_finite(), bad_spec("RCS position must be finite"))
            .refuse(!self.direction_body.is_finite(), bad_spec("RCS direction must be finite"))
            .refuse(!self.direction_body.is_unit(), bad_spec("RCS direction must be unit length"))
            .fault
    }

    /// Validates mount data (NaN fails closed; the direction must be unit).
    pub fn validate(&self) -> (r: Result<(), PropulsionError>)
        ensures
            seen(r) == outcome(self.fault()),
    {
        if is_blank(self.name.as_str()) {
            return Err(invalid_spec("RCS mount needs a name"));
        }
        if !self.position_body_m.is_finite() {
            return Err(invalid_spec("RCS position must be finite"));
        }
        if !self.direction_body.is_finite() {
            return Err(invalid_spec("RCS direction must be finite"));
        }
        if !self.direction_body.is_unit() {
            return Err(invalid_spec("RCS direction must be unit length"));
        }
        Ok(())
    }
}

/// A mounted block of thrusters firing coordinated pulses.
#[derive(Debug, Clone, PartialEq)]
pub struct RcsCluster {
    pub mounts: Vec<RcsMount>,
}

/// What is wrong with the mounts from the `i`th on.
pub open spec fn mounts_fault(mounts: Seq<RcsMount>, i: int) -> Option<Fault>
    decreases mounts.len() - i,
{
    if i < 0 || i >= mounts.len() {
        None
    } else {
        match mounts[i].fault() {
            Some(fault) => Some(fault),
            None => mounts_fault(mounts, i + 1),
        }
    }
}

/// The refusal of a command of the wrong length.
pub open spec fn arity_fault(expected: nat, what: Seq<char>, got: nat) -> Fault {
    Fault::InvalidCommand("expected "@ + number_text(expected) + what + number_text(got))
}

fn arity_error(expected: usize, what: &str, got: usize) -> (r: PropulsionError)
    ensures
        r@ == arity_fault(expected as nat, what@, got as nat),
{
    let text: String = join("expected ", number(expected).as_str());
    let text: String = join(text.as_str(), what);
    PropulsionError::InvalidCommand(join(text.as_str(), number(got).as_str()))
}

/// [`wrench_with`] in contracts.
pub open spec fn wrench_with_spec(
    wrench: (Vector, Vector),
    position: Vector,
    direction: Vector,
    amount: F64,
) -> (Vector, Vector) {
    let contribution = direction.scaled(amount);
    (wrench.0.plus(contribution), wrench.1.plus(position.cross(contribution)))
}

/// What a mount adds to the wrench about the body origin.
#[verifier::when_used_as_spec(wrench_with_spec)]
pub fn wrench_with(wrench: (Vector, Vector), position: Vector, direction: Vector, amount: F64) -> (r: (Vector, Vector))
    ensures
        r == wrench_with(wrench, position, direction, amount),
{
    let contribution = direction.scaled(amount);
    (wrench.0.plus(contribution), wrench.1.plus(position.cross(contribution)))
}

/// What is wrong with a duty cycle, if anything.
pub open spec fn duty_fault(duty: F64) -> Option<Fault> {
    checks()
        .non_negative(duty, "duty")
        .refuse(duty > whole(1) || !duty.is_finite(), bad_command("duty must be finite in [0, 1]"))
        .fault
}

fn check_duty(duty: F64) -> (r: Result<(), PropulsionError>)
    ensures
        seen(r) == outcome(duty_fault(duty)),
{
    require_non_negative(duty, "duty")?;
    if duty > whole(1) || !duty.is_finite() {
        return Err(invalid_command("duty must be finite in [0, 1]"));
    }
    Ok(())
}

impl RcsCluster {
    /// What is wrong with the cluster, if anything.
    pub open spec fn fault(&self) -> Option<Fault> {
        if self.mounts@.len() == 0 {
            Some(bad_spec("RCS cluster needs at least one mount"))
        } else {
            mounts_fault(self.mounts@, 0)
        }
    }

    /// Validates the cluster (every mount; command arity is checked per call).
    pub fn validate(&self) -> (r: Result<(), PropulsionError>)
        ensures
            seen(r) == outcome(self.fault()),
    {
        if self.mounts.len() == 0 {
            return Err(invalid_spec("RCS cluster needs at least one mount"));
        }
        let mut i: usize = 0;
        while i < self.mounts.len()
            invariant
                self.mounts@.len() > 0,
                i <= self.mounts@.len(),
                mounts_fault(self.mounts@, 0) == mounts_fault(self.mounts@, i as int),
            decreases self.mounts@.len() - i,
        {
            self.mounts[i].validate()?;
            i = i + 1;
        }
        Ok(())
    }

    /// The impulse of the mounts from the `i`th on, added to `wrench`.
    pub open spec fn impulse_from<M: Numerics>(
        &self,
        math: &M,
        on_times_s: Seq<F64>,
        inlet_pressure_pa: F64,
        ambient_pa: F64,
        i: int,
        wrench: (Vector, Vector),
    ) -> Result<(Vector, Vector), Fault>
        decreases self.mounts@.len() - i,
    {
        if i < 0 || i >= self.mounts@.len() {
            Ok(wrench)
        } else {
            let mount = self.mounts@[i];
            match mount.thruster.pulsed(math, on_times_s[i], inlet_pressure_pa, ambient_pa) {
                Err(fault) => Err(fault),
                Ok(pulse) => self.impulse_from(
                    math,
                    on_times_s,
                    inlet_pressure_pa,
                    ambient_pa,
                    i + 1,
                    wrench_with(wrench, mount.position_body_m, mount.direction_body, pulse.impulse_ns),
                ),
            }
        }
    }

    /// Delivered impulse for per-thruster on-times, or what stops it.
    pub open spec fn delivered<M: Numerics>(
        &self,
        math: &M,
        on_times_s: Seq<F64>,
        inlet_pressure_pa: F64,
        ambient_pa: F64,
    ) -> Result<(Vector, Vector), Fault> {
        match self.fault() {
            Some(fault) => Err(fault),
            None => if on_times_s.len() != self.mounts@.len() {
                Err(arity_fault(self.mounts@.len(), " on-times, got "@, on_times_s.len()))
            } else {
                self.impulse_from(math, on_times_s, inlet_pressure_pa, ambient_pa, 0, (Vector::null(), Vector::null()))
            },
        }
    }

    /// Delivered impulse for per-thruster on-times: force impulse (N s) plus
    /// moment impulse about the body origin (N m s). Inlet pressure feeds the
    /// cold-gas members (shared bus).
    pub fn impulse<M: Numerics>(
        &self,
        math: &M,
        on_times_s: &Vec<F64>,
        inlet_pressure_pa: F64,
        ambient_pa: F64,
    ) -> (r: Result<
        (Vector, Vector),
        PropulsionError,
    >)
        ensures
            repeatable(math) ==> seen(r) == self.delivered(math, on_times_s@, inlet_pressure_pa, ambient_pa),
            self.fault() is Some || on_times_s@.len() != self.mounts@.len() ==> seen(r) == self.delivered(
                math,
                on_times_s@,
                inlet_pressure_pa,
                ambient_pa,
            ),
    {
        self.validate()?;
        if on_times_s.len() != self.mounts.len() {
            return Err(arity_error(self.mounts.len(), " on-times, got ", on_times_s.len()));
        }
        let mut wrench: (Vector, Vector) = (Vector::null(), Vector::null());
        let mut i: usize = 0;
        while i < self.mounts.len()
            invariant
                i <= self.mounts@.len(),
                on_times_s@.len() == self.mounts@.len(),
                self.fault() is None,
                repeatable(math) ==> self.delivered(math, on_times_s@, inlet_pressure_pa, ambient_pa) == self.impulse_from(
                    math,
                    on_times_s@,
                    inlet_pressure_pa,
                    ambient_pa,
                    i as int,
                    wrench,
                ),
            decreases self.mounts@.len() - i,
        {
            let mount: &RcsMount = &self.mounts[i];
            let pulse: RcsPulse = mount.thruster.pulse(math, on_times_s[i], inlet_pressure_pa, ambient_pa)?;
            wrench = wrench_with(wrench, mount.position_body_m, mount.direction_body, pulse.impulse_ns);
            i = i + 1;
        }
        Ok(wrench)
    }

    /// The average wrench of the mounts from the `i`th on, added to `wrench`.
    pub open spec fn wrench_from<M: Numerics>(
        &self,
        math: &M,
        duties: Seq<F64>,
        inlet_pressure_pa: F64,
        ambient_pa: F64,
        i: int,
        wrench: (Vector, Vector),
    ) -> Result<(Vector, Vector), Fault>
        decreases self.mounts@.len() - i,
    {
        if i < 0 || i >= self.mounts@.len() {
            Ok(wrench)
        } else {
            let mount = self.mounts@[i];
            match duty_fault(duties[i]) {
                Some(fault) => Err(fault),
                None => match mount.thruster.steady(math, inlet_pressure_pa, ambient_pa) {
                    Err(fault) => Err(fault),
                    Ok(point) => self.wrench_from(
                        math,
                        duties,
                        inlet_pressure_pa,
                        ambient_pa,
                        i + 1,
                        wrench_with(wrench, mount.position_body_m, mount.direction_body, point.thrust_n * duties[i]),
                    ),
                },
            }
        }
    }

    /// Average wrench for per-thruster duty cycles, or what stops it.
    pub open spec fn average<M: Numerics>(
        &self,
        math: &M,
        duties: Seq<F64>,
        inlet_pressure_pa: F64,
        ambient_pa: F64,
    ) -> Result<(Vector, Vector), Fault> {
        match self.fault() {
            Some(fault) => Err(fault),
            None => if duties.len() != self.mounts@.len() {
                Err(arity_fault(self.mounts@.len(), " duties, got "@, duties.len()))
            } else {
                self.wrench_from(math, duties, inlet_pressure_pa, ambient_pa, 0, (Vector::null(), Vector::null()))
            },
        }
    }

    /// Pulse-width-average wrench for per-thruster duty cycles in [0, 1]: steady
    /// force (N) plus moment about the body origin (N m).
    pub fn steady_wrench<M: Numerics>(
        &self,
        math: &M,
        duties: &Vec<F64>,
        inlet_pressure_pa: F64,
        ambient_pa: F64,
    ) -> (r: Result<
        (Vector, Vector),
        PropulsionError,
    >)
        ensures
            repeatable(math) ==> seen(r) == self.average(math, duties@, inlet_pressure_pa, ambient_pa),
            self.fault() is Some || duties@.len() != self.mounts@.len() ==> seen(r) == self.average(
                math,
                duties@,
                inlet_pressure_pa,
                ambient_pa,
            ),
    {
        self.validate()?;
        if duties.len() != self.mounts.len() {
            return Err(arity_error(self.mounts.len(), " duties, got ", duties.len()));
        }
        let mut wrench: (Vector, Vector) = (Vector::null(), Vector::null());
        let mut i: usize = 0;
        while i < self.mounts.len()
            invariant
                i <= self.mounts@.len(),
                duties@.len() == self.mounts@.len(),
                self.fault() is None,
                repeatable(math) ==> self.average(math, duties@, inlet_pressure_pa, ambient_pa) == self.wrench_from(
                    math,
                    duties@,
                    inlet_pressure_pa,
                    ambient_pa,
                    i as int,
                    wrench,
                ),
            decreases self.mounts@.len() - i,
        {
            let mount: &RcsMount = &self.mounts[i];
            check_duty(duties[i])?;
            let thrust_n: F64 = mount.thruster.steady_thrust_n(math, inlet_pressure_pa, ambient_pa)?;
            wrench = wrench_with(wrench, mount.position_body_m, mount.direction_body, thrust_n * duties[i]);
            i = i + 1;
        }
        Ok(wrench)
    }

    /// The engine mount of a monopropellant member; a cold-gas member is refused.
    pub open spec fn baked(mount: RcsMount) -> Result<EngineMount, Fault> {
        match mount.thruster {
            RcsThruster::Monoprop(compiled) => Ok(
                EngineMount {
                    name: mount.name,
                    engine: CompiledEngine::Liquid(compiled.engine),
                    position_body_m: mount.position_body_m,
                    thrust_axis_body: mount.direction_body,
                },
            ),
            RcsThruster::ColdGas(_) => Err(
                Fault::UnsupportedCombination("cold-gas member "@ + mount.name@ + " has no baked chamber model"@),
            ),
        }
    }

    /// The engine mounts of the members from the `i`th on, after `done`.
    pub open spec fn baked_from(&self, i: int, done: Seq<EngineMount>) -> Result<Seq<EngineMount>, Fault>
        decreases self.mounts@.len() - i,
    {
        if i < 0 || i >= self.mounts@.len() {
            Ok(done)
        } else {
            match RcsCluster::baked(self.mounts@[i]) {
                Err(fault) => Err(fault),
                Ok(mount) => self.baked_from(i + 1, done.push(mount)),
            }
        }
    }

    fn bake(mount: &RcsMount) -> (r: Result<EngineMount, PropulsionError>)
        ensures
            seen(r) == RcsCluster::baked(*mount),
    {
        match &mount.thruster {
            RcsThruster::Monoprop(compiled) => Ok(
                EngineMount {
                    name: copied(&mount.name),
                    engine: CompiledEngine::Liquid(compiled.engine.duplicate()),
                    position_body_m: mount.position_body_m,
                    thrust_axis_body: mount.direction_body,
                },
            ),
            RcsThruster::ColdGas(_) => {
                let text: String = join("cold-gas member ", mount.name.as_str());
                Err(PropulsionError::UnsupportedCombination(join(text.as_str(), " has no baked chamber model")))
            },
        }
    }

    /// Converts cluster mounts into vehicle engine mounts (monopropellant members
    /// only; cold gas carries no chamber model). The thrust axis is the RCS
    /// direction.
    pub fn baked_monoprop_mounts(&self) -> (r: Result<Vec<EngineMount>, PropulsionError>)
        ensures
            match self.fault() {
                Some(fault) => seen(r) == Err::<Vec<EngineMount>, Fault>(fault),
                None => match self.baked_from(0, Seq::empty()) {
                    Err(fault) => seen(r) == Err::<Vec<EngineMount>, Fault>(fault),
                    Ok(mounts) => r is Ok && r->Ok_0@ == mounts,
                },
            },
    {
        self.validate()?;
        let mut mounts: Vec<EngineMount> = Vec::new();
        let mut i: usize = 0;
        assert(mounts@ =~= Seq::empty());
        while i < self.mounts.len()
            invariant
                i <= self.mounts@.len(),
                self.fault() is None,
                self.baked_from(0, Seq::empty()) == self.baked_from(i as int, mounts@),
            decreases self.mounts@.len() - i,
        {
            mounts.push(RcsCluster::bake(&self.mounts[i])?);
            i = i + 1;
        }
        Ok(mounts)
    }
}

} // verus!
