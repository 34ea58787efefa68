//! Combined-cycle engines: an air-breathing turbojet path plus a closed-cycle
//! rocket path sharing intake ducting, chamber, and nozzle hardware. One engine,
//! two flow paths, valve-selected.
//!
//! Only one flow path is active; automatic selection uses the solved air-path
//! envelope with a Mach policy band, while manual mode can select either path. The
//! shared convergent nozzle caps rocket expansion: rocket mode buys thrust where
//! air fails, not orbital efficiency.
use crate::air::{
    air_cp_j_kg_k, air_gamma, cell_condition, combustor_efficiency, compressor_poly_efficiency, find_cell_condition,
    find_sample, sample_at, throttle_fault, AirOperatingPoint, AirReference, AirbreathingSpec, CompiledAirbreather,
    FlightCondition, JetFuel,
};
use crate::atmosphere::{AtmosphereSample, SampledAltitude};
use crate::constants::{mass_fit_feed_kg_per_n, sea_level_pa, standard_gravity_mps2};
use crate::cycle_core::AirCycleConditioning;
use crate::error::{
    bad_command, bad_spec, checks, in_unit_interval, invalid_command, invalid_spec, outcome, require_non_negative,
    require_positive, require_unit_interval, seen, unsupported, unsupported_combination, Fault, PropulsionError,
};
use crate::float::{big, dec, given_or, pi, whole, zero, F64};
use crate::nozzle::{
    characteristic_velocity, exit_state_at, mach_from_area_ratio, pressure_ratio_at, solved_mach, thrust_coefficient,
    NozzleExitState,
};
use crate::numerics::{exp, fixed, fixed_text, powf, powi, repeatable, Numerics};
use crate::propellant::PropellantThermo;
use crate::shaft::{JetShaftState, ShaftBalance};
use crate::text::{blank, copied, is_blank, join};
use vstd::prelude::*;

verus! {

/// [`estoc_max_rocket_pc_pa`] in contracts.
pub open spec fn estoc_max_rocket_pc_pa_spec() -> F64 {
    big(35, 6)
}

/// Rocket pump-feed pressure cap (Pa).
#[verifier::when_used_as_spec(estoc_max_rocket_pc_pa_spec)]
pub fn estoc_max_rocket_pc_pa() -> (r: F64)
    ensures
        r == estoc_max_rocket_pc_pa(),
{
    big(35, 6)
}

/// [`estoc_default_switch_mach_hi`] in contracts.
pub open spec fn estoc_default_switch_mach_hi_spec() -> F64 {
    dec(35, 1)
}

/// Default upper edge of the switch Mach band.
#[verifier::when_used_as_spec(estoc_default_switch_mach_hi_spec)]
pub fn estoc_default_switch_mach_hi() -> (r: F64)
    ensures
        r == estoc_default_switch_mach_hi(),
{
    dec(35, 1)
}

/// [`estoc_default_switch_mach_lo`] in contracts.
pub open spec fn estoc_default_switch_mach_lo_spec() -> F64 {
    dec(32, 1)
}

/// Default lower edge of the switch Mach band.
#[verifier::when_used_as_spec(estoc_default_switch_mach_lo_spec)]
pub fn estoc_default_switch_mach_lo() -> (r: F64)
    ensures
        r == estoc_default_switch_mach_lo(),
{
    dec(32, 1)
}

/// [`estoc_default_transition_tau_s`] in contracts.
pub open spec fn estoc_default_transition_tau_s_spec() -> F64 {
    whole(3)
}

/// Default mode-transition thrust lag (s).
#[verifier::when_used_as_spec(estoc_default_transition_tau_s_spec)]
pub fn estoc_default_transition_tau_s() -> (r: F64)
    ensures
        r == estoc_default_transition_tau_s(),
{
    whole(3)
}

/// [`estoc_reinforcement_fraction`] in contracts.
pub open spec fn estoc_reinforcement_fraction_spec() -> F64 {
    dec(5, 2)
}

/// Shared-structure reinforcement as a fraction of air-path dry mass: the ducting
/// carries both pressure regimes.
#[verifier::when_used_as_spec(estoc_reinforcement_fraction_spec)]
pub fn estoc_reinforcement_fraction() -> (r: F64)
    ensures
        r == estoc_reinforcement_fraction(),
{
    dec(5, 2)
}

/// Operating mode (valve-selected, never blended).
#[derive(Debug, Clone, Copy, PartialEq, Eq, Hash, Structural)]
pub enum EstocMode {
    Air,
    Rocket,
    Ejector,
}

/// One regenerative air precooler: exchanger effectiveness and duty, a
/// finite-temperature wall store, coolant thermodynamics, and compressor inlet
/// limits.
#[derive(Debug, Clone, Copy, PartialEq)]
pub struct EstocPrecoolerSpec {
    pub maximum_heat_flow_w: F64,
    pub effectiveness: F64,
    pub maximum_compressor_inlet_temp_k: F64,
    pub pressure_recovery: F64,
    pub wall_mass_kg: F64,
    pub wall_specific_heat_j_kg_k: F64,
    pub wall_initial_temp_k: F64,
    pub wall_max_temp_k: F64,
    pub coolant_inlet_temp_k: F64,
    pub coolant_max_outlet_temp_k: F64,
    pub coolant_specific_heat_j_kg_k: F64,
    pub maximum_coolant_flow_kg_s: F64,
}

impl EstocPrecoolerSpec {
    /// What is wrong with the precooler, if anything.
    pub open spec fn fault(&self) -> Option<Fault> {
        let coolant_heat_j_kg = (self.coolant_max_outlet_temp_k - self.coolant_inlet_temp_k)
            * self.coolant_specific_heat_j_kg_k;
        checks()
            .positive(self.maximum_heat_flow_w, "pre-cooler maximum heat flow")
            .unit_interval(self.effectiveness, "pre-cooler effectiveness")
            .positive(self.maximum_compressor_inlet_temp_k, "pre-cooler compressor-inlet temperature limit")
            .positive(self.pressure_recovery, "pre-cooler pressure recovery")
            .refuse(self.pressure_recovery > whole(1), bad_spec("pre-cooler pressure recovery must be <= 1"))
            .positive(self.wall_mass_kg, "pre-cooler wall mass")
            .positive(self.wall_specific_heat_j_kg_k, "pre-cooler wall specific heat")
            .positive(self.wall_initial_temp_k, "pre-cooler initial wall temperature")
            .positive(self.wall_max_temp_k, "pre-cooler maximum wall temperature")
            .refuse(
                self.wall_initial_temp_k > self.wall_max_temp_k,
                bad_spec("pre-cooler wall starts above its temperature limit"),
            )
            .positive(self.coolant_inlet_temp_k, "pre-cooler coolant inlet temperature")
            .positive(self.coolant_max_outlet_temp_k, "pre-cooler coolant outlet temperature limit")
            .refuse(
                self.coolant_max_outlet_temp_k <= self.coolant_inlet_temp_k,
                bad_spec("pre-cooler coolant outlet limit must exceed its inlet temperature"),
            )
            .positive(self.coolant_specific_heat_j_kg_k, "pre-cooler coolant specific heat")
            .non_negative(self.maximum_coolant_flow_kg_s, "pre-cooler maximum coolant flow")
            .refuse(
                !(self.wall_mass_kg * self.wall_specific_heat_j_kg_k).is_finite() || !(self.maximum_coolant_flow_kg_s
                    * self.coolant_specific_heat_j_kg_k).is_finite() || !coolant_heat_j_kg.is_finite(),
                bad_spec("pre-cooler derived thermal capacities must be finite"),
            )
            .fault
    }

    pub fn validate(&self) -> (r: Result<(), PropulsionError>)
        ensures
            seen(r) == outcome(self.fault()),
    {
        require_positive(self.maximum_heat_flow_w, "pre-cooler maximum heat flow")?;
        require_unit_interval(self.effectiveness, "pre-cooler effectiveness")?;
        require_positive(self.maximum_compressor_inlet_temp_k, "pre-cooler compressor-inlet temperature limit")?;
        require_positive(self.pressure_recovery, "pre-cooler pressure recovery")?;
        if self.pressure_recovery > whole(1) {
            return Err(invalid_spec("pre-cooler pressure recovery must be <= 1"));
        }
        require_positive(self.wall_mass_kg, "pre-cooler wall mass")?;
        require_positive(self.wall_specific_heat_j_kg_k, "pre-cooler wall specific heat")?;
        require_positive(self.wall_initial_temp_k, "pre-cooler initial wall temperature")?;
        require_positive(self.wall_max_temp_k, "pre-cooler maximum wall temperature")?;
        if self.wall_initial_temp_k > self.wall_max_temp_k {
            return Err(invalid_spec("pre-cooler wall starts above its temperature limit"));
        }
        require_positive(self.coolant_inlet_temp_k, "pre-cooler coolant inlet temperature")?;
        require_positive(self.coolant_max_outlet_temp_k, "pre-cooler coolant outlet temperature limit")?;
        if self.coolant_max_outlet_temp_k <= self.coolant_inlet_temp_k {
            return Err(invalid_spec("pre-cooler coolant outlet limit must exceed its inlet temperature"));
        }
        require_positive(self.coolant_specific_heat_j_kg_k, "pre-cooler coolant specific heat")?;
        require_non_negative(self.maximum_coolant_flow_kg_s, "pre-cooler maximum coolant flow")?;
        let coolant_heat_j_kg: F64 = (self.coolant_max_outlet_temp_k - self.coolant_inlet_temp_k)
            * self.coolant_specific_heat_j_kg_k;
        if !(self.wall_mass_kg * self.wall_specific_heat_j_kg_k).is_finite() || !(self.maximum_coolant_flow_kg_s
            * self.coolant_specific_heat_j_kg_k).is_finite() || !coolant_heat_j_kg.is_finite() {
            return Err(invalid_spec("pre-cooler derived thermal capacities must be finite"));
        }
        Ok(())
    }
}

/// Geometry and mixing efficiency of an air-augmented rocket ejector. Captured air
/// is bounded by the inlet area and free-stream mass flux; the mixed jet speed
/// follows the rocket kinetic-energy budget.
#[derive(Debug, Clone, Copy, PartialEq)]
pub struct EstocEjectorSpec {
    pub capture_area_m2: F64,
    pub mixing_length_m: F64,
    pub mixing_efficiency: F64,
    pub structure_density_kg_m3: F64,
    pub wall_thickness_m: F64,
}

impl EstocEjectorSpec {
    /// What is wrong with the ejector, if anything.
    pub open spec fn fault(&self) -> Option<Fault> {
        checks()
            .positive(self.capture_area_m2, "ejector capture area")
            .positive(self.mixing_length_m, "ejector mixing length")
            .unit_interval(self.mixing_efficiency, "ejector mixing efficiency")
            .positive(self.structure_density_kg_m3, "ejector structure density")
            .positive(self.wall_thickness_m, "ejector wall thickness")
            .fault
    }

    pub fn validate(&self) -> (r: Result<(), PropulsionError>)
        ensures
            seen(r) == outcome(self.fault()),
    {
        require_positive(self.capture_area_m2, "ejector capture area")?;
        require_positive(self.mixing_length_m, "ejector mixing length")?;
        require_unit_interval(self.mixing_efficiency, "ejector mixing efficiency")?;
        require_positive(self.structure_density_kg_m3, "ejector structure density")?;
        require_positive(self.wall_thickness_m, "ejector wall thickness")?;
        Ok(())
    }

    /// [`Self::dry_mass_kg`] in contracts.
    pub open spec fn dry_mass_kg_spec(self) -> F64 {
        let radius_m = (self.capture_area_m2 / pi()).sqrt();
        whole(2) * pi() * radius_m * self.mixing_length_m * self.wall_thickness_m * self.structure_density_kg_m3
    }

    /// Mass of the mixing duct (kg).
    #[verifier::when_used_as_spec(dry_mass_kg_spec)]
    pub fn dry_mass_kg(self) -> (r: F64)
        ensures
            r == self.dry_mass_kg(),
    {
        let radius_m = (self.capture_area_m2 / pi()).sqrt();
        whole(2) * pi() * radius_m * self.mixing_length_m * self.wall_thickness_m * self.structure_density_kg_m3
    }
}

/// An ejector with its mass.
#[derive(Debug, Clone, Copy, PartialEq)]
pub struct CompiledEjector {
    pub spec: EstocEjectorSpec,
    pub dry_mass_kg: F64,
}

/// Authoring: shared air path plus rocket chamber data.
#[derive(Debug, Clone, PartialEq)]
pub struct EstocSpec {
    pub name: String,
    pub air: AirbreathingSpec,
    /// Dense primary propellant for both open and closed paths; `None` keeps
    /// `air.fuel`.
    pub bulk_fuel: Option<JetFuel>,
    /// Optional fuel metered through the precooler and burned downstream.
    pub boost_coolant_fuel: Option<JetFuel>,
    /// Optional regenerative inlet precooler.
    pub precooler: Option<EstocPrecoolerSpec>,
    /// Optional anoxic-atmosphere ejector path.
    pub ejector: Option<EstocEjectorSpec>,
    /// Rocket chamber pressure (Pa).
    pub rocket_chamber_pressure_pa: F64,
    /// Rocket throat radius (m); expansion follows from the shared nozzle exit.
    pub rocket_throat_radius_m: F64,
    /// Oxidizer/fuel ratio override; `None` = LOX-pair reference.
    pub oxidizer_fuel_ratio: Option<F64>,
    /// Switch band overrides (Mach); `None` = defaults.
    pub switch_mach_hi: Option<F64>,
    pub switch_mach_lo: Option<F64>,
    /// Transition lag override (s).
    pub transition_tau_s: Option<F64>,
}

/// Compiled combined cycle: shared air core plus rocket chamber data.
#[derive(Debug, Clone, PartialEq)]
pub struct CompiledEstoc {
    pub name: String,
    pub air: CompiledAirbreather,
    pub bulk_fuel: JetFuel,
    pub boost_coolant_fuel: Option<JetFuel>,
    pub precooler: Option<EstocPrecoolerSpec>,
    pub ejector: Option<CompiledEjector>,
    pub rocket_chamber_pressure_pa: F64,
    pub rocket_throat_area_m2: F64,
    pub rocket_expansion_ratio: F64,
    pub oxidizer_fuel_ratio: F64,
    pub rocket_gamma: F64,
    pub rocket_chamber_temp_k: F64,
    pub rocket_gas_constant: F64,
    pub rocket_c_star_mps: F64,
    pub rocket_exit_mach: F64,
    pub rocket_exit_temp_k: F64,
    pub rocket_exhaust_velocity_mps: F64,
    pub rocket_thrust_sl_n: F64,
    pub rocket_thrust_vac_n: F64,
    pub rocket_isp_sl_s: F64,
    pub rocket_isp_vac_s: F64,
    pub rocket_flow_kg_s: F64,
    pub rocket_extra_mass_kg: F64,
    pub dry_mass_kg: F64,
    pub feed_pressure_required_pa: F64,
    pub switch_mach_hi: F64,
    pub switch_mach_lo: F64,
    pub transition_tau_s: F64,
    pub min_throttle: F64,
}

/// Transition state: the full smoothed snapshot threaded across ticks, so that
/// mode changes evolve every channel instead of snapping one scalar.
#[derive(Debug, Clone, Copy, PartialEq)]
pub struct EstocTransient {
    pub thrust_n: F64,
    pub fuel_flow_kg_s: F64,
    pub bulk_fuel_flow_kg_s: F64,
    pub boost_fuel_flow_kg_s: F64,
    pub oxidizer_flow_kg_s: F64,
    pub air_flow_kg_s: F64,
    pub exhaust_temp_k: F64,
    pub exhaust_velocity_mps: F64,
    pub exit_pressure_pa: F64,
    pub exit_mach: F64,
    pub compressor_inlet_total_temp_k: F64,
    pub precooler_heat_flow_w: F64,
    pub precooler_wall_heat_flow_w: F64,
    pub precooler_wall_temp_k: F64,
    pub coolant_outlet_temp_k: F64,
}

/// One operating point (single active mode).
#[derive(Debug, Clone, Copy, PartialEq)]
pub struct EstocPoint {
    pub mode: EstocMode,
    pub thrust_n: F64,
    pub fuel_flow_kg_s: F64,
    pub bulk_fuel_flow_kg_s: F64,
    pub boost_fuel_flow_kg_s: F64,
    /// LOX flow in rocket mode, 0 in air mode.
    pub oxidizer_flow_kg_s: F64,
    pub air_flow_kg_s: F64,
    /// Isp over all onboard propellant (fuel and oxidizer).
    pub isp_total_s: F64,
    pub exhaust_temp_k: F64,
    pub exhaust_velocity_mps: F64,
    pub exit_pressure_pa: F64,
    pub exit_mach: F64,
    pub compressor_inlet_total_temp_k: F64,
    pub precooler_heat_flow_w: F64,
    pub precooler_wall_heat_flow_w: F64,
    pub precooler_wall_temp_k: F64,
    pub coolant_outlet_temp_k: F64,
    pub precooler_saturated: bool,
}

/// [`point_of`] in contracts.
pub open spec fn point_of_spec(
    transient: EstocTransient,
    mode: EstocMode,
    isp_total_s: F64,
    precooler_saturated: bool,
) -> EstocPoint {
    EstocPoint {
        mode,
        thrust_n: transient.thrust_n,
        fuel_flow_kg_s: transient.fuel_flow_kg_s,
        bulk_fuel_flow_kg_s: transient.bulk_fuel_flow_kg_s,
        boost_fuel_flow_kg_s: transient.boost_fuel_flow_kg_s,
        oxidizer_flow_kg_s: transient.oxidizer_flow_kg_s,
        air_flow_kg_s: transient.air_flow_kg_s,
        isp_total_s,
        exhaust_temp_k: transient.exhaust_temp_k,
        exhaust_velocity_mps: transient.exhaust_velocity_mps,
        exit_pressure_pa: transient.exit_pressure_pa,
        exit_mach: transient.exit_mach,
        compressor_inlet_total_temp_k: transient.compressor_inlet_total_temp_k,
        precooler_heat_flow_w: transient.precooler_heat_flow_w,
        precooler_wall_heat_flow_w: transient.precooler_wall_heat_flow_w,
        precooler_wall_temp_k: transient.precooler_wall_temp_k,
        coolant_outlet_temp_k: transient.coolant_outlet_temp_k,
        precooler_saturated,
    }
}

/// The point that reports a transition state.
#[verifier::when_used_as_spec(point_of_spec)]
pub fn point_of(
    transient: EstocTransient,
    mode: EstocMode,
    isp_total_s: F64,
    precooler_saturated: bool,
) -> (r: EstocPoint)
    ensures
        r == point_of(transient, mode, isp_total_s, precooler_saturated),
{
    EstocPoint {
        mode,
        thrust_n: transient.thrust_n,
        fuel_flow_kg_s: transient.fuel_flow_kg_s,
        bulk_fuel_flow_kg_s: transient.bulk_fuel_flow_kg_s,
        boost_fuel_flow_kg_s: transient.boost_fuel_flow_kg_s,
        oxidizer_flow_kg_s: transient.oxidizer_flow_kg_s,
        air_flow_kg_s: transient.air_flow_kg_s,
        isp_total_s,
        exhaust_temp_k: transient.exhaust_temp_k,
        exhaust_velocity_mps: transient.exhaust_velocity_mps,
        exit_pressure_pa: transient.exit_pressure_pa,
        exit_mach: transient.exit_mach,
        compressor_inlet_total_temp_k: transient.compressor_inlet_total_temp_k,
        precooler_heat_flow_w: transient.precooler_heat_flow_w,
        precooler_wall_heat_flow_w: transient.precooler_wall_heat_flow_w,
        precooler_wall_temp_k: transient.precooler_wall_temp_k,
        coolant_outlet_temp_k: transient.coolant_outlet_temp_k,
        precooler_saturated,
    }
}

/// [`air_snapshot`] in contracts.
pub open spec fn air_snapshot_spec(point: AirOperatingPoint, wall_temp_k: F64, coolant_temp_k: F64) -> EstocTransient {
    EstocTransient {
        thrust_n: point.thrust_n.max(zero()),
        fuel_flow_kg_s: point.fuel_flow_kg_s,
        bulk_fuel_flow_kg_s: point.bulk_fuel_flow_kg_s,
        boost_fuel_flow_kg_s: point.boost_fuel_flow_kg_s,
        oxidizer_flow_kg_s: zero(),
        air_flow_kg_s: point.air_flow_kg_s,
        exhaust_temp_k: point.exhaust_temp_k,
        exhaust_velocity_mps: point.exhaust_velocity_mps,
        exit_pressure_pa: point.exit_pressure_pa,
        exit_mach: point.exit_mach,
        compressor_inlet_total_temp_k: point.compressor_inlet_total_temp_k,
        precooler_heat_flow_w: point.precooler_heat_flow_w,
        precooler_wall_heat_flow_w: point.precooler_wall_heat_flow_w,
        precooler_wall_temp_k: wall_temp_k,
        coolant_outlet_temp_k: coolant_temp_k,
    }
}

/// The snapshot of an air-path point.
#[verifier::when_used_as_spec(air_snapshot_spec)]
pub fn air_snapshot(point: AirOperatingPoint, wall_temp_k: F64, coolant_temp_k: F64) -> (r: EstocTransient)
    ensures
        r == air_snapshot(point, wall_temp_k, coolant_temp_k),
{
    EstocTransient {
        thrust_n: point.thrust_n.max(zero()),
        fuel_flow_kg_s: point.fuel_flow_kg_s,
        bulk_fuel_flow_kg_s: point.bulk_fuel_flow_kg_s,
        boost_fuel_flow_kg_s: point.boost_fuel_flow_kg_s,
        oxidizer_flow_kg_s: zero(),
        air_flow_kg_s: point.air_flow_kg_s,
        exhaust_temp_k: point.exhaust_temp_k,
        exhaust_velocity_mps: point.exhaust_velocity_mps,
        exit_pressure_pa: point.exit_pressure_pa,
        exit_mach: point.exit_mach,
        compressor_inlet_total_temp_k: point.compressor_inlet_total_temp_k,
        precooler_heat_flow_w: point.precooler_heat_flow_w,
        precooler_wall_heat_flow_w: point.precooler_wall_heat_flow_w,
        precooler_wall_temp_k: wall_temp_k,
        coolant_outlet_temp_k: coolant_temp_k,
    }
}

/// [`lerp`] in contracts.
pub open spec fn lerp_spec(old: F64, new: F64, alpha: F64) -> F64 {
    old + (new - old) * alpha
}

/// A value part of the way from `old` to `new`.
#[verifier::when_used_as_spec(lerp_spec)]
pub fn lerp(old: F64, new: F64, alpha: F64) -> (r: F64)
    ensures
        r == lerp(old, new, alpha),
{
    old + (new - old) * alpha
}

/// [`blend`] in contracts.
pub open spec fn blend_spec(old: EstocTransient, new: EstocTransient, alpha: F64) -> EstocTransient {
    EstocTransient {
        thrust_n: lerp(old.thrust_n, new.thrust_n, alpha),
        fuel_flow_kg_s: lerp(old.fuel_flow_kg_s, new.fuel_flow_kg_s, alpha),
        bulk_fuel_flow_kg_s: lerp(old.bulk_fuel_flow_kg_s, new.bulk_fuel_flow_kg_s, alpha),
        boost_fuel_flow_kg_s: lerp(old.boost_fuel_flow_kg_s, new.boost_fuel_flow_kg_s, alpha),
        oxidizer_flow_kg_s: lerp(old.oxidizer_flow_kg_s, new.oxidizer_flow_kg_s, alpha),
        air_flow_kg_s: lerp(old.air_flow_kg_s, new.air_flow_kg_s, alpha),
        exhaust_temp_k: lerp(old.exhaust_temp_k, new.exhaust_temp_k, alpha),
        exhaust_velocity_mps: lerp(old.exhaust_velocity_mps, new.exhaust_velocity_mps, alpha),
        exit_pressure_pa: lerp(old.exit_pressure_pa, new.exit_pressure_pa, alpha),
        exit_mach: lerp(old.exit_mach, new.exit_mach, alpha),
        compressor_inlet_total_temp_k: lerp(old.compressor_inlet_total_temp_k, new.compressor_inlet_total_temp_k, alpha),
        precooler_heat_flow_w: lerp(old.precooler_heat_flow_w, new.precooler_heat_flow_w, alpha),
        precooler_wall_heat_flow_w: lerp(old.precooler_wall_heat_flow_w, new.precooler_wall_heat_flow_w, alpha),
        precooler_wall_temp_k: new.precooler_wall_temp_k,
        coolant_outlet_temp_k: new.coolant_outlet_temp_k,
    }
}

/// Every flow and exhaust channel part of the way from `old` to `new`; the wall
/// and coolant temperatures are integrated elsewhere and taken as they are.
#[verifier::when_used_as_spec(blend_spec)]
pub fn blend(old: EstocTransient, new: EstocTransient, alpha: F64) -> (r: EstocTransient)
    ensures
        r == blend(old, new, alpha),
{
    EstocTransient {
        thrust_n: lerp(old.thrust_n, new.thrust_n, alpha),
        fuel_flow_kg_s: lerp(old.fuel_flow_kg_s, new.fuel_flow_kg_s, alpha),
        bulk_fuel_flow_kg_s: lerp(old.bulk_fuel_flow_kg_s, new.bulk_fuel_flow_kg_s, alpha),
        boost_fuel_flow_kg_s: lerp(old.boost_fuel_flow_kg_s, new.boost_fuel_flow_kg_s, alpha),
        oxidizer_flow_kg_s: lerp(old.oxidizer_flow_kg_s, new.oxidizer_flow_kg_s, alpha),
        air_flow_kg_s: lerp(old.air_flow_kg_s, new.air_flow_kg_s, alpha),
        exhaust_temp_k: lerp(old.exhaust_temp_k, new.exhaust_temp_k, alpha),
        exhaust_velocity_mps: lerp(old.exhaust_velocity_mps, new.exhaust_velocity_mps, alpha),
        exit_pressure_pa: lerp(old.exit_pressure_pa, new.exit_pressure_pa, alpha),
        exit_mach: lerp(old.exit_mach, new.exit_mach, alpha),
        compressor_inlet_total_temp_k: lerp(old.compressor_inlet_total_temp_k, new.compressor_inlet_total_temp_k, alpha),
        precooler_heat_flow_w: lerp(old.precooler_heat_flow_w, new.precooler_heat_flow_w, alpha),
        precooler_wall_heat_flow_w: lerp(old.precooler_wall_heat_flow_w, new.precooler_wall_heat_flow_w, alpha),
        precooler_wall_temp_k: new.precooler_wall_temp_k,
        coolant_outlet_temp_k: new.coolant_outlet_temp_k,
    }
}

impl EstocSpec {
    /// What is wrong with the authoring values, if anything.
    pub open spec fn fault<M: Numerics>(&self, math: &M) -> Option<Fault> {
        let switch_mach_hi = given_or(self.switch_mach_hi, estoc_default_switch_mach_hi());
        let switch_mach_lo = given_or(self.switch_mach_lo, estoc_default_switch_mach_lo());
        let first = checks()
            .refuse(blank(self.name@), bad_spec("engine name must not be empty"))
            .refuse(
                !self.air.cycle.has_shaft(),
                bad_spec("combined cycle builds on a turbomachinery air path, not a ramjet/scramjet"),
            )
            .refuse(
                self.boost_coolant_fuel is Some && self.precooler is None,
                bad_spec("boost/coolant fuel requires an ESTOC pre-cooler"),
            );
        let second = match self.precooler {
            Some(precooler) => first.part(precooler.fault()),
            None => first,
        };
        let third = match self.ejector {
            Some(ejector) => second.part(ejector.fault()).refuse(
                !ejector.dry_mass_kg().is_finite(),
                bad_spec("ejector geometry produces non-finite mass"),
            ),
            None => second,
        };
        let fourth = third
            .positive(self.rocket_chamber_pressure_pa, "rocket chamber pressure")
            .refuse(
                self.rocket_chamber_pressure_pa > estoc_max_rocket_pc_pa(),
                Fault::UnsupportedCombination(
                    "rocket pump feed caps at "@ + fixed_text(math, estoc_max_rocket_pc_pa() / big(1, 6), 1) + " MPa"@,
                ),
            )
            .positive(self.rocket_throat_radius_m, "rocket throat radius");
        let fifth = match self.oxidizer_fuel_ratio {
            Some(ratio) => fourth.refuse(
                !ratio.is_finite() || ratio <= zero(),
                bad_spec("oxidizer/fuel ratio must be finite and > 0"),
            ),
            None => fourth,
        };
        let sixth = fifth.refuse(
            !switch_mach_hi.is_finite() || !switch_mach_lo.is_finite() || switch_mach_hi <= switch_mach_lo || switch_mach_lo
                <= zero(),
            bad_spec("switch band needs 0 < lo < hi"),
        );
        match self.transition_tau_s {
            Some(tau) => sixth.positive(tau, "transition tau").fault,
            None => sixth.fault,
        }
    }

    /// Validates the authoring values (NaN fails closed).
    pub fn validate<M: Numerics>(&self, math: &M) -> (r: Result<(), PropulsionError>)
        ensures
            repeatable(math) ==> seen(r) == outcome(self.fault(math)),
            r is Ok <==> self.fault(math) is None,
    {
        if is_blank(self.name.as_str()) {
            return Err(invalid_spec("engine name must not be empty"));
        }
        if !self.air.cycle.has_shaft() {
            return Err(invalid_spec("combined cycle builds on a turbomachinery air path, not a ramjet/scramjet"));
        }
        if self.boost_coolant_fuel.is_some() && self.precooler.is_none() {
            return Err(invalid_spec("boost/coolant fuel requires an ESTOC pre-cooler"));
        }
        if let Some(precooler) = self.precooler {
            precooler.validate()?;
        }
        if let Some(ejector) = self.ejector {
            ejector.validate()?;
            if !ejector.dry_mass_kg().is_finite() {
                return Err(invalid_spec("ejector geometry produces non-finite mass"));
            }
        }
        require_positive(self.rocket_chamber_pressure_pa, "rocket chamber pressure")?;
        if self.rocket_chamber_pressure_pa > estoc_max_rocket_pc_pa() {
            let text: String = join(
                "rocket pump feed caps at ",
                fixed(math, estoc_max_rocket_pc_pa() / big(1, 6), 1).as_str(),
            );
            return Err(PropulsionError::UnsupportedCombination(join(text.as_str(), " MPa")));
        }
        require_positive(self.rocket_throat_radius_m, "rocket throat radius")?;
        if let Some(ratio) = self.oxidizer_fuel_ratio {
            if !ratio.is_finite() || ratio <= zero() {
                return Err(invalid_spec("oxidizer/fuel ratio must be finite and > 0"));
            }
        }
        let switch_mach_hi: F64 = given_or(self.switch_mach_hi, estoc_default_switch_mach_hi());
        let switch_mach_lo: F64 = given_or(self.switch_mach_lo, estoc_default_switch_mach_lo());
        if !switch_mach_hi.is_finite() || !switch_mach_lo.is_finite() || switch_mach_hi <= switch_mach_lo || switch_mach_lo
            <= zero() {
            return Err(invalid_spec("switch band needs 0 < lo < hi"));
        }
        if let Some(tau) = self.transition_tau_s {
            require_positive(tau, "transition tau")?;
        }
        Ok(())
    }

    /// [`Self::primary_fuel`] in contracts.
    pub open spec fn primary_fuel_spec(&self) -> JetFuel {
        match self.bulk_fuel {
            Some(fuel) => fuel,
            None => self.air.fuel,
        }
    }

    /// Primary fuel of both paths.
    #[verifier::when_used_as_spec(primary_fuel_spec)]
    pub fn primary_fuel(&self) -> (r: JetFuel)
        ensures
            r == self.primary_fuel(),
    {
        match self.bulk_fuel {
            Some(fuel) => fuel,
            None => self.air.fuel,
        }
    }

    /// [`Self::throat_area_m2`] in contracts.
    pub open spec fn throat_area_m2_spec(&self) -> F64 {
        pi() * self.rocket_throat_radius_m * self.rocket_throat_radius_m
    }

    /// Rocket throat area (m^2).
    #[verifier::when_used_as_spec(throat_area_m2_spec)]
    pub fn throat_area_m2(&self) -> (r: F64)
        ensures
            r == self.throat_area_m2(),
    {
        pi() * self.rocket_throat_radius_m * self.rocket_throat_radius_m
    }

    /// [`Self::assemble`] in contracts.
    pub open spec fn assemble_spec<M: Numerics>(
        &self,
        math: &M,
        air: CompiledAirbreather,
        exit_mach: F64,
    ) -> CompiledEstoc {
        let pair = self.primary_fuel().lox_pair();
        let of_ratio = match self.oxidizer_fuel_ratio {
            Some(ratio) => ratio,
            None => given_or(pair.reference_mixture_ratio(), zero()),
        };
        let thermo = pair.thermo();
        let c_star = characteristic_velocity(math, &thermo);
        let throat_area_m2 = self.throat_area_m2();
        let expansion = air.exit_area_core_m2 / throat_area_m2;
        let exit = exit_state_at(math, &thermo, exit_mach);
        let mdot = self.rocket_chamber_pressure_pa * throat_area_m2 / c_star;
        let thrust_sl_n = thrust_coefficient(
            math,
            &thermo,
            self.rocket_chamber_pressure_pa,
            &exit,
            expansion,
            sea_level_pa(),
            dec(99, 2),
        ) * self.rocket_chamber_pressure_pa * throat_area_m2;
        let thrust_vac_n = thrust_coefficient(
            math,
            &thermo,
            self.rocket_chamber_pressure_pa,
            &exit,
            expansion,
            zero(),
            dec(99, 2),
        ) * self.rocket_chamber_pressure_pa * throat_area_m2;
        // Rocket-side hardware only: nozzle, ducting and mounts already book in the
        // air path.
        let rocket_extra_mass_kg = mass_fit_feed_kg_per_n() * thrust_vac_n + estoc_reinforcement_fraction() * air.dry_mass_kg;
        let ejector = match self.ejector {
            Some(spec) => Some(CompiledEjector { spec, dry_mass_kg: spec.dry_mass_kg() }),
            None => None,
        };
        let precooler_mass_kg = match self.precooler {
            Some(spec) => spec.wall_mass_kg,
            None => zero(),
        };
        let ejector_mass_kg = match ejector {
            Some(compiled) => compiled.dry_mass_kg,
            None => zero(),
        };
        let dry_mass_kg = air.dry_mass_kg + rocket_extra_mass_kg + precooler_mass_kg + ejector_mass_kg;
        CompiledEstoc {
            name: copied(&self.name),
            air,
            bulk_fuel: self.primary_fuel(),
            boost_coolant_fuel: self.boost_coolant_fuel,
            precooler: self.precooler,
            ejector,
            rocket_chamber_pressure_pa: self.rocket_chamber_pressure_pa,
            rocket_throat_area_m2: throat_area_m2,
            rocket_expansion_ratio: expansion,
            oxidizer_fuel_ratio: of_ratio,
            rocket_gamma: thermo.gamma,
            rocket_chamber_temp_k: thermo.chamber_temp_k,
            rocket_gas_constant: thermo.gas_constant_j_kg_k,
            rocket_c_star_mps: c_star,
            rocket_exit_mach: exit_mach,
            rocket_exit_temp_k: exit.exit_temp_k,
            rocket_exhaust_velocity_mps: exit.exhaust_velocity_mps,
            rocket_thrust_sl_n: thrust_sl_n,
            rocket_thrust_vac_n: thrust_vac_n,
            rocket_isp_sl_s: thrust_sl_n / (mdot * standard_gravity_mps2()),
            rocket_isp_vac_s: thrust_vac_n / (mdot * standard_gravity_mps2()),
            rocket_flow_kg_s: mdot,
            rocket_extra_mass_kg,
            dry_mass_kg,
            feed_pressure_required_pa: self.rocket_chamber_pressure_pa * dec(12, 1),
            switch_mach_hi: given_or(self.switch_mach_hi, estoc_default_switch_mach_hi()),
            switch_mach_lo: given_or(self.switch_mach_lo, estoc_default_switch_mach_lo()),
            transition_tau_s: given_or(self.transition_tau_s, estoc_default_transition_tau_s()),
            min_throttle: dec(4, 1),
        }
    }

    /// The engine round a compiled air path and a solved rocket exit.
    #[verifier::when_used_as_spec(assemble_spec)]
    pub fn assemble<M: Numerics>(&self, math: &M, air: CompiledAirbreather, exit_mach: F64) -> (r: CompiledEstoc)
        requires
            self.primary_fuel().lox_pair().is_tabulated(),
        ensures
            repeatable(math) ==> r == self.assemble(math, air, exit_mach),
            r.precooler == self.precooler,
    {
        let pair = self.primary_fuel().lox_pair();
        let of_ratio = match self.oxidizer_fuel_ratio {
            Some(ratio) => ratio,
            None => given_or(pair.reference_mixture_ratio(), zero()),
        };
        let thermo = pair.thermo();
        let c_star = characteristic_velocity(math, &thermo);
        let throat_area_m2 = self.throat_area_m2();
        let expansion = air.exit_area_core_m2 / throat_area_m2;
        let exit = exit_state_at(math, &thermo, exit_mach);
        let mdot = self.rocket_chamber_pressure_pa * throat_area_m2 / c_star;
        let thrust_sl_n = thrust_coefficient(
            math,
            &thermo,
            self.rocket_chamber_pressure_pa,
            &exit,
            expansion,
            sea_level_pa(),
            dec(99, 2),
        ) * self.rocket_chamber_pressure_pa * throat_area_m2;
        let thrust_vac_n = thrust_coefficient(
            math,
            &thermo,
            self.rocket_chamber_pressure_pa,
            &exit,
            expansion,
            zero(),
            dec(99, 2),
        ) * self.rocket_chamber_pressure_pa * throat_area_m2;
        // Rocket-side hardware only: nozzle, ducting and mounts already book in the
        // air path.
        let rocket_extra_mass_kg = mass_fit_feed_kg_per_n() * thrust_vac_n + estoc_reinforcement_fraction() * air.dry_mass_kg;
        let ejector = match self.ejector {
            Some(spec) => Some(CompiledEjector { spec, dry_mass_kg: spec.dry_mass_kg() }),
            None => None,
        };
        let precooler_mass_kg = match self.precooler {
            Some(spec) => spec.wall_mass_kg,
            None => zero(),
        };
        let ejector_mass_kg = match ejector {
            Some(compiled) => compiled.dry_mass_kg,
            None => zero(),
        };
        let dry_mass_kg = air.dry_mass_kg + rocket_extra_mass_kg + precooler_mass_kg + ejector_mass_kg;
        CompiledEstoc {
            name: copied(&self.name),
            air,
            bulk_fuel: self.primary_fuel(),
            boost_coolant_fuel: self.boost_coolant_fuel,
            precooler: self.precooler,
            ejector,
            rocket_chamber_pressure_pa: self.rocket_chamber_pressure_pa,
            rocket_throat_area_m2: throat_area_m2,
            rocket_expansion_ratio: expansion,
            oxidizer_fuel_ratio: of_ratio,
            rocket_gamma: thermo.gamma,
            rocket_chamber_temp_k: thermo.chamber_temp_k,
            rocket_gas_constant: thermo.gas_constant_j_kg_k,
            rocket_c_star_mps: c_star,
            rocket_exit_mach: exit_mach,
            rocket_exit_temp_k: exit.exit_temp_k,
            rocket_exhaust_velocity_mps: exit.exhaust_velocity_mps,
            rocket_thrust_sl_n: thrust_sl_n,
            rocket_thrust_vac_n: thrust_vac_n,
            rocket_isp_sl_s: thrust_sl_n / (mdot * standard_gravity_mps2()),
            rocket_isp_vac_s: thrust_vac_n / (mdot * standard_gravity_mps2()),
            rocket_flow_kg_s: mdot,
            rocket_extra_mass_kg,
            dry_mass_kg,
            feed_pressure_required_pa: self.rocket_chamber_pressure_pa * dec(12, 1),
            switch_mach_hi: given_or(self.switch_mach_hi, estoc_default_switch_mach_hi()),
            switch_mach_lo: given_or(self.switch_mach_lo, estoc_default_switch_mach_lo()),
            transition_tau_s: given_or(self.transition_tau_s, estoc_default_transition_tau_s()),
            min_throttle: dec(4, 1),
        }
    }

    /// The compiled engine, or what stops it.
    pub open spec fn compiled<M: Numerics>(&self, math: &M, reference: &AirReference) -> Result<CompiledEstoc, Fault> {
        match self.fault(math) {
            Some(fault) => Err(fault),
            None => match self.air.on_fuel(self.primary_fuel()).compiled(math, reference) {
                Err(fault) => Err(fault),
                Ok(air) => {
                    let expansion = air.exit_area_core_m2 / self.throat_area_m2();
                    if !(expansion >= whole(1)) {
                        Err(unsupported("rocket throat exceeds the shared nozzle exit; shrink the throat"))
                    } else {
                        match solved_mach(math, self.primary_fuel().lox_pair().thermo().gamma, expansion) {
                            Err(fault) => Err(fault),
                            Ok(exit_mach) => Ok(self.assemble(math, air, exit_mach)),
                        }
                    }
                },
            },
        }
    }

    /// Compiles the engine: air path first (it sizes the shared nozzle), then the
    /// rocket chamber against the shared exit.
    pub fn compile<M: Numerics>(
        &self,
        math: &M,
        reference: &AirReference,
    ) -> (r: Result<CompiledEstoc, PropulsionError>)
        ensures
            repeatable(math) ==> seen(r) == self.compiled(math, reference),
            self.fault(math) is Some ==> r is Err,
            r is Ok ==> r->Ok_0.is_ordered(),
    {
        self.validate(math)?;
        let air: CompiledAirbreather = self.air.on_fuel(self.primary_fuel()).compile(math, reference)?;
        let expansion: F64 = air.exit_area_core_m2 / self.throat_area_m2();
        if !(expansion >= whole(1)) {
            return Err(unsupported_combination("rocket throat exceeds the shared nozzle exit; shrink the throat"));
        }
        let gamma: F64 = self.primary_fuel().lox_pair().thermo().gamma;
        let exit_mach: F64 = mach_from_area_ratio(math, gamma, expansion)?;
        Ok(self.assemble(math, air, exit_mach))
    }
}

/// The exchange of a precooler at an operating condition.
#[derive(Debug, Clone, Copy, PartialEq)]
pub struct HeatExchange {
    pub t_ram: F64,
    pub air_capacity_w_k: F64,
    pub compressor_tau: F64,
    pub core_flow_kg_s: F64,
    pub tit_k: F64,
    pub boosted: bool,
    pub boost_fuel: JetFuel,
    pub coolant_enthalpy_j_kg: F64,
    pub coolant_capacity_w_k: F64,
    pub coolant_delta_temp_k: F64,
    pub wall_headroom_w: F64,
    /// Most heat that exchanger, duty and compressor limit allow (W).
    pub heat_limit_w: F64,
}

impl HeatExchange {
    /// [`Self::partition`] in contracts.
    pub open spec fn partition_spec(&self, total_heat_w: F64) -> (F64, F64) {
        let compressor_temp_k = (self.t_ram - total_heat_w / self.air_capacity_w_k) * self.compressor_tau;
        let heat_before_fuel_w = (self.core_flow_kg_s * air_cp_j_kg_k() * (self.tit_k - compressor_temp_k)).max(zero());
        let coolant_energy_cap_w = if self.boosted {
            heat_before_fuel_w * self.coolant_enthalpy_j_kg / (combustor_efficiency() * self.boost_fuel.properties().0
                + self.coolant_enthalpy_j_kg)
        } else {
            zero()
        };
        let coolant_heat_w = total_heat_w.min(self.coolant_capacity_w_k * self.coolant_delta_temp_k).min(coolant_energy_cap_w);
        let wall_heat_w = (total_heat_w - coolant_heat_w).max(zero()).min(self.wall_headroom_w);
        (coolant_heat_w, wall_heat_w)
    }

    /// How a total heat splits into coolant and wall heat. The coolant takes what
    /// its flow and the combustor it feeds can carry, the wall what headroom it has.
    #[verifier::when_used_as_spec(partition_spec)]
    pub fn partition(&self, total_heat_w: F64) -> (r: (F64, F64))
        ensures
            r == self.partition(total_heat_w),
    {
        let compressor_temp_k = (self.t_ram - total_heat_w / self.air_capacity_w_k) * self.compressor_tau;
        let heat_before_fuel_w = (self.core_flow_kg_s * air_cp_j_kg_k() * (self.tit_k - compressor_temp_k)).max(zero());
        let coolant_energy_cap_w = if self.boosted {
            heat_before_fuel_w * self.coolant_enthalpy_j_kg / (combustor_efficiency() * self.boost_fuel.properties().0
                + self.coolant_enthalpy_j_kg)
        } else {
            zero()
        };
        let coolant_heat_w = total_heat_w.min(self.coolant_capacity_w_k * self.coolant_delta_temp_k).min(coolant_energy_cap_w);
        let wall_heat_w = (total_heat_w - coolant_heat_w).max(zero()).min(self.wall_headroom_w);
        (coolant_heat_w, wall_heat_w)
    }

    /// [`Self::is_feasible`] in contracts.
    pub open spec fn is_feasible_spec(&self, total_heat_w: F64) -> bool {
        let (coolant_heat_w, wall_heat_w) = self.partition(total_heat_w);
        total_heat_w <= coolant_heat_w + wall_heat_w + dec(1, 12) * total_heat_w.max(whole(1))
    }

    /// Whether a total heat can be taken up.
    #[verifier::when_used_as_spec(is_feasible_spec)]
    pub fn is_feasible(&self, total_heat_w: F64) -> (r: bool)
        ensures
            r == self.is_feasible(total_heat_w),
    {
        let (coolant_heat_w, wall_heat_w) = self.partition(total_heat_w);
        total_heat_w <= coolant_heat_w + wall_heat_w + dec(1, 12) * total_heat_w.max(whole(1))
    }

    /// The heat bracket after `n` halvings towards the most that can be taken up.
    pub open spec fn heat_bracket(&self, n: nat) -> (F64, F64)
        decreases n,
    {
        if n == 0 {
            (zero(), self.heat_limit_w)
        } else {
            let (low, high) = self.heat_bracket((n - 1) as nat);
            let mid = dec(5, 1) * (low + high);
            if self.is_feasible(mid) {
                (mid, high)
            } else {
                (low, mid)
            }
        }
    }

    /// [`Self::heat_flow_w`] in contracts.
    pub open spec fn heat_flow_w_spec(&self) -> F64 {
        if self.is_feasible(self.heat_limit_w) {
            self.heat_limit_w
        } else {
            self.heat_bracket(48).0
        }
    }

    /// The heat that is taken up: the limit where feasible, and otherwise the most
    /// that 48 halvings find (W).
    #[verifier::when_used_as_spec(heat_flow_w_spec)]
    pub fn heat_flow_w(&self) -> (r: F64)
        ensures
            r == self.heat_flow_w(),
    {
        if self.is_feasible(self.heat_limit_w) {
            return self.heat_limit_w;
        }
        let mut low: F64 = zero();
        let mut high: F64 = self.heat_limit_w;
        let mut n: u32 = 0;
        while n < 48
            invariant
                n <= 48,
                (low, high) == self.heat_bracket(n as nat),
            decreases 48 - n,
        {
            let mid: F64 = dec(5, 1) * (low + high);
            if self.is_feasible(mid) {
                low = mid;
            } else {
                high = mid;
            }
            n = n + 1;
        }
        low
    }
}

/// An air-path point with the precooler's next wall temperature, its coolant
/// outlet temperature, and the shaft balance.
#[derive(Debug, Clone, Copy, PartialEq)]
pub struct ConditionedPoint {
    pub point: AirOperatingPoint,
    pub wall_temp_k: F64,
    pub coolant_outlet_temp_k: F64,
    pub balance: ShaftBalance,
}

/// [`lasts`] in contracts.
pub open spec fn lasts_spec(dt_s: F64) -> bool {
    dt_s.is_finite() && dt_s > zero()
}

/// Whether a step lasts a positive, finite time.
#[verifier::when_used_as_spec(lasts_spec)]
pub fn lasts(dt_s: F64) -> (r: bool)
    ensures
        r == lasts(dt_s),
{
    dt_s.is_finite() && dt_s > zero()
}

impl CompiledEstoc {
    /// [`Self::ejector_capture_flow_kg_s`] in contracts.
    pub open spec fn ejector_capture_flow_kg_s_spec(&self, condition: &FlightCondition) -> F64 {
        match self.ejector {
            None => zero(),
            Some(ejector) => {
                let density = condition.ambient_pa / (whole(287) * condition.ambient_temp_k);
                density * ejector.spec.capture_area_m2 * condition.airspeed_mps
            },
        }
    }

    /// Captured air of the ejector (kg/s, 0 without one).
    #[verifier::when_used_as_spec(ejector_capture_flow_kg_s_spec)]
    pub fn ejector_capture_flow_kg_s(&self, condition: &FlightCondition) -> (r: F64)
        ensures
            r == self.ejector_capture_flow_kg_s(condition),
    {
        match self.ejector {
            None => zero(),
            Some(ejector) => {
                let density = condition.ambient_pa / (whole(287) * condition.ambient_temp_k);
                density * ejector.spec.capture_area_m2 * condition.airspeed_mps
            },
        }
    }

    /// [`Self::within_precooler_limit`] in contracts.
    pub open spec fn within_precooler_limit_spec(&self, air_point: &AirOperatingPoint) -> bool {
        match self.precooler {
            None => true,
            Some(precooler) => air_point.compressor_inlet_total_temp_k <= precooler.maximum_compressor_inlet_temp_k * (whole(1)
                + dec(1, 9)),
        }
    }

    /// Whether the compressor inlet is within what the precooler must hold.
    #[verifier::when_used_as_spec(within_precooler_limit_spec)]
    pub fn within_precooler_limit(&self, air_point: &AirOperatingPoint) -> (r: bool)
        ensures
            r == self.within_precooler_limit(air_point),
    {
        match self.precooler {
            None => true,
            Some(precooler) => air_point.compressor_inlet_total_temp_k <= precooler.maximum_compressor_inlet_temp_k * (whole(1)
                + dec(1, 9)),
        }
    }

    /// [`Self::air_viable`] in contracts.
    pub open spec fn air_viable_spec(&self, condition: &FlightCondition, air_point: &AirOperatingPoint) -> bool {
        condition.ambient_pa > zero() && condition.composition.oxygen_mass_fraction > dec(1, 9) && air_point.air_flow_kg_s
            > zero() && air_point.lit && !air_point.drive_limited && !air_point.oxygen_limited && self.within_precooler_limit(
            air_point,
        ) && air_point.thrust_n > zero()
    }

    /// Whether the solved air path runs within its envelope.
    #[verifier::when_used_as_spec(air_viable_spec)]
    pub fn air_viable(&self, condition: &FlightCondition, air_point: &AirOperatingPoint) -> (r: bool)
        ensures
            r == self.air_viable(condition, air_point),
    {
        condition.ambient_pa > zero() && condition.composition.oxygen_mass_fraction > dec(1, 9) && air_point.air_flow_kg_s
            > zero() && air_point.lit && !air_point.drive_limited && !air_point.oxygen_limited && self.within_precooler_limit(
            air_point,
        ) && air_point.thrust_n > zero()
    }

    /// [`Self::select_mode_inner`] in contracts.
    pub open spec fn select_mode_inner_spec(
        &self,
        condition: &FlightCondition,
        air_point: &AirOperatingPoint,
        last_mode: EstocMode,
        manual: Option<EstocMode>,
        air_commanded: bool,
    ) -> EstocMode {
        match manual {
            Some(mode) => mode,
            None => {
                if !air_commanded {
                    last_mode
                } else if self.air_viable(condition, air_point) {
                    let held = match last_mode {
                        EstocMode::Rocket => condition.mach > self.switch_mach_lo,
                        _ => false,
                    };
                    if condition.mach >= self.switch_mach_hi || held {
                        EstocMode::Rocket
                    } else {
                        EstocMode::Air
                    }
                } else if !(condition.composition.oxygen_mass_fraction > dec(1, 9)) && self.ejector.is_some()
                    && self.ejector_capture_flow_kg_s(condition) > zero() {
                    EstocMode::Ejector
                } else {
                    EstocMode::Rocket
                }
            },
        }
    }

    /// Manual selection wins. Automatic selection uses the solved thermal,
    /// combustion, drive, and net-thrust envelope; Mach hysteresis only delays a
    /// return from rocket to a still-viable air path.
    #[verifier::when_used_as_spec(select_mode_inner_spec)]
    pub fn select_mode_inner(
        &self,
        condition: &FlightCondition,
        air_point: &AirOperatingPoint,
        last_mode: EstocMode,
        manual: Option<EstocMode>,
        air_commanded: bool,
    ) -> (r: EstocMode)
        ensures
            r == self.select_mode_inner(condition, air_point, last_mode, manual, air_commanded),
    {
        match manual {
            Some(mode) => mode,
            None => {
                if !air_commanded {
                    last_mode
                } else if self.air_viable(condition, air_point) {
                    let held = match last_mode {
                        EstocMode::Rocket => condition.mach > self.switch_mach_lo,
                        _ => false,
                    };
                    if condition.mach >= self.switch_mach_hi || held {
                        EstocMode::Rocket
                    } else {
                        EstocMode::Air
                    }
                } else if !(condition.composition.oxygen_mass_fraction > dec(1, 9)) && self.ejector.is_some()
                    && self.ejector_capture_flow_kg_s(condition) > zero() {
                    EstocMode::Ejector
                } else {
                    EstocMode::Rocket
                }
            },
        }
    }

    /// [`Self::select_mode`] in contracts.
    pub open spec fn select_mode_spec(
        &self,
        condition: &FlightCondition,
        air_point: &AirOperatingPoint,
        last_mode: EstocMode,
        manual: Option<EstocMode>,
    ) -> EstocMode {
        self.select_mode_inner(condition, air_point, last_mode, manual, true)
    }

    /// Mode selector with the air path commanded.
    #[verifier::when_used_as_spec(select_mode_spec)]
    pub fn select_mode(
        &self,
        condition: &FlightCondition,
        air_point: &AirOperatingPoint,
        last_mode: EstocMode,
        manual: Option<EstocMode>,
    ) -> (r: EstocMode)
        ensures
            r == self.select_mode(condition, air_point, last_mode, manual),
    {
        self.select_mode_inner(condition, air_point, last_mode, manual, true)
    }

    /// [`Self::is_ordered`] in contracts.
    pub open spec fn is_ordered_spec(&self) -> bool {
        match self.precooler {
            None => true,
            Some(precooler) => precooler.wall_initial_temp_k <= precooler.wall_max_temp_k,
        }
    }

    /// Whether the precooler wall, if there is one, starts within its limit.
    #[verifier::when_used_as_spec(is_ordered_spec)]
    pub fn is_ordered(&self) -> (r: bool)
        ensures
            r == self.is_ordered(),
    {
        match self.precooler {
            None => true,
            Some(precooler) => precooler.wall_initial_temp_k <= precooler.wall_max_temp_k,
        }
    }

    /// [`Self::prior_wall_temp_k`] in contracts.
    pub open spec fn prior_wall_temp_k_spec(
        &self,
        precooler: &EstocPrecoolerSpec,
        prev: Option<EstocTransient>,
    ) -> F64 {
        let known = match prev {
            Some(state) => if state.precooler_wall_temp_k.is_finite() && state.precooler_wall_temp_k > zero() {
                state.precooler_wall_temp_k
            } else {
                precooler.wall_initial_temp_k
            },
            None => precooler.wall_initial_temp_k,
        };
        known.clamp(precooler.wall_initial_temp_k, precooler.wall_max_temp_k)
    }

    /// Wall temperature that a step starts from (K).
    #[verifier::when_used_as_spec(prior_wall_temp_k_spec)]
    pub fn prior_wall_temp_k(&self, precooler: &EstocPrecoolerSpec, prev: Option<EstocTransient>) -> (r: F64)
        requires
            precooler.wall_initial_temp_k <= precooler.wall_max_temp_k,
        ensures
            r == self.prior_wall_temp_k(precooler, prev),
    {
        let known = match prev {
            Some(state) => if state.precooler_wall_temp_k.is_finite() && state.precooler_wall_temp_k > zero() {
                state.precooler_wall_temp_k
            } else {
                precooler.wall_initial_temp_k
            },
            None => precooler.wall_initial_temp_k,
        };
        known.clamp(precooler.wall_initial_temp_k, precooler.wall_max_temp_k)
    }

    /// [`Self::idle_coolant_temp_k`] in contracts.
    pub open spec fn idle_coolant_temp_k_spec(
        &self,
        precooler: &EstocPrecoolerSpec,
        prev: Option<EstocTransient>,
    ) -> F64 {
        match prev {
            Some(state) => if state.coolant_outlet_temp_k.is_finite() && state.coolant_outlet_temp_k > zero() {
                state.coolant_outlet_temp_k
            } else {
                precooler.coolant_inlet_temp_k
            },
            None => precooler.coolant_inlet_temp_k,
        }
    }

    /// Coolant outlet temperature that an idle exchanger keeps (K).
    #[verifier::when_used_as_spec(idle_coolant_temp_k_spec)]
    pub fn idle_coolant_temp_k(&self, precooler: &EstocPrecoolerSpec, prev: Option<EstocTransient>) -> (r: F64)
        ensures
            r == self.idle_coolant_temp_k(precooler, prev),
    {
        match prev {
            Some(state) => if state.coolant_outlet_temp_k.is_finite() && state.coolant_outlet_temp_k > zero() {
                state.coolant_outlet_temp_k
            } else {
                precooler.coolant_inlet_temp_k
            },
            None => precooler.coolant_inlet_temp_k,
        }
    }

    /// [`Self::ram_temp_k`] in contracts.
    pub open spec fn ram_temp_k_spec(&self, condition: &FlightCondition) -> F64 {
        condition.ambient_temp_k * (whole(1) + (air_gamma() - whole(1)) * dec(5, 1) * condition.mach * condition.mach)
    }

    /// Ram total temperature (K).
    #[verifier::when_used_as_spec(ram_temp_k_spec)]
    pub fn ram_temp_k(&self, condition: &FlightCondition) -> (r: F64)
        ensures
            r == self.ram_temp_k(condition),
    {
        condition.ambient_temp_k * (whole(1) + (air_gamma() - whole(1)) * dec(5, 1) * condition.mach * condition.mach)
    }

    /// [`Self::heat_exchange`] in contracts.
    pub open spec fn heat_exchange_spec<M: Numerics>(
        &self,
        math: &M,
        precooler: &EstocPrecoolerSpec,
        condition: &FlightCondition,
        throttle: F64,
        spool_n: F64,
        air_flow_kg_s: F64,
        prior_wall_temp_k: F64,
        dt_s: F64,
    ) -> HeatExchange {
        let t_ram = self.ram_temp_k(condition);
        let wall_capacity_j_k = precooler.wall_mass_kg * precooler.wall_specific_heat_j_kg_k;
        let wall_headroom_w = if lasts(dt_s) {
            wall_capacity_j_k * (precooler.wall_max_temp_k - prior_wall_temp_k) / dt_s
        } else {
            zero()
        };
        let air_capacity_w_k = air_flow_kg_s * air_cp_j_kg_k();
        let boosted = self.boost_coolant_fuel.is_some();
        let coolant_capacity_w_k = if boosted {
            precooler.maximum_coolant_flow_kg_s * precooler.coolant_specific_heat_j_kg_k
        } else {
            zero()
        };
        let wall_capacity_rate_w_k = if lasts(dt_s) {
            wall_capacity_j_k / dt_s
        } else {
            zero()
        };
        let cold_side_capacity_w_k = coolant_capacity_w_k + wall_capacity_rate_w_k;
        let cold_side_temp_k = if coolant_capacity_w_k > zero() {
            precooler.coolant_inlet_temp_k.min(prior_wall_temp_k)
        } else {
            prior_wall_temp_k
        };
        let min_capacity_w_k = air_capacity_w_k.min(cold_side_capacity_w_k);
        let exchanger_limit_w = precooler.effectiveness * min_capacity_w_k * (t_ram - cold_side_temp_k).max(zero());
        let required_to_temperature_limit_w = air_capacity_w_k * (t_ram - precooler.maximum_compressor_inlet_temp_k).max(
            zero(),
        );
        let heat_limit_w = exchanger_limit_w.min(precooler.maximum_heat_flow_w).min(required_to_temperature_limit_w);
        let coolant_delta_temp_k = precooler.coolant_max_outlet_temp_k - precooler.coolant_inlet_temp_k;
        let compressor_ratio = whole(1) + (self.air.compressor_ratio - whole(1)) * powi(math, spool_n.clamp_unit(), 2);
        let compressor_tau = powf(
            math,
            compressor_ratio,
            (air_gamma() - whole(1)) / (air_gamma() * compressor_poly_efficiency()),
        );
        HeatExchange {
            t_ram,
            air_capacity_w_k,
            compressor_tau,
            core_flow_kg_s: air_flow_kg_s / (whole(1) + self.air.bypass_ratio),
            tit_k: self.air.turbine_inlet_temp_k * (dec(55, 2) + dec(45, 2) * throttle),
            boosted,
            boost_fuel: match self.boost_coolant_fuel {
                Some(fuel) => fuel,
                None => self.bulk_fuel,
            },
            coolant_enthalpy_j_kg: precooler.coolant_specific_heat_j_kg_k * coolant_delta_temp_k,
            coolant_capacity_w_k,
            coolant_delta_temp_k,
            wall_headroom_w,
            heat_limit_w,
        }
    }

    /// The exchange of the precooler at an operating condition.
    #[verifier::when_used_as_spec(heat_exchange_spec)]
    pub fn heat_exchange<M: Numerics>(
        &self,
        math: &M,
        precooler: &EstocPrecoolerSpec,
        condition: &FlightCondition,
        throttle: F64,
        spool_n: F64,
        air_flow_kg_s: F64,
        prior_wall_temp_k: F64,
        dt_s: F64,
    ) -> (r: HeatExchange)
        ensures
            repeatable(math) ==> r == self.heat_exchange(math, precooler, condition, throttle, spool_n, air_flow_kg_s, prior_wall_temp_k, dt_s),
    {
        let t_ram = self.ram_temp_k(condition);
        let wall_capacity_j_k = precooler.wall_mass_kg * precooler.wall_specific_heat_j_kg_k;
        let wall_headroom_w = if lasts(dt_s) {
            wall_capacity_j_k * (precooler.wall_max_temp_k - prior_wall_temp_k) / dt_s
        } else {
            zero()
        };
        let air_capacity_w_k = air_flow_kg_s * air_cp_j_kg_k();
        let boosted = self.boost_coolant_fuel.is_some();
        let coolant_capacity_w_k = if boosted {
            precooler.maximum_coolant_flow_kg_s * precooler.coolant_specific_heat_j_kg_k
        } else {
            zero()
        };
        let wall_capacity_rate_w_k = if lasts(dt_s) {
            wall_capacity_j_k / dt_s
        } else {
            zero()
        };
        let cold_side_capacity_w_k = coolant_capacity_w_k + wall_capacity_rate_w_k;
        let cold_side_temp_k = if coolant_capacity_w_k > zero() {
            precooler.coolant_inlet_temp_k.min(prior_wall_temp_k)
        } else {
            prior_wall_temp_k
        };
        let min_capacity_w_k = air_capacity_w_k.min(cold_side_capacity_w_k);
        let exchanger_limit_w = precooler.effectiveness * min_capacity_w_k * (t_ram - cold_side_temp_k).max(zero());
        let required_to_temperature_limit_w = air_capacity_w_k * (t_ram - precooler.maximum_compressor_inlet_temp_k).max(
            zero(),
        );
        let heat_limit_w = exchanger_limit_w.min(precooler.maximum_heat_flow_w).min(required_to_temperature_limit_w);
        let coolant_delta_temp_k = precooler.coolant_max_outlet_temp_k - precooler.coolant_inlet_temp_k;
        let compressor_ratio = whole(1) + (self.air.compressor_ratio - whole(1)) * powi(math, spool_n.clamp_unit(), 2);
        let compressor_tau = powf(
            math,
            compressor_ratio,
            (air_gamma() - whole(1)) / (air_gamma() * compressor_poly_efficiency()),
        );
        HeatExchange {
            t_ram,
            air_capacity_w_k,
            compressor_tau,
            core_flow_kg_s: air_flow_kg_s / (whole(1) + self.air.bypass_ratio),
            tit_k: self.air.turbine_inlet_temp_k * (dec(55, 2) + dec(45, 2) * throttle),
            boosted,
            boost_fuel: match self.boost_coolant_fuel {
                Some(fuel) => fuel,
                None => self.bulk_fuel,
            },
            coolant_enthalpy_j_kg: precooler.coolant_specific_heat_j_kg_k * coolant_delta_temp_k,
            coolant_capacity_w_k,
            coolant_delta_temp_k,
            wall_headroom_w,
            heat_limit_w,
        }
    }

    /// [`Self::conditioning`] in contracts.
    pub open spec fn conditioning_spec(
        &self,
        precooler: &EstocPrecoolerSpec,
        exchange: &HeatExchange,
    ) -> AirCycleConditioning {
        let (coolant_heat_w, wall_heat_w) = exchange.partition(exchange.heat_flow_w());
        let heat_flow_w = coolant_heat_w + wall_heat_w;
        let wanted_kg_s = if coolant_heat_w > zero() {
            coolant_heat_w / (precooler.coolant_specific_heat_j_kg_k * exchange.coolant_delta_temp_k)
        } else {
            zero()
        };
        AirCycleConditioning {
            compressor_inlet_total_temp_k: (exchange.t_ram - heat_flow_w / exchange.air_capacity_w_k).max(whole(1)),
            compressor_pressure_recovery: precooler.pressure_recovery,
            boost_fuel: exchange.boost_fuel,
            boost_fuel_flow_kg_s: wanted_kg_s.min(precooler.maximum_coolant_flow_kg_s),
            coolant_heat_flow_w: coolant_heat_w,
            wall_heat_flow_w: wall_heat_w,
        }
    }

    /// What the exchange does to the air ahead of the compressor.
    #[verifier::when_used_as_spec(conditioning_spec)]
    pub fn conditioning(&self, precooler: &EstocPrecoolerSpec, exchange: &HeatExchange) -> (r: AirCycleConditioning)
        ensures
            r == self.conditioning(precooler, exchange),
    {
        let (coolant_heat_w, wall_heat_w) = exchange.partition(exchange.heat_flow_w());
        let heat_flow_w = coolant_heat_w + wall_heat_w;
        let wanted_kg_s = if coolant_heat_w > zero() {
            coolant_heat_w / (precooler.coolant_specific_heat_j_kg_k * exchange.coolant_delta_temp_k)
        } else {
            zero()
        };
        AirCycleConditioning {
            compressor_inlet_total_temp_k: (exchange.t_ram - heat_flow_w / exchange.air_capacity_w_k).max(whole(1)),
            compressor_pressure_recovery: precooler.pressure_recovery,
            boost_fuel: exchange.boost_fuel,
            boost_fuel_flow_kg_s: wanted_kg_s.min(precooler.maximum_coolant_flow_kg_s),
            coolant_heat_flow_w: coolant_heat_w,
            wall_heat_flow_w: wall_heat_w,
        }
    }

    /// [`Self::after_matching`] in contracts.
    pub open spec fn after_matching_spec(
        &self,
        precooler: &EstocPrecoolerSpec,
        point: AirOperatingPoint,
        balance: ShaftBalance,
        prior_wall_temp_k: F64,
        dt_s: F64,
    ) -> ConditionedPoint {
        let matched_wall_heat_w = point.precooler_wall_heat_flow_w;
        let matched_coolant_heat_w = (point.precooler_heat_flow_w - matched_wall_heat_w).max(zero());
        let matched_coolant_flow_kg_s = point.boost_fuel_flow_kg_s;
        let coolant_outlet_temp_k = if matched_coolant_flow_kg_s > zero() {
            precooler.coolant_inlet_temp_k + matched_coolant_heat_w / (matched_coolant_flow_kg_s
                * precooler.coolant_specific_heat_j_kg_k)
        } else {
            precooler.coolant_inlet_temp_k
        };
        let wall_capacity_j_k = precooler.wall_mass_kg * precooler.wall_specific_heat_j_kg_k;
        let wall_temp_k = if lasts(dt_s) {
            (prior_wall_temp_k + matched_wall_heat_w * dt_s / wall_capacity_j_k).min(precooler.wall_max_temp_k)
        } else {
            prior_wall_temp_k
        };
        ConditionedPoint { point, wall_temp_k, coolant_outlet_temp_k, balance }
    }

    /// The precooler after a matched point: the nozzle may rescale all flows, so
    /// wall and coolant advance by the heat actually used.
    #[verifier::when_used_as_spec(after_matching_spec)]
    pub fn after_matching(
        &self,
        precooler: &EstocPrecoolerSpec,
        point: AirOperatingPoint,
        balance: ShaftBalance,
        prior_wall_temp_k: F64,
        dt_s: F64,
    ) -> (r: ConditionedPoint)
        ensures
            r == self.after_matching(precooler, point, balance, prior_wall_temp_k, dt_s),
    {
        let matched_wall_heat_w = point.precooler_wall_heat_flow_w;
        let matched_coolant_heat_w = (point.precooler_heat_flow_w - matched_wall_heat_w).max(zero());
        let matched_coolant_flow_kg_s = point.boost_fuel_flow_kg_s;
        let coolant_outlet_temp_k = if matched_coolant_flow_kg_s > zero() {
            precooler.coolant_inlet_temp_k + matched_coolant_heat_w / (matched_coolant_flow_kg_s
                * precooler.coolant_specific_heat_j_kg_k)
        } else {
            precooler.coolant_inlet_temp_k
        };
        let wall_capacity_j_k = precooler.wall_mass_kg * precooler.wall_specific_heat_j_kg_k;
        let wall_temp_k = if lasts(dt_s) {
            (prior_wall_temp_k + matched_wall_heat_w * dt_s / wall_capacity_j_k).min(precooler.wall_max_temp_k)
        } else {
            prior_wall_temp_k
        };
        ConditionedPoint { point, wall_temp_k, coolant_outlet_temp_k, balance }
    }

    /// The air path behind the precooler at a shaft state, or what stops it.
    pub open spec fn conditioned<M: Numerics>(
        &self,
        math: &M,
        condition: &FlightCondition,
        throttle: F64,
        shaft: JetShaftState,
        prev: Option<EstocTransient>,
        dt_s: F64,
    ) -> Result<ConditionedPoint, Fault> {
        match self.air.at_spool(math, condition, throttle, shaft.spool_n, shaft.lit, zero(), None) {
            Err(fault) => Err(fault),
            Ok((baseline, balance)) => match self.precooler {
                None => Ok(
                    ConditionedPoint { point: baseline, wall_temp_k: zero(), coolant_outlet_temp_k: zero(), balance },
                ),
                Some(precooler) => {
                    let prior = self.prior_wall_temp_k(&precooler, prev);
                    let air_capacity_w_k = baseline.air_flow_kg_s * air_cp_j_kg_k();
                    if throttle <= zero() || air_capacity_w_k <= zero() || self.ram_temp_k(condition) <= zero() {
                        Ok(
                            ConditionedPoint {
                                point: baseline,
                                wall_temp_k: prior,
                                coolant_outlet_temp_k: self.idle_coolant_temp_k(&precooler, prev),
                                balance,
                            },
                        )
                    } else {
                        let exchange = self.heat_exchange(
                            math,
                            &precooler,
                            condition,
                            throttle,
                            shaft.spool_n,
                            baseline.air_flow_kg_s,
                            prior,
                            dt_s,
                        );
                        let input = self.conditioning(&precooler, &exchange);
                        if input.boost_fuel_flow_kg_s > zero() || input.wall_heat_flow_w > zero() {
                            match self.air.at_spool(
                                math,
                                condition,
                                throttle,
                                shaft.spool_n,
                                shaft.lit,
                                zero(),
                                Some(input),
                            ) {
                                Err(fault) => Err(fault),
                                Ok((point, balance)) => Ok(self.after_matching(&precooler, point, balance, prior, dt_s)),
                            }
                        } else {
                            Ok(self.after_matching(&precooler, baseline, balance, prior, dt_s))
                        }
                    }
                },
            },
        }
    }

    /// The air path behind the precooler at a shaft state.
    pub fn conditioned_air_point<M: Numerics>(
        &self,
        math: &M,
        condition: &FlightCondition,
        throttle: F64,
        shaft: JetShaftState,
        prev: Option<EstocTransient>,
        dt_s: F64,
    ) -> (r: Result<ConditionedPoint, PropulsionError>)
        requires
            self.is_ordered(),
        ensures
            repeatable(math) ==> seen(r) == self.conditioned(math, condition, throttle, shaft, prev, dt_s),
    {
        let (baseline, balance): (AirOperatingPoint, ShaftBalance) = self.air.operating_point_at_spool(
            math,
            condition,
            throttle,
            shaft.spool_n,
            shaft.lit,
        )?;
        let precooler: EstocPrecoolerSpec = match self.precooler {
            Some(precooler) => precooler,
            None => {
                return Ok(
                    ConditionedPoint { point: baseline, wall_temp_k: zero(), coolant_outlet_temp_k: zero(), balance },
                );
            },
        };
        let prior: F64 = self.prior_wall_temp_k(&precooler, prev);
        let air_capacity_w_k: F64 = baseline.air_flow_kg_s * air_cp_j_kg_k();
        if throttle <= zero() || air_capacity_w_k <= zero() || self.ram_temp_k(condition) <= zero() {
            return Ok(
                ConditionedPoint {
                    point: baseline,
                    wall_temp_k: prior,
                    coolant_outlet_temp_k: self.idle_coolant_temp_k(&precooler, prev),
                    balance,
                },
            );
        }
        let exchange: HeatExchange = self.heat_exchange(
            math,
            &precooler,
            condition,
            throttle,
            shaft.spool_n,
            baseline.air_flow_kg_s,
            prior,
            dt_s,
        );
        let input: AirCycleConditioning = self.conditioning(&precooler, &exchange);
        if input.boost_fuel_flow_kg_s > zero() || input.wall_heat_flow_w > zero() {
            let (point, balance): (AirOperatingPoint, ShaftBalance) = self.air.operating_point_at_spool_conditioned(
                math,
                condition,
                throttle,
                shaft.spool_n,
                shaft.lit,
                input,
            )?;
            Ok(self.after_matching(&precooler, point, balance, prior, dt_s))
        } else {
            Ok(self.after_matching(&precooler, baseline, balance, prior, dt_s))
        }
    }

    /// [`Self::rocket_point`] in contracts.
    pub open spec fn rocket_point_spec<M: Numerics>(&self, math: &M, throttle: F64, ambient_pa: F64) -> EstocPoint {
        let thermo = PropellantThermo {
            gamma: self.rocket_gamma,
            chamber_temp_k: self.rocket_chamber_temp_k,
            gas_constant_j_kg_k: self.rocket_gas_constant,
            bulk_density_kg_m3: zero(),
            characteristic_length_m: zero(),
            reference_c_star_mps: zero(),
        };
        let exit_ratio = pressure_ratio_at(math, thermo.gamma, self.rocket_exit_mach);
        let exit = NozzleExitState {
            exit_mach: self.rocket_exit_mach,
            exit_pressure_ratio: exit_ratio,
            exit_temp_k: self.rocket_exit_temp_k,
            exhaust_velocity_mps: self.rocket_exhaust_velocity_mps,
        };
        let chamber_pa = self.rocket_chamber_pressure_pa * throttle;
        let cf = thrust_coefficient(math, &thermo, chamber_pa, &exit, self.rocket_expansion_ratio, ambient_pa, dec(99, 2));
        let thrust_n = cf * chamber_pa * self.rocket_throat_area_m2;
        let flow_kg_s = self.rocket_flow_kg_s * throttle;
        let fuel_flow_kg_s = flow_kg_s / (whole(1) + self.oxidizer_fuel_ratio);
        EstocPoint {
            mode: EstocMode::Rocket,
            thrust_n,
            fuel_flow_kg_s,
            bulk_fuel_flow_kg_s: fuel_flow_kg_s,
            boost_fuel_flow_kg_s: zero(),
            oxidizer_flow_kg_s: flow_kg_s - fuel_flow_kg_s,
            air_flow_kg_s: zero(),
            isp_total_s: if flow_kg_s > zero() {
                thrust_n / (flow_kg_s * standard_gravity_mps2())
            } else {
                zero()
            },
            exhaust_temp_k: self.rocket_exit_temp_k,
            exhaust_velocity_mps: self.rocket_exhaust_velocity_mps,
            exit_pressure_pa: exit_ratio * chamber_pa,
            exit_mach: self.rocket_exit_mach,
            compressor_inlet_total_temp_k: zero(),
            precooler_heat_flow_w: zero(),
            precooler_wall_heat_flow_w: zero(),
            precooler_wall_temp_k: zero(),
            coolant_outlet_temp_k: zero(),
            precooler_saturated: false,
        }
    }

    /// Steady rocket-mode point at throttle and ambient: chamber pressure scales
    /// linearly, oxidizer and fuel split by their ratio.
    #[verifier::when_used_as_spec(rocket_point_spec)]
    pub fn rocket_point<M: Numerics>(&self, math: &M, throttle: F64, ambient_pa: F64) -> (r: EstocPoint)
        ensures
            repeatable(math) ==> r == self.rocket_point(math, throttle, ambient_pa),
    {
        let thermo = PropellantThermo {
            gamma: self.rocket_gamma,
            chamber_temp_k: self.rocket_chamber_temp_k,
            gas_constant_j_kg_k: self.rocket_gas_constant,
            bulk_density_kg_m3: zero(),
            characteristic_length_m: zero(),
            reference_c_star_mps: zero(),
        };
        let exit_ratio = pressure_ratio_at(math, thermo.gamma, self.rocket_exit_mach);
        let exit = NozzleExitState {
            exit_mach: self.rocket_exit_mach,
            exit_pressure_ratio: exit_ratio,
            exit_temp_k: self.rocket_exit_temp_k,
            exhaust_velocity_mps: self.rocket_exhaust_velocity_mps,
        };
        let chamber_pa = self.rocket_chamber_pressure_pa * throttle;
        let cf = thrust_coefficient(math, &thermo, chamber_pa, &exit, self.rocket_expansion_ratio, ambient_pa, dec(99, 2));
        let thrust_n = cf * chamber_pa * self.rocket_throat_area_m2;
        let flow_kg_s = self.rocket_flow_kg_s * throttle;
        let fuel_flow_kg_s = flow_kg_s / (whole(1) + self.oxidizer_fuel_ratio);
        EstocPoint {
            mode: EstocMode::Rocket,
            thrust_n,
            fuel_flow_kg_s,
            bulk_fuel_flow_kg_s: fuel_flow_kg_s,
            boost_fuel_flow_kg_s: zero(),
            oxidizer_flow_kg_s: flow_kg_s - fuel_flow_kg_s,
            air_flow_kg_s: zero(),
            isp_total_s: if flow_kg_s > zero() {
                thrust_n / (flow_kg_s * standard_gravity_mps2())
            } else {
                zero()
            },
            exhaust_temp_k: self.rocket_exit_temp_k,
            exhaust_velocity_mps: self.rocket_exhaust_velocity_mps,
            exit_pressure_pa: exit_ratio * chamber_pa,
            exit_mach: self.rocket_exit_mach,
            compressor_inlet_total_temp_k: zero(),
            precooler_heat_flow_w: zero(),
            precooler_wall_heat_flow_w: zero(),
            precooler_wall_temp_k: zero(),
            coolant_outlet_temp_k: zero(),
            precooler_saturated: false,
        }
    }

    /// [`Self::mixed_point`] in contracts.
    pub open spec fn mixed_point_spec<M: Numerics>(
        &self,
        math: &M,
        throttle: F64,
        condition: &FlightCondition,
        ejector: CompiledEjector,
    ) -> EstocPoint {
        let entrained_air_kg_s = self.ejector_capture_flow_kg_s(condition);
        let rocket = self.rocket_point(math, throttle, condition.ambient_pa);
        let motive_flow_kg_s = rocket.fuel_flow_kg_s + rocket.oxidizer_flow_kg_s;
        let mixed_flow_kg_s = motive_flow_kg_s + entrained_air_kg_s;
        let motive_kinetic_power_w = dec(5, 1) * motive_flow_kg_s * powi(math, rocket.exhaust_velocity_mps, 2);
        let mixed_velocity_mps = (whole(2) * motive_kinetic_power_w * ejector.spec.mixing_efficiency / mixed_flow_kg_s).sqrt();
        let pressure_thrust_n = rocket.thrust_n - motive_flow_kg_s * rocket.exhaust_velocity_mps;
        let thrust_n = mixed_flow_kg_s * mixed_velocity_mps - entrained_air_kg_s * condition.airspeed_mps + pressure_thrust_n;
        EstocPoint {
            mode: EstocMode::Ejector,
            thrust_n,
            air_flow_kg_s: entrained_air_kg_s,
            isp_total_s: if motive_flow_kg_s > zero() {
                thrust_n / (motive_flow_kg_s * standard_gravity_mps2())
            } else {
                zero()
            },
            exhaust_velocity_mps: mixed_velocity_mps,
            exit_pressure_pa: condition.ambient_pa,
            exit_mach: mixed_velocity_mps / (air_gamma() * whole(287) * rocket.exhaust_temp_k.max(whole(1))).sqrt(),
            ..rocket
        }
    }

    /// The rocket jet mixed with captured air: the pressure term of the rocket
    /// nozzle stays, and the mixed stream closes its momentum against the incoming
    /// momentum of the air.
    #[verifier::when_used_as_spec(mixed_point_spec)]
    pub fn mixed_point<M: Numerics>(
        &self,
        math: &M,
        throttle: F64,
        condition: &FlightCondition,
        ejector: CompiledEjector,
    ) -> (r: EstocPoint)
        ensures
            repeatable(math) ==> r == self.mixed_point(math, throttle, condition, ejector),
    {
        let entrained_air_kg_s = self.ejector_capture_flow_kg_s(condition);
        let rocket = self.rocket_point(math, throttle, condition.ambient_pa);
        let motive_flow_kg_s = rocket.fuel_flow_kg_s + rocket.oxidizer_flow_kg_s;
        let mixed_flow_kg_s = motive_flow_kg_s + entrained_air_kg_s;
        let motive_kinetic_power_w = dec(5, 1) * motive_flow_kg_s * powi(math, rocket.exhaust_velocity_mps, 2);
        let mixed_velocity_mps = (whole(2) * motive_kinetic_power_w * ejector.spec.mixing_efficiency / mixed_flow_kg_s).sqrt();
        let pressure_thrust_n = rocket.thrust_n - motive_flow_kg_s * rocket.exhaust_velocity_mps;
        let thrust_n = mixed_flow_kg_s * mixed_velocity_mps - entrained_air_kg_s * condition.airspeed_mps + pressure_thrust_n;
        EstocPoint {
            mode: EstocMode::Ejector,
            thrust_n,
            air_flow_kg_s: entrained_air_kg_s,
            isp_total_s: if motive_flow_kg_s > zero() {
                thrust_n / (motive_flow_kg_s * standard_gravity_mps2())
            } else {
                zero()
            },
            exhaust_velocity_mps: mixed_velocity_mps,
            exit_pressure_pa: condition.ambient_pa,
            exit_mach: mixed_velocity_mps / (air_gamma() * whole(287) * rocket.exhaust_temp_k.max(whole(1))).sqrt(),
            ..rocket
        }
    }

    /// The ejector point, or what stops it.
    pub open spec fn ejected<M: Numerics>(
        &self,
        math: &M,
        throttle: F64,
        condition: &FlightCondition,
    ) -> Result<EstocPoint, Fault> {
        match self.ejector {
            None => Err(bad_command("ESTOC ejector mode is not installed")),
            Some(ejector) => if self.ejector_capture_flow_kg_s(condition) <= zero() {
                Err(bad_command("ESTOC ejector needs nonzero captured atmospheric flow"))
            } else {
                Ok(self.mixed_point(math, throttle, condition, ejector))
            },
        }
    }

    /// Steady ejector-mode point at throttle and condition.
    pub fn ejector_point<M: Numerics>(&self, math: &M, throttle: F64, condition: &FlightCondition) -> (r: Result<
        EstocPoint,
        PropulsionError,
    >)
        ensures
            repeatable(math) ==> seen(r) == self.ejected(math, throttle, condition),
            r is Err ==> seen(r) == self.ejected(math, throttle, condition),
            r is Err <==> self.ejected(math, throttle, condition) is Err,
    {
        let ejector: CompiledEjector = match self.ejector {
            Some(ejector) => ejector,
            None => {
                return Err(invalid_command("ESTOC ejector mode is not installed"));
            },
        };
        if self.ejector_capture_flow_kg_s(condition) <= zero() {
            return Err(invalid_command("ESTOC ejector needs nonzero captured atmospheric flow"));
        }
        Ok(self.mixed_point(math, throttle, condition, ejector))
    }

    /// [`Self::resting_wall_temp_k`] in contracts.
    pub open spec fn resting_wall_temp_k_spec(&self, prev: Option<EstocTransient>) -> F64 {
        match self.precooler {
            None => zero(),
            Some(precooler) => match prev {
                None => precooler.wall_initial_temp_k,
                Some(state) => if state.precooler_wall_temp_k > zero() {
                    state.precooler_wall_temp_k
                } else {
                    precooler.wall_initial_temp_k
                },
            },
        }
    }

    /// Wall temperature that a shut-down engine keeps (K).
    #[verifier::when_used_as_spec(resting_wall_temp_k_spec)]
    pub fn resting_wall_temp_k(&self, prev: Option<EstocTransient>) -> (r: F64)
        ensures
            r == self.resting_wall_temp_k(prev),
    {
        match self.precooler {
            None => zero(),
            Some(precooler) => match prev {
                None => precooler.wall_initial_temp_k,
                Some(state) => if state.precooler_wall_temp_k > zero() {
                    state.precooler_wall_temp_k
                } else {
                    precooler.wall_initial_temp_k
                },
            },
        }
    }

    /// [`Self::resting_coolant_temp_k`] in contracts.
    pub open spec fn resting_coolant_temp_k_spec(&self, prev: Option<EstocTransient>) -> F64 {
        match self.precooler {
            None => zero(),
            Some(precooler) => match prev {
                None => precooler.coolant_inlet_temp_k,
                Some(state) => if state.coolant_outlet_temp_k > zero() {
                    state.coolant_outlet_temp_k
                } else {
                    precooler.coolant_inlet_temp_k
                },
            },
        }
    }

    /// Coolant temperature that a shut-down engine keeps (K).
    #[verifier::when_used_as_spec(resting_coolant_temp_k_spec)]
    pub fn resting_coolant_temp_k(&self, prev: Option<EstocTransient>) -> (r: F64)
        ensures
            r == self.resting_coolant_temp_k(prev),
    {
        match self.precooler {
            None => zero(),
            Some(precooler) => match prev {
                None => precooler.coolant_inlet_temp_k,
                Some(state) => if state.coolant_outlet_temp_k > zero() {
                    state.coolant_outlet_temp_k
                } else {
                    precooler.coolant_inlet_temp_k
                },
            },
        }
    }

    /// [`Self::resting_snapshot`] in contracts.
    pub open spec fn resting_snapshot_spec(
        &self,
        condition: &FlightCondition,
        air_point: &AirOperatingPoint,
        prev: Option<EstocTransient>,
    ) -> EstocTransient {
        EstocTransient {
            thrust_n: zero(),
            fuel_flow_kg_s: zero(),
            bulk_fuel_flow_kg_s: zero(),
            boost_fuel_flow_kg_s: zero(),
            oxidizer_flow_kg_s: zero(),
            air_flow_kg_s: zero(),
            exhaust_temp_k: condition.ambient_temp_k,
            exhaust_velocity_mps: zero(),
            exit_pressure_pa: condition.ambient_pa,
            exit_mach: zero(),
            compressor_inlet_total_temp_k: air_point.compressor_inlet_total_temp_k,
            precooler_heat_flow_w: zero(),
            precooler_wall_heat_flow_w: zero(),
            precooler_wall_temp_k: self.resting_wall_temp_k(prev),
            coolant_outlet_temp_k: self.resting_coolant_temp_k(prev),
        }
    }

    /// The snapshot of a shut-down engine.
    #[verifier::when_used_as_spec(resting_snapshot_spec)]
    pub fn resting_snapshot(
        &self,
        condition: &FlightCondition,
        air_point: &AirOperatingPoint,
        prev: Option<EstocTransient>,
    ) -> (r: EstocTransient)
        ensures
            r == self.resting_snapshot(condition, air_point, prev),
    {
        EstocTransient {
            thrust_n: zero(),
            fuel_flow_kg_s: zero(),
            bulk_fuel_flow_kg_s: zero(),
            boost_fuel_flow_kg_s: zero(),
            oxidizer_flow_kg_s: zero(),
            air_flow_kg_s: zero(),
            exhaust_temp_k: condition.ambient_temp_k,
            exhaust_velocity_mps: zero(),
            exit_pressure_pa: condition.ambient_pa,
            exit_mach: zero(),
            compressor_inlet_total_temp_k: air_point.compressor_inlet_total_temp_k,
            precooler_heat_flow_w: zero(),
            precooler_wall_heat_flow_w: zero(),
            precooler_wall_temp_k: self.resting_wall_temp_k(prev),
            coolant_outlet_temp_k: self.resting_coolant_temp_k(prev),
        }
    }

    /// [`Self::rocket_snapshot`] in contracts.
    pub open spec fn rocket_snapshot_spec(
        &self,
        rocket: EstocPoint,
        air_point: &AirOperatingPoint,
        prev: Option<EstocTransient>,
    ) -> EstocTransient {
        let (wall_temp_k, coolant_temp_k) = match prev {
            Some(state) => (state.precooler_wall_temp_k, state.coolant_outlet_temp_k),
            None => match self.precooler {
                Some(precooler) => (precooler.wall_initial_temp_k, precooler.coolant_inlet_temp_k),
                None => (zero(), zero()),
            },
        };
        EstocTransient {
            thrust_n: rocket.thrust_n,
            fuel_flow_kg_s: rocket.fuel_flow_kg_s,
            bulk_fuel_flow_kg_s: rocket.bulk_fuel_flow_kg_s,
            boost_fuel_flow_kg_s: rocket.boost_fuel_flow_kg_s,
            oxidizer_flow_kg_s: rocket.oxidizer_flow_kg_s,
            air_flow_kg_s: rocket.air_flow_kg_s,
            exhaust_temp_k: rocket.exhaust_temp_k,
            exhaust_velocity_mps: rocket.exhaust_velocity_mps,
            exit_pressure_pa: rocket.exit_pressure_pa,
            exit_mach: rocket.exit_mach,
            compressor_inlet_total_temp_k: air_point.compressor_inlet_total_temp_k,
            precooler_heat_flow_w: zero(),
            precooler_wall_heat_flow_w: zero(),
            precooler_wall_temp_k: wall_temp_k,
            coolant_outlet_temp_k: coolant_temp_k,
        }
    }

    /// The snapshot that the rocket or ejector path aims at; the precooler idles.
    #[verifier::when_used_as_spec(rocket_snapshot_spec)]
    pub fn rocket_snapshot(
        &self,
        rocket: EstocPoint,
        air_point: &AirOperatingPoint,
        prev: Option<EstocTransient>,
    ) -> (r: EstocTransient)
        ensures
            r == self.rocket_snapshot(rocket, air_point, prev),
    {
        let (wall_temp_k, coolant_temp_k) = match prev {
            Some(state) => (state.precooler_wall_temp_k, state.coolant_outlet_temp_k),
            None => match self.precooler {
                Some(precooler) => (precooler.wall_initial_temp_k, precooler.coolant_inlet_temp_k),
                None => (zero(), zero()),
            },
        };
        EstocTransient {
            thrust_n: rocket.thrust_n,
            fuel_flow_kg_s: rocket.fuel_flow_kg_s,
            bulk_fuel_flow_kg_s: rocket.bulk_fuel_flow_kg_s,
            boost_fuel_flow_kg_s: rocket.boost_fuel_flow_kg_s,
            oxidizer_flow_kg_s: rocket.oxidizer_flow_kg_s,
            air_flow_kg_s: rocket.air_flow_kg_s,
            exhaust_temp_k: rocket.exhaust_temp_k,
            exhaust_velocity_mps: rocket.exhaust_velocity_mps,
            exit_pressure_pa: rocket.exit_pressure_pa,
            exit_mach: rocket.exit_mach,
            compressor_inlet_total_temp_k: air_point.compressor_inlet_total_temp_k,
            precooler_heat_flow_w: zero(),
            precooler_wall_heat_flow_w: zero(),
            precooler_wall_temp_k: wall_temp_k,
            coolant_outlet_temp_k: coolant_temp_k,
        }
    }

    /// The snapshot that a mode aims at, or what stops it.
    pub open spec fn target<M: Numerics>(
        &self,
        math: &M,
        mode: EstocMode,
        condition: &FlightCondition,
        throttle: F64,
        cooled: ConditionedPoint,
        prev: Option<EstocTransient>,
    ) -> Result<EstocTransient, Fault> {
        match mode {
            EstocMode::Air => Ok(air_snapshot(cooled.point, cooled.wall_temp_k, cooled.coolant_outlet_temp_k)),
            EstocMode::Rocket => Ok(
                self.rocket_snapshot(self.rocket_point(math, throttle, condition.ambient_pa), &cooled.point, prev),
            ),
            EstocMode::Ejector => match self.ejected(math, throttle, condition) {
                Err(fault) => Err(fault),
                Ok(rocket) => Ok(self.rocket_snapshot(rocket, &cooled.point, prev)),
            },
        }
    }

    fn find_target<M: Numerics>(
        &self,
        math: &M,
        mode: EstocMode,
        condition: &FlightCondition,
        throttle: F64,
        cooled: ConditionedPoint,
        prev: Option<EstocTransient>,
    ) -> (r: Result<EstocTransient, PropulsionError>)
        ensures
            repeatable(math) ==> seen(r) == self.target(math, mode, condition, throttle, cooled, prev),
    {
        match mode {
            EstocMode::Air => Ok(air_snapshot(cooled.point, cooled.wall_temp_k, cooled.coolant_outlet_temp_k)),
            EstocMode::Rocket => {
                let rocket: EstocPoint = self.rocket_point(math, throttle, condition.ambient_pa);
                Ok(self.rocket_snapshot(rocket, &cooled.point, prev))
            },
            EstocMode::Ejector => {
                let rocket: EstocPoint = self.ejector_point(math, throttle, condition)?;
                Ok(self.rocket_snapshot(rocket, &cooled.point, prev))
            },
        }
    }

    /// [`Self::smoothed`] in contracts.
    pub open spec fn smoothed_spec<M: Numerics>(
        &self,
        math: &M,
        target: EstocTransient,
        prev: Option<EstocTransient>,
        dt_s: F64,
    ) -> EstocTransient {
        match prev {
            None => target,
            Some(previous) => blend(previous, target, whole(1) - exp(math, dt_s.negate() / self.transition_tau_s)),
        }
    }

    /// The snapshot of a step: the target itself from a fresh start, and otherwise a
    /// first-order approach to it.
    #[verifier::when_used_as_spec(smoothed_spec)]
    pub fn smoothed<M: Numerics>(
        &self,
        math: &M,
        target: EstocTransient,
        prev: Option<EstocTransient>,
        dt_s: F64,
    ) -> (r: EstocTransient)
        ensures
            repeatable(math) ==> r == self.smoothed(math, target, prev, dt_s),
    {
        match prev {
            None => target,
            Some(previous) => blend(previous, target, whole(1) - exp(math, dt_s.negate() / self.transition_tau_s)),
        }
    }

    /// [`Self::propellant_isp_s`] in contracts.
    pub open spec fn propellant_isp_s_spec(&self, snapshot: &EstocTransient) -> F64 {
        let propellant_flow = snapshot.fuel_flow_kg_s + snapshot.oxidizer_flow_kg_s;
        if propellant_flow > zero() {
            snapshot.thrust_n / (propellant_flow * standard_gravity_mps2())
        } else {
            zero()
        }
    }

    /// Isp over all onboard propellant of a snapshot (s).
    #[verifier::when_used_as_spec(propellant_isp_s_spec)]
    pub fn propellant_isp_s(&self, snapshot: &EstocTransient) -> (r: F64)
        ensures
            r == self.propellant_isp_s(snapshot),
    {
        let propellant_flow = snapshot.fuel_flow_kg_s + snapshot.oxidizer_flow_kg_s;
        if propellant_flow > zero() {
            snapshot.thrust_n / (propellant_flow * standard_gravity_mps2())
        } else {
            zero()
        }
    }

    /// What is wrong with an evaluation, if anything.
    pub open spec fn evaluation_fault(&self, condition: &FlightCondition, throttle: F64, dt_s: F64) -> Option<Fault> {
        checks()
            .part(condition.fault())
            .part(throttle_fault(throttle))
            .refuse(dt_s.is_nan() || dt_s < zero(), bad_command("transition dt must be >= 0 or +infinity"))
            .fault
    }

    /// The point and the transition state at a command, or what stops them.
    pub open spec fn point<M: Numerics>(
        &self,
        math: &M,
        condition: &FlightCondition,
        throttle: F64,
        manual: Option<EstocMode>,
        last_mode: EstocMode,
        prev: Option<EstocTransient>,
        dt_s: F64,
        shaft: JetShaftState,
    ) -> Result<(EstocPoint, EstocTransient), Fault> {
        match self.evaluation_fault(condition, throttle, dt_s) {
            Some(fault) => Err(fault),
            None => if throttle.same(zero()) {
                match self.air.steady(math, condition, zero()) {
                    Err(fault) => Err(fault),
                    Ok(air_point) => {
                        let mode = self.select_mode_inner(condition, &air_point, last_mode, manual, false);
                        let transient = self.resting_snapshot(condition, &air_point, prev);
                        Ok((point_of(transient, mode, zero(), false), transient))
                    },
                }
            } else {
                match self.conditioned(math, condition, throttle, shaft, prev, dt_s) {
                    Err(fault) => Err(fault),
                    Ok(cooled) => {
                        let mode = self.select_mode(condition, &cooled.point, last_mode, manual);
                        match self.target(math, mode, condition, throttle, cooled, prev) {
                            Err(fault) => Err(fault),
                            Ok(target) => {
                                let smoothed = self.smoothed(math, target, prev, dt_s);
                                Ok(
                                    (
                                        point_of(
                                            smoothed,
                                            mode,
                                            self.propellant_isp_s(&smoothed),
                                            self.saturated(&cooled.point),
                                        ),
                                        smoothed,
                                    ),
                                )
                            },
                        }
                    },
                }
            },
        }
    }

    /// [`Self::saturated`] in contracts.
    pub open spec fn saturated_spec(&self, air_point: &AirOperatingPoint) -> bool {
        match self.precooler {
            None => false,
            Some(precooler) => air_point.compressor_inlet_total_temp_k > precooler.maximum_compressor_inlet_temp_k * (whole(1)
                + dec(1, 9)),
        }
    }

    /// Whether the precooler cannot hold its compressor-inlet limit.
    #[verifier::when_used_as_spec(saturated_spec)]
    pub fn saturated(&self, air_point: &AirOperatingPoint) -> (r: bool)
        ensures
            r == self.saturated(air_point),
    {
        match self.precooler {
            None => false,
            Some(precooler) => air_point.compressor_inlet_total_temp_k > precooler.maximum_compressor_inlet_temp_k * (whole(1)
                + dec(1, 9)),
        }
    }

    /// Operating point with mode discipline and a self-consistent transition state.
    /// Thread the returned transient and mode back as `prev` and `last_mode`;
    /// `None` starts fresh at the exact target.
    ///
    /// Manual selection always wins, including a manual `Air` in vacuum, which
    /// flames out rather than silently switching. The air path is evaluated at the
    /// shaft state: spool speed schedules the cycle and `lit` gates ignition.
    pub fn operating_point<M: Numerics>(
        &self,
        math: &M,
        condition: &FlightCondition,
        throttle: F64,
        manual: Option<EstocMode>,
        last_mode: EstocMode,
        prev: Option<EstocTransient>,
        dt_s: F64,
        shaft: JetShaftState,
    ) -> (r: Result<(EstocPoint, EstocTransient), PropulsionError>)
        requires
            throttle.same(zero()) || self.evaluation_fault(condition, throttle, dt_s) is Some || self.is_ordered(),
        ensures
            repeatable(math) ==> seen(r) == self.point(math, condition, throttle, manual, last_mode, prev, dt_s, shaft),
            self.evaluation_fault(condition, throttle, dt_s) is Some ==> seen(r) == Err::<(EstocPoint, EstocTransient), Fault>(
                self.evaluation_fault(condition, throttle, dt_s)->0,
            ),
    {
        condition.validate()?;
        if !in_unit_interval(throttle) {
            return Err(invalid_command("throttle must be finite in [0, 1]"));
        }
        if dt_s.is_nan() || dt_s < zero() {
            return Err(invalid_command("transition dt must be >= 0 or +infinity"));
        }
        if throttle.same(zero()) {
            let air_point: AirOperatingPoint = self.air.operating_point(math, condition, zero())?;
            let mode: EstocMode = self.select_mode_inner(condition, &air_point, last_mode, manual, false);
            let transient: EstocTransient = self.resting_snapshot(condition, &air_point, prev);
            return Ok((point_of(transient, mode, zero(), false), transient));
        }
        let cooled: ConditionedPoint = self.conditioned_air_point(math, condition, throttle, shaft, prev, dt_s)?;
        let mode: EstocMode = self.select_mode(condition, &cooled.point, last_mode, manual);
        let target: EstocTransient = self.find_target(math, mode, condition, throttle, cooled, prev)?;
        let smoothed: EstocTransient = self.smoothed(math, target, prev, dt_s);
        let isp_total_s: F64 = self.propellant_isp_s(&smoothed);
        Ok((point_of(smoothed, mode, isp_total_s, self.saturated(&cooled.point)), smoothed))
    }
}

/// One steady analyzer row of the mode and thermal envelope.
#[derive(Debug, Clone, Copy, PartialEq)]
pub struct EstocAltitudePoint {
    pub altitude_m: F64,
    pub mach: F64,
    pub ambient_pa: F64,
    pub mode: EstocMode,
    pub thrust_n: F64,
    pub isp_total_s: F64,
    pub fuel_flow_kg_s: F64,
    pub bulk_fuel_flow_kg_s: F64,
    pub boost_fuel_flow_kg_s: F64,
    pub oxidizer_flow_kg_s: F64,
    pub air_flow_kg_s: F64,
    pub compressor_inlet_total_temp_k: F64,
    pub precooler_heat_flow_w: F64,
    pub precooler_saturated: bool,
}

/// [`estoc_row`] in contracts.
pub open spec fn estoc_row_spec(altitude_m: F64, mach: F64, ambient_pa: F64, point: EstocPoint) -> EstocAltitudePoint {
    EstocAltitudePoint {
        altitude_m,
        mach,
        ambient_pa,
        mode: point.mode,
        thrust_n: point.thrust_n,
        isp_total_s: point.isp_total_s,
        fuel_flow_kg_s: point.fuel_flow_kg_s,
        bulk_fuel_flow_kg_s: point.bulk_fuel_flow_kg_s,
        boost_fuel_flow_kg_s: point.boost_fuel_flow_kg_s,
        oxidizer_flow_kg_s: point.oxidizer_flow_kg_s,
        air_flow_kg_s: point.air_flow_kg_s,
        compressor_inlet_total_temp_k: point.compressor_inlet_total_temp_k,
        precooler_heat_flow_w: point.precooler_heat_flow_w,
        precooler_saturated: point.precooler_saturated,
    }
}

/// The row of an operating point.
#[verifier::when_used_as_spec(estoc_row_spec)]
pub fn estoc_row(altitude_m: F64, mach: F64, ambient_pa: F64, point: EstocPoint) -> (r: EstocAltitudePoint)
    ensures
        r == estoc_row(altitude_m, mach, ambient_pa, point),
{
    EstocAltitudePoint {
        altitude_m,
        mach,
        ambient_pa,
        mode: point.mode,
        thrust_n: point.thrust_n,
        isp_total_s: point.isp_total_s,
        fuel_flow_kg_s: point.fuel_flow_kg_s,
        bulk_fuel_flow_kg_s: point.bulk_fuel_flow_kg_s,
        boost_fuel_flow_kg_s: point.boost_fuel_flow_kg_s,
        oxidizer_flow_kg_s: point.oxidizer_flow_kg_s,
        air_flow_kg_s: point.air_flow_kg_s,
        compressor_inlet_total_temp_k: point.compressor_inlet_total_temp_k,
        precooler_heat_flow_w: point.precooler_heat_flow_w,
        precooler_saturated: point.precooler_saturated,
    }
}

impl CompiledEstoc {
    /// The steady point of a condition: fresh start, running shaft, and no credit for
    /// the finite wall store.
    pub open spec fn steady<M: Numerics>(&self, math: &M, condition: &FlightCondition, throttle: F64) -> Result<
        (EstocPoint, EstocTransient),
        Fault,
    > {
        self.point(
            math,
            condition,
            throttle,
            None,
            EstocMode::Air,
            None,
            F64::infinity(),
            JetShaftState::running(&self.air),
        )
    }
}

/// The rows of one altitude from its `j`th Mach number on, after `done`.
pub open spec fn estoc_rows_at<M: Numerics>(
    math: &M,
    engine: &CompiledEstoc,
    row: SampledAltitude,
    sample: AtmosphereSample,
    machs: Seq<F64>,
    throttle: F64,
    j: int,
    done: Seq<EstocAltitudePoint>,
) -> Result<Seq<EstocAltitudePoint>, Fault>
    decreases machs.len() - j,
{
    if j < 0 || j >= machs.len() {
        Ok(done)
    } else {
        match cell_condition(sample, row.solved_machs@, machs[j], j, "ESTOC analyzer Mach numbers must be finite and >= 0") {
            Err(fault) => Err(fault),
            Ok(condition) => match engine.steady(math, &condition, throttle) {
                Err(fault) => Err(fault),
                Ok((point, _)) => estoc_rows_at(
                    math,
                    engine,
                    row,
                    sample,
                    machs,
                    throttle,
                    j + 1,
                    done.push(estoc_row(row.altitude_m, machs[j], sample.pressure_pa, point)),
                ),
            },
        }
    }
}

/// The rows of the altitudes from the `i`th on, after `done`.
pub open spec fn estoc_rows_from<M: Numerics>(
    math: &M,
    engine: &CompiledEstoc,
    altitudes: Seq<SampledAltitude>,
    machs: Seq<F64>,
    throttle: F64,
    i: int,
    done: Seq<EstocAltitudePoint>,
) -> Result<Seq<EstocAltitudePoint>, Fault>
    decreases altitudes.len() - i,
{
    if i < 0 || i >= altitudes.len() {
        Ok(done)
    } else {
        match sample_at(altitudes[i], "ESTOC analyzer altitudes must be finite") {
            Err(fault) => Err(fault),
            Ok(sample) => match estoc_rows_at(math, engine, altitudes[i], sample, machs, throttle, 0, done) {
                Err(fault) => Err(fault),
                Ok(rows) => estoc_rows_from(math, engine, altitudes, machs, throttle, i + 1, rows),
            },
        }
    }
}

/// Evaluates the steady mode envelope over altitudes and Mach numbers. The finite
/// wall store is not credited; flowing coolant remains available.
pub fn analyze_estoc<M: Numerics>(
    math: &M,
    engine: &CompiledEstoc,
    altitudes: &Vec<SampledAltitude>,
    machs: &Vec<F64>,
    throttle: F64,
) -> (r: Result<Vec<EstocAltitudePoint>, PropulsionError>)
    requires
        throttle.same(zero()) || engine.is_ordered(),
    ensures
        altitudes@.len() == 0 || machs@.len() == 0 ==> seen(r) == Err::<Vec<EstocAltitudePoint>, Fault>(
            bad_spec("ESTOC analyzer needs altitudes and Mach numbers"),
        ),
        repeatable(math) && altitudes@.len() > 0 && machs@.len() > 0 ==> match estoc_rows_from(
            math,
            engine,
            altitudes@,
            machs@,
            throttle,
            0,
            Seq::empty(),
        ) {
            Err(fault) => seen(r) == Err::<Vec<EstocAltitudePoint>, Fault>(fault),
            Ok(rows) => r is Ok && r->Ok_0@ == rows,
        },
{
    if altitudes.len() == 0 || machs.len() == 0 {
        return Err(invalid_spec("ESTOC analyzer needs altitudes and Mach numbers"));
    }
    let mut rows: Vec<EstocAltitudePoint> = Vec::new();
    assert(rows@ =~= Seq::empty());
    let mut i: usize = 0;
    while i < altitudes.len()
        invariant
            i <= altitudes@.len(),
            altitudes@.len() > 0 && machs@.len() > 0,
            throttle.same(zero()) || engine.is_ordered(),
            repeatable(math) ==> estoc_rows_from(math, engine, altitudes@, machs@, throttle, 0, Seq::empty())
                == estoc_rows_from(math, engine, altitudes@, machs@, throttle, i as int, rows@),
        decreases altitudes@.len() - i,
    {
        let row: &SampledAltitude = &altitudes[i];
        let sample: AtmosphereSample = find_sample(row, "ESTOC analyzer altitudes must be finite")?;
        let ghost before = rows@;
        let mut j: usize = 0;
        while j < machs.len()
            invariant
                j <= machs@.len(),
                i < altitudes@.len(),
                altitudes@.len() > 0 && machs@.len() > 0,
                throttle.same(zero()) || engine.is_ordered(),
                *row == altitudes@[i as int],
                sample_at(*row, "ESTOC analyzer altitudes must be finite") == Ok::<AtmosphereSample, Fault>(sample),
                repeatable(math) ==> estoc_rows_from(math, engine, altitudes@, machs@, throttle, 0, Seq::empty())
                    == estoc_rows_from(math, engine, altitudes@, machs@, throttle, i as int, before),
                repeatable(math) ==> estoc_rows_at(math, engine, *row, sample, machs@, throttle, 0, before) == estoc_rows_at(
                    math,
                    engine,
                    *row,
                    sample,
                    machs@,
                    throttle,
                    j as int,
                    rows@,
                ),
            decreases machs@.len() - j,
        {
            let mach: F64 = machs[j];
            let condition: FlightCondition = find_cell_condition(
                &sample,
                &row.solved_machs,
                mach,
                j,
                "ESTOC analyzer Mach numbers must be finite and >= 0",
            )?;
            let (point, _transient): (EstocPoint, EstocTransient) = engine.operating_point(
                math,
                &condition,
                throttle,
                None,
                EstocMode::Air,
                None,
                F64::infinity(),
                JetShaftState::running(&engine.air),
            )?;
            rows.push(estoc_row(row.altitude_m, mach, sample.pressure_pa, point));
            j = j + 1;
        }
        i = i + 1;
    }
    Ok(rows)
}

} // verus!
