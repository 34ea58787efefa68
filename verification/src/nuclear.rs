//! Nuclear thermal propulsion: a reactor heats a working fluid that expands
//! through a nozzle.
//!
//! Mass flow comes from the reactor power balance, chamber pressure follows from
//! choked flow, thrust from the shared isentropic core at core temperature.
//! Frozen-flow dissociation losses ride on `kinetic_efficiency`. The compiled
//! output is a [`CompiledLiquid`] plus an [`NtrSupplement`] with reactor data.
use crate::constants::{
    aerospike_base_fraction, mass_fit_feed_kg_per_n, mass_fit_gimbal_base_kg, mass_fit_gimbal_kg_per_n,
    mass_fit_head_base_kg, mass_fit_head_kg_per_m2, mass_fit_mount_kg_per_n, mass_fit_turbo_kg_per_flow_power,
    pressure_safety_factor, sea_level_pa, standard_gravity_mps2,
};
use crate::cycle::EngineCycle;
use crate::error::{
    bad_spec, checks, in_unit_interval, invalid_spec, outcome, require_non_negative, require_positive, seen, Fault,
    PropulsionError,
};
use crate::float::{big, dec, given_or, pi, whole, zero, F64};
use crate::liquid::{divergence_of, with_megapascals, CompiledLiquid};
use crate::material::{ChamberMaterial, CoolingMode};
use crate::nozzle::{characteristic_velocity, exit_for, nozzle_exit, thrust_coefficient, NozzleContour, NozzleExitState};
use crate::numerics::{atan, fixed_text, powi, repeatable, Numerics};
use crate::propellant::{Propellant, PropellantThermo};
use crate::text::{blank, copied, is_blank, join};
use vstd::prelude::*;

verus! {

/// [`ntr_kinetic_efficiency`] in contracts.
pub open spec fn ntr_kinetic_efficiency_spec() -> F64 {
    dec(90, 2)
}

/// Frozen-flow kinetic and dissociation efficiency for hot hydrogen expansion.
#[verifier::when_used_as_spec(ntr_kinetic_efficiency_spec)]
pub fn ntr_kinetic_efficiency() -> (r: F64)
    ensures
        r == ntr_kinetic_efficiency(),
{
    dec(90, 2)
}

/// [`ntr_max_chamber_pressure_pa`] in contracts.
pub open spec fn ntr_max_chamber_pressure_pa_spec() -> F64 {
    big(12, 6)
}

/// Expander-cycle chamber-pressure cap (Pa).
#[verifier::when_used_as_spec(ntr_max_chamber_pressure_pa_spec)]
pub fn ntr_max_chamber_pressure_pa() -> (r: F64)
    ensures
        r == ntr_max_chamber_pressure_pa(),
{
    big(12, 6)
}

/// [`ntr_inlet_temp_k`] in contracts.
pub open spec fn ntr_inlet_temp_k_spec() -> F64 {
    whole(150)
}

/// Cryogenic propellant inlet temperature after regenerative pickup (K).
#[verifier::when_used_as_spec(ntr_inlet_temp_k_spec)]
pub fn ntr_inlet_temp_k() -> (r: F64)
    ensures
        r == ntr_inlet_temp_k(),
{
    whole(150)
}

/// [`ntr_cooldown_fraction`] in contracts.
pub open spec fn ntr_cooldown_fraction_spec() -> F64 {
    dec(4, 2)
}

/// Decay-heat cooldown impulse as a fraction of burn impulse.
#[verifier::when_used_as_spec(ntr_cooldown_fraction_spec)]
pub fn ntr_cooldown_fraction() -> (r: F64)
    ensures
        r == ntr_cooldown_fraction(),
{
    dec(4, 2)
}

/// [`ntr_default_specific_mass_kg_per_mw`] in contracts.
pub open spec fn ntr_default_specific_mass_kg_per_mw_spec() -> F64 {
    whole(10)
}

/// Default reactor specific mass (kg per MW thermal).
#[verifier::when_used_as_spec(ntr_default_specific_mass_kg_per_mw_spec)]
pub fn ntr_default_specific_mass_kg_per_mw() -> (r: F64)
    ensures
        r == ntr_default_specific_mass_kg_per_mw(),
{
    whole(10)
}

/// [`ntr_default_startup_tau_s`] in contracts.
pub open spec fn ntr_default_startup_tau_s_spec() -> F64 {
    whole(60)
}

/// Default startup time to full power (s).
#[verifier::when_used_as_spec(ntr_default_startup_tau_s_spec)]
pub fn ntr_default_startup_tau_s() -> (r: F64)
    ensures
        r == ntr_default_startup_tau_s(),
{
    whole(60)
}

/// [`ntr_default_rated_burn_s`] in contracts.
pub open spec fn ntr_default_rated_burn_s_spec() -> F64 {
    whole(7200)
}

/// Default rated continuous burn (s).
#[verifier::when_used_as_spec(ntr_default_rated_burn_s_spec)]
pub fn ntr_default_rated_burn_s() -> (r: F64)
    ensures
        r == ntr_default_rated_burn_s(),
{
    whole(7200)
}

/// Reactor working fluid; chamber temperature comes from the core.
#[derive(Debug, Clone, Copy, PartialEq, Eq, Hash, Structural)]
pub enum NtrFluid {
    Hydrogen,
    Methane,
    Ammonia,
    Water,
}

impl NtrFluid {
    /// [`Self::properties`] in contracts.
    pub open spec fn properties_spec(self) -> (F64, F64, F64) {
        match self {
            NtrFluid::Hydrogen => (dec(130, 2), whole(4157), whole(71)),
            NtrFluid::Methane => (dec(128, 2), whole(560), whole(422)),
            NtrFluid::Ammonia => (dec(130, 2), whole(800), whole(610)),
            NtrFluid::Water => (dec(130, 2), whole(462), whole(1000)),
        }
    }

    /// (gamma, gas constant J/kg/K, liquid storage density kg/m^3).
    #[verifier::when_used_as_spec(properties_spec)]
    pub fn properties(self) -> (r: (F64, F64, F64))
        ensures
            r == self.properties(),
    {
        match self {
            NtrFluid::Hydrogen => (dec(130, 2), whole(4157), whole(71)),
            NtrFluid::Methane => (dec(128, 2), whole(560), whole(422)),
            NtrFluid::Ammonia => (dec(130, 2), whole(800), whole(610)),
            NtrFluid::Water => (dec(130, 2), whole(462), whole(1000)),
        }
    }

    /// [`Self::tank_propellant`] in contracts.
    pub open spec fn tank_propellant_spec(self) -> Propellant {
        match self {
            NtrFluid::Hydrogen => Propellant::LoxHydrogen,
            NtrFluid::Methane => Propellant::LoxMethane,
            NtrFluid::Ammonia => Propellant::NtoMmh,
            NtrFluid::Water => Propellant::ColdGasNitrogen,
        }
    }

    /// Editor propellant for tank sizing (bulk density source).
    #[verifier::when_used_as_spec(tank_propellant_spec)]
    pub fn tank_propellant(self) -> (r: Propellant)
        ensures
            r == self.tank_propellant(),
    {
        match self {
            NtrFluid::Hydrogen => Propellant::LoxHydrogen,
            NtrFluid::Methane => Propellant::LoxMethane,
            NtrFluid::Ammonia => Propellant::NtoMmh,
            NtrFluid::Water => Propellant::ColdGasNitrogen,
        }
    }
}

/// Nuclear thermal engine authoring: reactor plus nozzle assembly.
#[derive(Debug, Clone, PartialEq)]
pub struct NuclearThermalSpec {
    pub name: String,
    pub fluid: NtrFluid,
    /// Fuel or core temperature (K).
    pub core_temp_k: F64,
    /// Reactor thermal power (MW).
    pub core_power_mw: F64,
    /// Reactor specific mass override (kg/MW thermal).
    pub reactor_specific_mass_kg_per_mw: Option<F64>,
    pub throat_radius_m: F64,
    pub expansion_ratio: F64,
    pub nozzle_length_m: F64,
    pub contour: NozzleContour,
    pub material: ChamberMaterial,
    pub cooling: CoolingMode,
    pub gimbal_range_rad: F64,
    /// Startup time constant override (s).
    pub startup_tau_s: Option<F64>,
    /// Minimum stable throttle override.
    pub min_throttle: Option<F64>,
}

/// Reactor-side data accompanying the compiled liquid core.
#[derive(Debug, Clone, Copy, PartialEq)]
pub struct NtrSupplement {
    pub core_power_mw: F64,
    pub core_temp_k: F64,
    pub reactor_mass_kg: F64,
    pub startup_tau_s: F64,
    pub rated_burn_time_s: F64,
    pub cooldown_fraction: F64,
}

impl NtrSupplement {
    /// [`Self::cooldown_impulse_ns`] in contracts.
    pub open spec fn cooldown_impulse_ns_spec(&self, burn_impulse_ns: F64) -> F64 {
        if !burn_impulse_ns.is_finite() || burn_impulse_ns <= zero() {
            zero()
        } else {
            self.cooldown_fraction * burn_impulse_ns
        }
    }

    /// Decay-heat tail impulse for a burn delivering `burn_impulse_ns`.
    #[verifier::when_used_as_spec(cooldown_impulse_ns_spec)]
    pub fn cooldown_impulse_ns(&self, burn_impulse_ns: F64) -> (r: F64)
        ensures
            r == self.cooldown_impulse_ns(burn_impulse_ns),
    {
        if !burn_impulse_ns.is_finite() || burn_impulse_ns <= zero() {
            zero()
        } else {
            self.cooldown_fraction * burn_impulse_ns
        }
    }
}

impl NuclearThermalSpec {
    /// What is wrong with the authoring values, if anything.
    pub open spec fn fault(&self) -> Option<Fault> {
        let first = checks()
            .refuse(blank(self.name@), bad_spec("engine name must not be empty"))
            .positive(self.core_temp_k, "core temperature")
            .refuse(
                self.core_temp_k > whole(3200),
                bad_spec("solid-core fuel above 3200 K needs an explicit fuel design"),
            )
            .positive(self.core_power_mw, "core power")
            .positive(self.throat_radius_m, "throat radius")
            .refuse(!(self.expansion_ratio >= whole(1)), bad_spec("expansion ratio must be finite and >= 1"))
            .positive(self.nozzle_length_m, "nozzle length")
            .part(self.material.fault())
            .non_negative(self.gimbal_range_rad, "gimbal range");
        let second = match self.reactor_specific_mass_kg_per_mw {
            Some(specific) => first.positive(specific, "reactor specific mass"),
            None => first,
        };
        let third = match self.startup_tau_s {
            Some(tau) => second.positive(tau, "startup tau"),
            None => second,
        };
        match self.min_throttle {
            Some(floor) => third.refuse(!in_unit_interval(floor), bad_spec("min throttle must be finite in [0, 1]")).fault,
            None => third.fault,
        }
    }

    /// Validates the authoring values (NaN fails closed).
    pub fn validate(&self) -> (r: Result<(), PropulsionError>)
        ensures
            seen(r) == outcome(self.fault()),
    {
        if is_blank(self.name.as_str()) {
            return Err(invalid_spec("engine name must not be empty"));
        }
        require_positive(self.core_temp_k, "core temperature")?;
        if self.core_temp_k > whole(3200) {
            return Err(invalid_spec("solid-core fuel above 3200 K needs an explicit fuel design"));
        }
        require_positive(self.core_power_mw, "core power")?;
        require_positive(self.throat_radius_m, "throat radius")?;
        if !(self.expansion_ratio >= whole(1)) {
            return Err(invalid_spec("expansion ratio must be finite and >= 1"));
        }
        require_positive(self.nozzle_length_m, "nozzle length")?;
        self.material.validate()?;
        require_non_negative(self.gimbal_range_rad, "gimbal range")?;
        if let Some(specific) = self.reactor_specific_mass_kg_per_mw {
            require_positive(specific, "reactor specific mass")?;
        }
        if let Some(tau) = self.startup_tau_s {
            require_positive(tau, "startup tau")?;
        }
        if let Some(floor) = self.min_throttle {
            if !in_unit_interval(floor) {
                return Err(invalid_spec("min throttle must be finite in [0, 1]"));
            }
        }
        Ok(())
    }

    /// [`Self::core_thermo`] in contracts.
    pub open spec fn core_thermo_spec(&self) -> PropellantThermo {
        let (gamma, gas_r, storage_density) = self.fluid.properties();
        PropellantThermo {
            gamma,
            chamber_temp_k: self.core_temp_k,
            gas_constant_j_kg_k: gas_r,
            bulk_density_kg_m3: storage_density,
            characteristic_length_m: zero(),
            reference_c_star_mps: zero(),
        }
    }

    /// The working fluid at core temperature.
    #[verifier::when_used_as_spec(core_thermo_spec)]
    pub fn core_thermo(&self) -> (r: PropellantThermo)
        ensures
            r == self.core_thermo(),
    {
        let (gamma, gas_r, storage_density) = self.fluid.properties();
        PropellantThermo {
            gamma,
            chamber_temp_k: self.core_temp_k,
            gas_constant_j_kg_k: gas_r,
            bulk_density_kg_m3: storage_density,
            characteristic_length_m: zero(),
            reference_c_star_mps: zero(),
        }
    }

    /// [`Self::mass_flow_kg_s`] in contracts.
    pub open spec fn mass_flow_kg_s_spec(&self) -> F64 {
        let (gamma, gas_r, _) = self.fluid.properties();
        let cp = gamma * gas_r / (gamma - whole(1));
        let power_w = self.core_power_mw * big(1, 6);
        power_w / (cp * (self.core_temp_k - ntr_inlet_temp_k()))
    }

    /// Mass flow of the reactor power balance: the full thermal power heats the
    /// flow from inlet to core temperature (kg/s).
    #[verifier::when_used_as_spec(mass_flow_kg_s_spec)]
    pub fn mass_flow_kg_s(&self) -> (r: F64)
        ensures
            r == self.mass_flow_kg_s(),
    {
        let (gamma, gas_r, _) = self.fluid.properties();
        let cp = gamma * gas_r / (gamma - whole(1));
        let power_w = self.core_power_mw * big(1, 6);
        power_w / (cp * (self.core_temp_k - ntr_inlet_temp_k()))
    }

    /// [`Self::chamber_pa`] in contracts.
    pub open spec fn chamber_pa_spec<M: Numerics>(&self, math: &M) -> F64 {
        let c_star = characteristic_velocity(math, &self.core_thermo());
        let throat_area_m2 = pi() * self.throat_radius_m * self.throat_radius_m;
        self.mass_flow_kg_s() * c_star / throat_area_m2
    }

    /// Chamber pressure that choked flow sets for the authored throat (Pa).
    #[verifier::when_used_as_spec(chamber_pa_spec)]
    pub fn chamber_pa<M: Numerics>(&self, math: &M) -> (r: F64)
        ensures
            repeatable(math) ==> r == self.chamber_pa(math),
    {
        let c_star = characteristic_velocity(math, &self.core_thermo());
        let throat_area_m2 = pi() * self.throat_radius_m * self.throat_radius_m;
        self.mass_flow_kg_s() * c_star / throat_area_m2
    }

    /// [`Self::design`] in contracts.
    pub open spec fn design_spec<M: Numerics>(
        &self,
        math: &M,
        exit: &NozzleExitState,
    ) -> (CompiledLiquid, NtrSupplement) {
        let thermo = self.core_thermo();
        let mass_flow_kg_s = self.mass_flow_kg_s();
        let c_star = characteristic_velocity(math, &thermo);
        let throat_area_m2 = pi() * self.throat_radius_m * self.throat_radius_m;
        let chamber_pa = self.chamber_pa(math);
        let exit_radius_m = self.throat_radius_m * self.expansion_ratio.sqrt();
        let exit_area_m2 = throat_area_m2 * self.expansion_ratio;
        let wall_slope = (exit_radius_m - self.throat_radius_m) / self.nozzle_length_m;
        let divergence = divergence_of(math, self.contour, atan(math, wall_slope));
        let ideal_vac = thrust_coefficient(math, &thermo, chamber_pa, exit, self.expansion_ratio, zero(), divergence)
            * chamber_pa * throat_area_m2;
        let ideal_sl = thrust_coefficient(math, &thermo, chamber_pa, exit, self.expansion_ratio, sea_level_pa(), divergence)
            * chamber_pa * throat_area_m2;
        let thrust_vac_n = ideal_vac * ntr_kinetic_efficiency();
        let thrust_sl_n = ideal_sl * ntr_kinetic_efficiency();
        let isp_vac_s = thrust_vac_n / (mass_flow_kg_s * standard_gravity_mps2());
        let isp_sl_s = thrust_sl_n / (mass_flow_kg_s * standard_gravity_mps2());
        // Mass: reactor plus nozzle, head, feed and mount hardware on the same
        // wall math as chemical engines.
        let specific = given_or(self.reactor_specific_mass_kg_per_mw, ntr_default_specific_mass_kg_per_mw());
        let reactor_kg = self.core_power_mw * specific;
        let slant_m = (self.nozzle_length_m * self.nozzle_length_m + powi(math, exit_radius_m - self.throat_radius_m, 2)).sqrt();
        let wall_m = chamber_pa * self.throat_radius_m / (whole(2) * self.material.yield_strength_pa)
            * pressure_safety_factor() * dec(5, 1);
        let cone_kg = pi() * (self.throat_radius_m + exit_radius_m) * slant_m * wall_m * self.material.density_kg_m3;
        let nozzle_kg = match self.contour {
            NozzleContour::Bell => cone_kg * dec(85, 2),
            _ => cone_kg,
        };
        let turbo_kg = mass_flow_kg_s * chamber_pa * mass_fit_turbo_kg_per_flow_power();
        let head_kg = mass_fit_head_base_kg() + mass_fit_head_kg_per_m2() * throat_area_m2;
        let mount_kg = mass_fit_mount_kg_per_n() * thrust_vac_n;
        let feed_kg = mass_fit_feed_kg_per_n() * thrust_vac_n;
        let gimbal_kg = if self.gimbal_range_rad > zero() {
            mass_fit_gimbal_base_kg() + mass_fit_gimbal_kg_per_n() * thrust_vac_n
        } else {
            zero()
        };
        let dry_mass_kg = reactor_kg + nozzle_kg + turbo_kg + head_kg + mount_kg + feed_kg + gimbal_kg;
        let startup_tau_s = given_or(self.startup_tau_s, ntr_default_startup_tau_s());
        (
            CompiledLiquid {
                name: copied(&self.name),
                propellant: self.fluid.tank_propellant(),
                cycle: EngineCycle::StagedCombustion,
                chamber_pressure_pa: chamber_pa,
                throat_area_m2,
                throat_radius_m: self.throat_radius_m,
                expansion_ratio: self.expansion_ratio,
                exit_radius_m,
                exit_area_m2,
                nozzle_length_m: self.nozzle_length_m,
                divergence_factor: divergence,
                wall_angle_rad: atan(math, wall_slope),
                gamma: thermo.gamma,
                chamber_temp_k: self.core_temp_k,
                gas_constant_j_kg_k: thermo.gas_constant_j_kg_k,
                c_star_mps: c_star,
                exit_mach: exit.exit_mach,
                exit_pressure_pa: exit.exit_pressure_ratio * chamber_pa,
                exit_temp_k: exit.exit_temp_k,
                exhaust_velocity_mps: exit.exhaust_velocity_mps,
                gg_bypass_fraction: zero(),
                gg_thrust_sl_n: zero(),
                gg_thrust_vac_n: zero(),
                gg_exit_area_m2: zero(),
                gg_isp_s: zero(),
                full_flow_kg_s: mass_flow_kg_s,
                thrust_sl_n,
                thrust_vac_n,
                isp_sl_s,
                isp_vac_s,
                dry_mass_kg,
                chamber_diameter_m: whole(2) * self.throat_radius_m,
                chamber_length_m: zero(),
                wall_thickness_m: wall_m,
                nozzle_mass_kg: nozzle_kg,
                pump_power_w: zero(),
                feed_pressure_required_pa: chamber_pa,
                min_throttle: given_or(self.min_throttle, dec(5, 1)),
                spool_tau_s: startup_tau_s,
                restartable: true,
                gimbal_range_rad: self.gimbal_range_rad,
                cooling: self.cooling,
                contour: self.contour,
                aerospike_base_area_m2: match self.contour {
                    NozzleContour::Aerospike => aerospike_base_fraction() * exit_area_m2,
                    _ => zero(),
                },
                nozzle_wall_area_m2: pi() * (self.throat_radius_m + exit_radius_m) * slant_m,
                kinetic_efficiency: ntr_kinetic_efficiency(),
            },
            NtrSupplement {
                core_power_mw: self.core_power_mw,
                core_temp_k: self.core_temp_k,
                reactor_mass_kg: reactor_kg,
                startup_tau_s,
                rated_burn_time_s: ntr_default_rated_burn_s(),
                cooldown_fraction: ntr_cooldown_fraction(),
            },
        )
    }

    /// The engine and its reactor for a solved nozzle exit.
    #[verifier::when_used_as_spec(design_spec)]
    pub fn design<M: Numerics>(&self, math: &M, exit: &NozzleExitState) -> (r: (CompiledLiquid, NtrSupplement))
        ensures
            repeatable(math) ==> r == self.design(math, exit),
    {
        let thermo = self.core_thermo();
        let mass_flow_kg_s = self.mass_flow_kg_s();
        let c_star = characteristic_velocity(math, &thermo);
        let throat_area_m2 = pi() * self.throat_radius_m * self.throat_radius_m;
        let chamber_pa = self.chamber_pa(math);
        let exit_radius_m = self.throat_radius_m * self.expansion_ratio.sqrt();
        let exit_area_m2 = throat_area_m2 * self.expansion_ratio;
        let wall_slope = (exit_radius_m - self.throat_radius_m) / self.nozzle_length_m;
        let divergence = divergence_of(math, self.contour, atan(math, wall_slope));
        let ideal_vac = thrust_coefficient(math, &thermo, chamber_pa, exit, self.expansion_ratio, zero(), divergence)
            * chamber_pa * throat_area_m2;
        let ideal_sl = thrust_coefficient(math, &thermo, chamber_pa, exit, self.expansion_ratio, sea_level_pa(), divergence)
            * chamber_pa * throat_area_m2;
        let thrust_vac_n = ideal_vac * ntr_kinetic_efficiency();
        let thrust_sl_n = ideal_sl * ntr_kinetic_efficiency();
        let isp_vac_s = thrust_vac_n / (mass_flow_kg_s * standard_gravity_mps2());
        let isp_sl_s = thrust_sl_n / (mass_flow_kg_s * standard_gravity_mps2());
        // Mass: reactor plus nozzle, head, feed and mount hardware on the same
        // wall math as chemical engines.
        let specific = given_or(self.reactor_specific_mass_kg_per_mw, ntr_default_specific_mass_kg_per_mw());
        let reactor_kg = self.core_power_mw * specific;
        let slant_m = (self.nozzle_length_m * self.nozzle_length_m + powi(math, exit_radius_m - self.throat_radius_m, 2)).sqrt();
        let wall_m = chamber_pa * self.throat_radius_m / (whole(2) * self.material.yield_strength_pa)
            * pressure_safety_factor() * dec(5, 1);
        let cone_kg = pi() * (self.throat_radius_m + exit_radius_m) * slant_m * wall_m * self.material.density_kg_m3;
        let nozzle_kg = match self.contour {
            NozzleContour::Bell => cone_kg * dec(85, 2),
            _ => cone_kg,
        };
        let turbo_kg = mass_flow_kg_s * chamber_pa * mass_fit_turbo_kg_per_flow_power();
        let head_kg = mass_fit_head_base_kg() + mass_fit_head_kg_per_m2() * throat_area_m2;
        let mount_kg = mass_fit_mount_kg_per_n() * thrust_vac_n;
        let feed_kg = mass_fit_feed_kg_per_n() * thrust_vac_n;
        let gimbal_kg = if self.gimbal_range_rad > zero() {
            mass_fit_gimbal_base_kg() + mass_fit_gimbal_kg_per_n() * thrust_vac_n
        } else {
            zero()
        };
        let dry_mass_kg = reactor_kg + nozzle_kg + turbo_kg + head_kg + mount_kg + feed_kg + gimbal_kg;
        let startup_tau_s = given_or(self.startup_tau_s, ntr_default_startup_tau_s());
        (
            CompiledLiquid {
                name: copied(&self.name),
                propellant: self.fluid.tank_propellant(),
                cycle: EngineCycle::StagedCombustion,
                chamber_pressure_pa: chamber_pa,
                throat_area_m2,
                throat_radius_m: self.throat_radius_m,
                expansion_ratio: self.expansion_ratio,
                exit_radius_m,
                exit_area_m2,
                nozzle_length_m: self.nozzle_length_m,
                divergence_factor: divergence,
                wall_angle_rad: atan(math, wall_slope),
                gamma: thermo.gamma,
                chamber_temp_k: self.core_temp_k,
                gas_constant_j_kg_k: thermo.gas_constant_j_kg_k,
                c_star_mps: c_star,
                exit_mach: exit.exit_mach,
                exit_pressure_pa: exit.exit_pressure_ratio * chamber_pa,
                exit_temp_k: exit.exit_temp_k,
                exhaust_velocity_mps: exit.exhaust_velocity_mps,
                gg_bypass_fraction: zero(),
                gg_thrust_sl_n: zero(),
                gg_thrust_vac_n: zero(),
                gg_exit_area_m2: zero(),
                gg_isp_s: zero(),
                full_flow_kg_s: mass_flow_kg_s,
                thrust_sl_n,
                thrust_vac_n,
                isp_sl_s,
                isp_vac_s,
                dry_mass_kg,
                chamber_diameter_m: whole(2) * self.throat_radius_m,
                chamber_length_m: zero(),
                wall_thickness_m: wall_m,
                nozzle_mass_kg: nozzle_kg,
                pump_power_w: zero(),
                feed_pressure_required_pa: chamber_pa,
                min_throttle: given_or(self.min_throttle, dec(5, 1)),
                spool_tau_s: startup_tau_s,
                restartable: true,
                gimbal_range_rad: self.gimbal_range_rad,
                cooling: self.cooling,
                contour: self.contour,
                aerospike_base_area_m2: match self.contour {
                    NozzleContour::Aerospike => aerospike_base_fraction() * exit_area_m2,
                    _ => zero(),
                },
                nozzle_wall_area_m2: pi() * (self.throat_radius_m + exit_radius_m) * slant_m,
                kinetic_efficiency: ntr_kinetic_efficiency(),
            },
            NtrSupplement {
                core_power_mw: self.core_power_mw,
                core_temp_k: self.core_temp_k,
                reactor_mass_kg: reactor_kg,
                startup_tau_s,
                rated_burn_time_s: ntr_default_rated_burn_s(),
                cooldown_fraction: ntr_cooldown_fraction(),
            },
        )
    }

    /// The compiled engine and reactor, or what stops them.
    pub open spec fn compiled<M: Numerics>(&self, math: &M) -> Result<(CompiledLiquid, NtrSupplement), Fault> {
        match self.fault() {
            Some(fault) => Err(fault),
            None => if self.chamber_pa(math) > ntr_max_chamber_pressure_pa() {
                Err(
                    Fault::UnsupportedCombination(
                        "expander feed cannot sustain "@ + fixed_text(math, self.chamber_pa(math) / big(1, 6), 2)
                            + " MPa (cap "@ + fixed_text(math, ntr_max_chamber_pressure_pa() / big(1, 6), 1)
                            + " MPa)"@ + ": open the throat"@,
                    ),
                )
            } else {
                match exit_for(math, &self.core_thermo(), self.expansion_ratio) {
                    Err(fault) => Err(fault),
                    Ok(exit) => Ok(self.design(math, &exit)),
                }
            },
        }
    }

    /// Compiles the engine: power balance first, then the shared nozzle core.
    pub fn compile<M: Numerics>(&self, math: &M) -> (r: Result<(CompiledLiquid, NtrSupplement), PropulsionError>)
        ensures
            repeatable(math) ==> seen(r) == self.compiled(math),
            self.fault() is Some ==> seen(r) == self.compiled(math),
            self.fault() is None && r is Err ==> r->Err_0 is UnsupportedCombination || r->Err_0 is InvalidSpec,
    {
        self.validate()?;
        let chamber_pa: F64 = self.chamber_pa(math);
        if chamber_pa > ntr_max_chamber_pressure_pa() {
            let text: String = "expander feed cannot sustain ".to_owned();
            let text: String = with_megapascals(math, text, chamber_pa, ntr_max_chamber_pressure_pa());
            return Err(PropulsionError::UnsupportedCombination(join(text.as_str(), ": open the throat")));
        }
        let exit: NozzleExitState = nozzle_exit(math, &self.core_thermo(), self.expansion_ratio)?;
        Ok(self.design(math, &exit))
    }
}

} // verus!
