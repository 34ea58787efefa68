//! Liquid chemical rocket engines: authoring compiled into a solved design
//! point with derived mass, power and thermal interfaces.
use crate::constants::{
    aerospike_base_fraction, chamber_length_diameter, gg_duct_expansion_ratio, gg_pressure_fraction,
    injector_drop_fraction, mass_fit_feed_kg_per_n, mass_fit_gimbal_base_kg, mass_fit_gimbal_kg_per_n,
    mass_fit_head_base_kg, mass_fit_head_kg_per_m2, mass_fit_mount_kg_per_n, mass_fit_turbo_kg_per_flow_power,
    pressure_safety_factor, pump_efficiency, pump_specific_power_w_per_kg, sea_level_pa, standard_gravity_mps2,
    tank_pressure_pa,
};
use crate::cycle::EngineCycle;
use crate::error::{
    alike, bad_spec, checks, invalid_spec, outcome, require_non_negative, require_positive, require_unit_interval, seen,
    Fault, PropulsionError,
};
use crate::float::{big, dec, given_or, pi, whole, zero, F64};
use crate::material::{ChamberMaterial, CoolingMode};
use crate::nozzle::{characteristic_velocity, exit_for, nozzle_exit, thrust_coefficient, NozzleContour, NozzleExitState};
use crate::numerics::{atan, cos, fixed, fixed_text, powf, repeatable, Numerics};
use crate::propellant::{FluidThermo, Propellant, PropellantThermo};
use crate::text::{blank, copied, is_blank, join};
use vstd::prelude::*;

verus! {

/// Authoring data of one liquid chamber and nozzle assembly.
#[derive(Debug, Clone, PartialEq)]
pub struct LiquidEngineSpec {
    pub name: String,
    pub propellant: Propellant,
    pub cycle: EngineCycle,
    /// Design chamber pressure (Pa).
    pub chamber_pressure_pa: F64,
    /// Nozzle throat radius (m).
    pub throat_radius_m: F64,
    /// Nozzle expansion ratio Ae/At.
    pub expansion_ratio: F64,
    /// Nozzle length throat-to-exit (m); sets the wall angle and mass.
    pub nozzle_length_m: F64,
    pub contour: NozzleContour,
    pub chamber_material: ChamberMaterial,
    pub cooling: CoolingMode,
    /// Oxidizer-to-fuel ratio override; `None` = pair reference.
    pub mixture_ratio: Option<F64>,
    /// Characteristic length override (m); `None` = propellant reference.
    pub characteristic_length_m: Option<F64>,
    /// Gimbal half-range (rad, 0 = fixed).
    pub gimbal_range_rad: F64,
    /// Minimum stable throttle; `None` = cycle floor.
    pub min_throttle: Option<F64>,
    /// Restartable after shutdown (ignition shots unlimited).
    pub restartable: bool,
}

/// Compiled liquid engine: design point solved, interfaces derived. Runtime
/// evaluation is a pure function of throttle and ambient pressure.
#[derive(Debug, Clone, PartialEq)]
pub struct CompiledLiquid {
    pub name: String,
    pub propellant: Propellant,
    pub cycle: EngineCycle,
    pub chamber_pressure_pa: F64,
    pub throat_area_m2: F64,
    pub throat_radius_m: F64,
    pub expansion_ratio: F64,
    pub exit_radius_m: F64,
    pub exit_area_m2: F64,
    pub nozzle_length_m: F64,
    pub divergence_factor: F64,
    pub wall_angle_rad: F64,
    pub gamma: F64,
    pub chamber_temp_k: F64,
    pub gas_constant_j_kg_k: F64,
    pub c_star_mps: F64,
    pub exit_mach: F64,
    pub exit_pressure_pa: F64,
    pub exit_temp_k: F64,
    pub exhaust_velocity_mps: F64,
    pub gg_bypass_fraction: F64,
    pub gg_thrust_sl_n: F64,
    pub gg_thrust_vac_n: F64,
    pub gg_exit_area_m2: F64,
    pub gg_isp_s: F64,
    pub full_flow_kg_s: F64,
    pub thrust_sl_n: F64,
    pub thrust_vac_n: F64,
    pub isp_sl_s: F64,
    pub isp_vac_s: F64,
    pub dry_mass_kg: F64,
    pub chamber_diameter_m: F64,
    pub chamber_length_m: F64,
    pub wall_thickness_m: F64,
    pub nozzle_mass_kg: F64,
    pub pump_power_w: F64,
    pub feed_pressure_required_pa: F64,
    pub min_throttle: F64,
    pub spool_tau_s: F64,
    pub restartable: bool,
    pub gimbal_range_rad: F64,
    pub cooling: CoolingMode,
    pub contour: NozzleContour,
    /// Aerospike base area exposed to ambient (m^2, 0 for bell and cone).
    pub aerospike_base_area_m2: F64,
    /// Nozzle wall area for thermal bookkeeping (m^2).
    pub nozzle_wall_area_m2: F64,
    /// Share of the ideal thrust that survives kinetic losses (1 for chemical chambers).
    pub kinetic_efficiency: F64,
}

/// Gas-generator duct: thrust at sea level and in vacuum, exit area, mean Isp.
#[derive(Debug, Clone, Copy, PartialEq)]
pub struct DuctDesign {
    pub thrust_sl_n: F64,
    pub thrust_vac_n: F64,
    pub exit_area_m2: F64,
    pub isp_s: F64,
}

/// [`divergence_of`] in contracts.
pub open spec fn divergence_of_spec<M: Numerics>(math: &M, contour: NozzleContour, wall_angle_rad: F64) -> F64 {
    let conical = dec(5, 1) * (whole(1) + cos(math, wall_angle_rad));
    match contour {
        NozzleContour::Conical => conical,
        NozzleContour::Bell => conical + (whole(1) - conical) * dec(5, 1),
        NozzleContour::Aerospike => dec(99, 2),
    }
}

/// Divergence factor of a contour whose wall leaves the axis at `wall_angle_rad`.
#[verifier::when_used_as_spec(divergence_of_spec)]
pub fn divergence_of<M: Numerics>(math: &M, contour: NozzleContour, wall_angle_rad: F64) -> (r: F64)
    ensures
        repeatable(math) ==> r == divergence_of(math, contour, wall_angle_rad),
{
    let conical = dec(5, 1) * (whole(1) + cos(math, wall_angle_rad));
    match contour {
        NozzleContour::Conical => conical,
        NozzleContour::Bell => conical + (whole(1) - conical) * dec(5, 1),
        NozzleContour::Aerospike => dec(99, 2),
    }
}

impl LiquidEngineSpec {
    /// [`Self::chamber_flow_kg_s`] in contracts.
    pub open spec fn chamber_flow_kg_s_spec<M: Numerics>(&self, math: &M, thermo: &PropellantThermo) -> F64 {
        let throat_area_m2 = pi() * self.throat_radius_m * self.throat_radius_m;
        self.chamber_pressure_pa * throat_area_m2 / characteristic_velocity(math, thermo)
    }

    /// Main chamber mass flow at full throttle (kg/s).
    #[verifier::when_used_as_spec(chamber_flow_kg_s_spec)]
    pub fn chamber_flow_kg_s<M: Numerics>(&self, math: &M, thermo: &PropellantThermo) -> (r: F64)
        ensures
            repeatable(math) ==> r == self.chamber_flow_kg_s(math, thermo),
    {
        let throat_area_m2 = pi() * self.throat_radius_m * self.throat_radius_m;
        self.chamber_pressure_pa * throat_area_m2 / characteristic_velocity(math, thermo)
    }

    /// [`Self::bypass_flow_kg_s`] in contracts.
    pub open spec fn bypass_flow_kg_s_spec<M: Numerics>(&self, math: &M, thermo: &PropellantThermo) -> F64 {
        self.cycle.limits().gg_bypass_fraction * self.chamber_flow_kg_s(math, thermo)
    }

    /// Gas-generator bypass flow at full throttle (kg/s).
    #[verifier::when_used_as_spec(bypass_flow_kg_s_spec)]
    pub fn bypass_flow_kg_s<M: Numerics>(&self, math: &M, thermo: &PropellantThermo) -> (r: F64)
        ensures
            repeatable(math) ==> r == self.bypass_flow_kg_s(math, thermo),
    {
        self.cycle.limits().gg_bypass_fraction * self.chamber_flow_kg_s(math, thermo)
    }

    /// [`Self::duct_thermo`] in contracts.
    pub open spec fn duct_thermo_spec(&self, thermo: &PropellantThermo) -> PropellantThermo {
        PropellantThermo {
            gamma: thermo.gamma,
            chamber_temp_k: self.cycle.limits().gg_temperature_k,
            gas_constant_j_kg_k: thermo.gas_constant_j_kg_k,
            bulk_density_kg_m3: thermo.bulk_density_kg_m3,
            characteristic_length_m: thermo.characteristic_length_m,
            reference_c_star_mps: thermo.reference_c_star_mps,
        }
    }

    /// Chamber thermo at the gas-generator duct temperature.
    #[verifier::when_used_as_spec(duct_thermo_spec)]
    pub fn duct_thermo(&self, thermo: &PropellantThermo) -> (r: PropellantThermo)
        ensures
            r == self.duct_thermo(thermo),
    {
        PropellantThermo {
            gamma: thermo.gamma,
            chamber_temp_k: self.cycle.limits().gg_temperature_k,
            gas_constant_j_kg_k: thermo.gas_constant_j_kg_k,
            bulk_density_kg_m3: thermo.bulk_density_kg_m3,
            characteristic_length_m: thermo.characteristic_length_m,
            reference_c_star_mps: thermo.reference_c_star_mps,
        }
    }

    /// [`Self::duct_design`] in contracts.
    pub open spec fn duct_design_spec<M: Numerics>(
        &self,
        math: &M,
        thermo: &PropellantThermo,
        duct_exit: &NozzleExitState,
    ) -> DuctDesign {
        let duct = self.duct_thermo(thermo);
        let flow_kg_s = self.bypass_flow_kg_s(math, thermo);
        let chamber_pa = gg_pressure_fraction() * self.chamber_pressure_pa;
        let throat_m2 = flow_kg_s * characteristic_velocity(math, &duct) / chamber_pa;
        let sl = thrust_coefficient(math, &duct, chamber_pa, duct_exit, gg_duct_expansion_ratio(), sea_level_pa(), whole(1)) * chamber_pa
            * throat_m2;
        let vac = thrust_coefficient(math, &duct, chamber_pa, duct_exit, gg_duct_expansion_ratio(), zero(), whole(1)) * chamber_pa
            * throat_m2;
        DuctDesign {
            thrust_sl_n: sl,
            thrust_vac_n: vac,
            exit_area_m2: throat_m2 * gg_duct_expansion_ratio(),
            isp_s: (sl + vac) * dec(5, 1) / (flow_kg_s * standard_gravity_mps2()),
        }
    }

    /// The gas-generator duct: the same isentropic core at duct temperature and
    /// expansion; bypass is a flow split, not a multiplier.
    #[verifier::when_used_as_spec(duct_design_spec)]
    pub fn duct_design<M: Numerics>(
        &self,
        math: &M,
        thermo: &PropellantThermo,
        duct_exit: &NozzleExitState,
    ) -> (r: DuctDesign)
        ensures
            repeatable(math) ==> r == self.duct_design(math, thermo, duct_exit),
    {
        let duct = self.duct_thermo(thermo);
        let flow_kg_s = self.bypass_flow_kg_s(math, thermo);
        let chamber_pa = gg_pressure_fraction() * self.chamber_pressure_pa;
        let throat_m2 = flow_kg_s * characteristic_velocity(math, &duct) / chamber_pa;
        let sl = thrust_coefficient(math, &duct, chamber_pa, duct_exit, gg_duct_expansion_ratio(), sea_level_pa(), whole(1)) * chamber_pa
            * throat_m2;
        let vac = thrust_coefficient(math, &duct, chamber_pa, duct_exit, gg_duct_expansion_ratio(), zero(), whole(1)) * chamber_pa
            * throat_m2;
        DuctDesign {
            thrust_sl_n: sl,
            thrust_vac_n: vac,
            exit_area_m2: throat_m2 * gg_duct_expansion_ratio(),
            isp_s: (sl + vac) * dec(5, 1) / (flow_kg_s * standard_gravity_mps2()),
        }
    }

    /// [`Self::pump_power_w`] in contracts.
    pub open spec fn pump_power_w_spec(&self, thermo: &PropellantThermo, total_flow_kg_s: F64) -> F64 {
        match self.cycle {
            EngineCycle::ElectricPump => total_flow_kg_s * (self.chamber_pressure_pa - tank_pressure_pa()).max(zero()) / (
            thermo.bulk_density_kg_m3 * pump_efficiency()),
            _ => zero(),
        }
    }

    /// Electric pump power for a total flow (W, 0 for other feeds).
    #[verifier::when_used_as_spec(pump_power_w_spec)]
    pub fn pump_power_w(&self, thermo: &PropellantThermo, total_flow_kg_s: F64) -> (r: F64)
        ensures
            r == self.pump_power_w(thermo, total_flow_kg_s),
    {
        match self.cycle {
            EngineCycle::ElectricPump => total_flow_kg_s * (self.chamber_pressure_pa - tank_pressure_pa()).max(zero()) / (
            thermo.bulk_density_kg_m3 * pump_efficiency()),
            _ => zero(),
        }
    }

    /// [`Self::design`] in contracts.
    pub open spec fn design_spec<M: Numerics>(
        &self,
        math: &M,
        thermo: &PropellantThermo,
        exit: &NozzleExitState,
        duct: &DuctDesign,
    ) -> CompiledLiquid {
        let limits = self.cycle.limits();
        let c_star = characteristic_velocity(math, thermo);
        let throat_area_m2 = pi() * self.throat_radius_m * self.throat_radius_m;
        let exit_radius_m = self.throat_radius_m * self.expansion_ratio.sqrt();
        let exit_area_m2 = throat_area_m2 * self.expansion_ratio;
        // Wall angle from real geometry; divergence from the angle.
        let wall_slope = (exit_radius_m - self.throat_radius_m) / self.nozzle_length_m;
        let wall_angle_rad = atan(math, wall_slope);
        let divergence = divergence_of(math, self.contour, wall_angle_rad);
        let chamber_flow_kg_s = self.chamber_flow_kg_s(math, thermo);
        let gg_flow_kg_s = self.bypass_flow_kg_s(math, thermo);
        let total_flow_kg_s = chamber_flow_kg_s + gg_flow_kg_s;
        let main_sl_n = thrust_coefficient(
            math,
            thermo,
            self.chamber_pressure_pa,
            exit,
            self.expansion_ratio,
            sea_level_pa(),
            divergence,
        ) * self.chamber_pressure_pa * throat_area_m2;
        let main_vac_n = thrust_coefficient(
            math,
            thermo,
            self.chamber_pressure_pa,
            exit,
            self.expansion_ratio,
            zero(),
            divergence,
        ) * self.chamber_pressure_pa * throat_area_m2;
        let thrust_sl_n = main_sl_n + duct.thrust_sl_n;
        let thrust_vac_n = main_vac_n + duct.thrust_vac_n;
        let isp_sl_s = thrust_sl_n / (total_flow_kg_s * standard_gravity_mps2());
        let isp_vac_s = thrust_vac_n / (total_flow_kg_s * standard_gravity_mps2());
        // Mass from geometry, material and fits.
        let l_star = given_or(self.characteristic_length_m, thermo.characteristic_length_m);
        let chamber_volume_m3 = l_star * throat_area_m2;
        let chamber_diameter_m = powf(
            math,
            whole(4) * chamber_volume_m3 / (pi() * chamber_length_diameter()),
            whole(1) / whole(3),
        );
        let chamber_length_m = chamber_length_diameter() * chamber_diameter_m;
        let wall_thickness_m = self.chamber_pressure_pa * chamber_diameter_m / (whole(2)
            * self.chamber_material.yield_strength_pa) * pressure_safety_factor();
        let chamber_wall_kg = pi() * chamber_diameter_m * chamber_length_m * wall_thickness_m
            * self.chamber_material.density_kg_m3;
        let injector_kg = pi() / whole(4) * chamber_diameter_m * chamber_diameter_m * dec(2, 2)
            * self.chamber_material.density_kg_m3;
        let slant_m = (self.nozzle_length_m * self.nozzle_length_m + wall_slope * wall_slope * self.nozzle_length_m
            * self.nozzle_length_m).sqrt();
        let nozzle_area_m2 = pi() * (self.throat_radius_m + exit_radius_m) * slant_m;
        let nozzle_thickness_m = wall_thickness_m * (self.throat_radius_m / chamber_diameter_m).min(whole(1))
            * self.cooling.nozzle_wall_factor();
        // Aerospike: outer cowl frustum plus the plug cone itself.
        let spike_area_m2 = match self.contour {
            NozzleContour::Aerospike => {
                let spike_base_m = dec(6, 1) * exit_radius_m;
                let spike_slant_m = (self.nozzle_length_m * self.nozzle_length_m + spike_base_m * spike_base_m).sqrt();
                pi() * spike_base_m * spike_slant_m
            },
            _ => zero(),
        };
        let cowl_area_m2 = match self.contour {
            NozzleContour::Aerospike => nozzle_area_m2 * dec(7, 1),
            _ => nozzle_area_m2,
        };
        let plain_nozzle_kg = cowl_area_m2 * nozzle_thickness_m * self.chamber_material.density_kg_m3 + spike_area_m2
            * nozzle_thickness_m * self.chamber_material.density_kg_m3;
        let nozzle_kg = match self.contour {
            NozzleContour::Bell => plain_nozzle_kg * dec(85, 2),
            _ => plain_nozzle_kg,
        };
        let turbo_kg = match self.cycle {
            EngineCycle::PressureFed | EngineCycle::ElectricPump => zero(),
            _ => total_flow_kg_s * self.chamber_pressure_pa * mass_fit_turbo_kg_per_flow_power(),
        };
        let pump_power_w = self.pump_power_w(thermo, total_flow_kg_s);
        let pump_motor_kg = match self.cycle {
            EngineCycle::ElectricPump => pump_power_w / pump_specific_power_w_per_kg(),
            _ => zero(),
        };
        let head_kg = mass_fit_head_base_kg() + mass_fit_head_kg_per_m2() * throat_area_m2;
        let mount_kg = mass_fit_mount_kg_per_n() * thrust_vac_n;
        let feed_kg = mass_fit_feed_kg_per_n() * thrust_vac_n;
        let gimbal_kg = if self.gimbal_range_rad > zero() {
            mass_fit_gimbal_base_kg() + mass_fit_gimbal_kg_per_n() * thrust_vac_n
        } else {
            zero()
        };
        let dry_mass_kg = chamber_wall_kg + injector_kg + nozzle_kg + turbo_kg + pump_motor_kg + head_kg + mount_kg + feed_kg
            + gimbal_kg;
        CompiledLiquid {
            name: copied(&self.name),
            propellant: self.propellant,
            cycle: self.cycle,
            chamber_pressure_pa: self.chamber_pressure_pa,
            throat_area_m2,
            throat_radius_m: self.throat_radius_m,
            expansion_ratio: self.expansion_ratio,
            exit_radius_m,
            exit_area_m2,
            nozzle_length_m: self.nozzle_length_m,
            divergence_factor: divergence,
            wall_angle_rad,
            gamma: thermo.gamma,
            chamber_temp_k: thermo.chamber_temp_k,
            gas_constant_j_kg_k: thermo.gas_constant_j_kg_k,
            c_star_mps: c_star,
            exit_mach: exit.exit_mach,
            exit_pressure_pa: exit.exit_pressure_ratio * self.chamber_pressure_pa,
            exit_temp_k: exit.exit_temp_k,
            exhaust_velocity_mps: exit.exhaust_velocity_mps,
            gg_bypass_fraction: limits.gg_bypass_fraction,
            gg_thrust_sl_n: duct.thrust_sl_n,
            gg_thrust_vac_n: duct.thrust_vac_n,
            gg_exit_area_m2: duct.exit_area_m2,
            gg_isp_s: duct.isp_s,
            full_flow_kg_s: total_flow_kg_s,
            thrust_sl_n,
            thrust_vac_n,
            isp_sl_s,
            isp_vac_s,
            dry_mass_kg,
            chamber_diameter_m,
            chamber_length_m,
            wall_thickness_m,
            nozzle_mass_kg: nozzle_kg,
            pump_power_w,
            feed_pressure_required_pa: self.chamber_pressure_pa * (whole(1) + injector_drop_fraction()),
            min_throttle: given_or(self.min_throttle, limits.min_throttle),
            spool_tau_s: limits.spool_tau_s,
            restartable: self.restartable,
            gimbal_range_rad: self.gimbal_range_rad,
            cooling: self.cooling,
            contour: self.contour,
            aerospike_base_area_m2: match self.contour {
                NozzleContour::Aerospike => aerospike_base_fraction() * exit_area_m2,
                _ => zero(),
            },
            nozzle_wall_area_m2: cowl_area_m2 + spike_area_m2,
            kinetic_efficiency: whole(1),
        }
    }

    /// The engine sized on chamber thermo, nozzle exit and duct.
    #[verifier::when_used_as_spec(design_spec)]
    pub fn design<M: Numerics>(
        &self,
        math: &M,
        thermo: &PropellantThermo,
        exit: &NozzleExitState,
        duct: &DuctDesign,
    ) -> (r: CompiledLiquid)
        ensures
            repeatable(math) ==> r == self.design(math, thermo, exit, duct),
    {
        let limits = self.cycle.limits();
        let c_star = characteristic_velocity(math, thermo);
        let throat_area_m2 = pi() * self.throat_radius_m * self.throat_radius_m;
        let exit_radius_m = self.throat_radius_m * self.expansion_ratio.sqrt();
        let exit_area_m2 = throat_area_m2 * self.expansion_ratio;
        // Wall angle from real geometry; divergence from the angle.
        let wall_slope = (exit_radius_m - self.throat_radius_m) / self.nozzle_length_m;
        let wall_angle_rad = atan(math, wall_slope);
        let divergence = divergence_of(math, self.contour, wall_angle_rad);
        let chamber_flow_kg_s = self.chamber_flow_kg_s(math, thermo);
        let gg_flow_kg_s = self.bypass_flow_kg_s(math, thermo);
        let total_flow_kg_s = chamber_flow_kg_s + gg_flow_kg_s;
        let main_sl_n = thrust_coefficient(
            math,
            thermo,
            self.chamber_pressure_pa,
            exit,
            self.expansion_ratio,
            sea_level_pa(),
            divergence,
        ) * self.chamber_pressure_pa * throat_area_m2;
        let main_vac_n = thrust_coefficient(
            math,
            thermo,
            self.chamber_pressure_pa,
            exit,
            self.expansion_ratio,
            zero(),
            divergence,
        ) * self.chamber_pressure_pa * throat_area_m2;
        let thrust_sl_n = main_sl_n + duct.thrust_sl_n;
        let thrust_vac_n = main_vac_n + duct.thrust_vac_n;
        let isp_sl_s = thrust_sl_n / (total_flow_kg_s * standard_gravity_mps2());
        let isp_vac_s = thrust_vac_n / (total_flow_kg_s * standard_gravity_mps2());
        // Mass from geometry, material and fits.
        let l_star = given_or(self.characteristic_length_m, thermo.characteristic_length_m);
        let chamber_volume_m3 = l_star * throat_area_m2;
        let chamber_diameter_m = powf(
            math,
            whole(4) * chamber_volume_m3 / (pi() * chamber_length_diameter()),
            whole(1) / whole(3),
        );
        let chamber_length_m = chamber_length_diameter() * chamber_diameter_m;
        let wall_thickness_m = self.chamber_pressure_pa * chamber_diameter_m / (whole(2)
            * self.chamber_material.yield_strength_pa) * pressure_safety_factor();
        let chamber_wall_kg = pi() * chamber_diameter_m * chamber_length_m * wall_thickness_m
            * self.chamber_material.density_kg_m3;
        let injector_kg = pi() / whole(4) * chamber_diameter_m * chamber_diameter_m * dec(2, 2)
            * self.chamber_material.density_kg_m3;
        let slant_m = (self.nozzle_length_m * self.nozzle_length_m + wall_slope * wall_slope * self.nozzle_length_m
            * self.nozzle_length_m).sqrt();
        let nozzle_area_m2 = pi() * (self.throat_radius_m + exit_radius_m) * slant_m;
        let nozzle_thickness_m = wall_thickness_m * (self.throat_radius_m / chamber_diameter_m).min(whole(1))
            * self.cooling.nozzle_wall_factor();
        // Aerospike: outer cowl frustum plus the plug cone itself.
        let spike_area_m2 = match self.contour {
            NozzleContour::Aerospike => {
                let spike_base_m = dec(6, 1) * exit_radius_m;
                let spike_slant_m = (self.nozzle_length_m * self.nozzle_length_m + spike_base_m * spike_base_m).sqrt();
                pi() * spike_base_m * spike_slant_m
            },
            _ => zero(),
        };
        let cowl_area_m2 = match self.contour {
            NozzleContour::Aerospike => nozzle_area_m2 * dec(7, 1),
            _ => nozzle_area_m2,
        };
        let plain_nozzle_kg = cowl_area_m2 * nozzle_thickness_m * self.chamber_material.density_kg_m3 + spike_area_m2
            * nozzle_thickness_m * self.chamber_material.density_kg_m3;
        let nozzle_kg = match self.contour {
            NozzleContour::Bell => plain_nozzle_kg * dec(85, 2),
            _ => plain_nozzle_kg,
        };
        let turbo_kg = match self.cycle {
            EngineCycle::PressureFed | EngineCycle::ElectricPump => zero(),
            _ => total_flow_kg_s * self.chamber_pressure_pa * mass_fit_turbo_kg_per_flow_power(),
        };
        let pump_power_w = self.pump_power_w(thermo, total_flow_kg_s);
        let pump_motor_kg = match self.cycle {
            EngineCycle::ElectricPump => pump_power_w / pump_specific_power_w_per_kg(),
            _ => zero(),
        };
        let head_kg = mass_fit_head_base_kg() + mass_fit_head_kg_per_m2() * throat_area_m2;
        let mount_kg = mass_fit_mount_kg_per_n() * thrust_vac_n;
        let feed_kg = mass_fit_feed_kg_per_n() * thrust_vac_n;
        let gimbal_kg = if self.gimbal_range_rad > zero() {
            mass_fit_gimbal_base_kg() + mass_fit_gimbal_kg_per_n() * thrust_vac_n
        } else {
            zero()
        };
        let dry_mass_kg = chamber_wall_kg + injector_kg + nozzle_kg + turbo_kg + pump_motor_kg + head_kg + mount_kg + feed_kg
            + gimbal_kg;
        CompiledLiquid {
            name: copied(&self.name),
            propellant: self.propellant,
            cycle: self.cycle,
            chamber_pressure_pa: self.chamber_pressure_pa,
            throat_area_m2,
            throat_radius_m: self.throat_radius_m,
            expansion_ratio: self.expansion_ratio,
            exit_radius_m,
            exit_area_m2,
            nozzle_length_m: self.nozzle_length_m,
            divergence_factor: divergence,
            wall_angle_rad,
            gamma: thermo.gamma,
            chamber_temp_k: thermo.chamber_temp_k,
            gas_constant_j_kg_k: thermo.gas_constant_j_kg_k,
            c_star_mps: c_star,
            exit_mach: exit.exit_mach,
            exit_pressure_pa: exit.exit_pressure_ratio * self.chamber_pressure_pa,
            exit_temp_k: exit.exit_temp_k,
            exhaust_velocity_mps: exit.exhaust_velocity_mps,
            gg_bypass_fraction: limits.gg_bypass_fraction,
            gg_thrust_sl_n: duct.thrust_sl_n,
            gg_thrust_vac_n: duct.thrust_vac_n,
            gg_exit_area_m2: duct.exit_area_m2,
            gg_isp_s: duct.isp_s,
            full_flow_kg_s: total_flow_kg_s,
            thrust_sl_n,
            thrust_vac_n,
            isp_sl_s,
            isp_vac_s,
            dry_mass_kg,
            chamber_diameter_m,
            chamber_length_m,
            wall_thickness_m,
            nozzle_mass_kg: nozzle_kg,
            pump_power_w,
            feed_pressure_required_pa: self.chamber_pressure_pa * (whole(1) + injector_drop_fraction()),
            min_throttle: given_or(self.min_throttle, limits.min_throttle),
            spool_tau_s: limits.spool_tau_s,
            restartable: self.restartable,
            gimbal_range_rad: self.gimbal_range_rad,
            cooling: self.cooling,
            contour: self.contour,
            aerospike_base_area_m2: match self.contour {
                NozzleContour::Aerospike => aerospike_base_fraction() * exit_area_m2,
                _ => zero(),
            },
            nozzle_wall_area_m2: cowl_area_m2 + spike_area_m2,
            kinetic_efficiency: whole(1),
        }
    }

    /// The refusal of a throttle floor below what the cycle can hold.
    pub open spec fn unstable_throttle<M: Numerics>(&self, math: &M) -> Fault {
        Fault::UnsupportedCombination(
            self.cycle.label_text() + " cannot run stably below throttle "@ + fixed_text(
                math,
                self.cycle.limits().min_throttle,
                2,
            ),
        )
    }

    /// What is wrong with the authoring values apart from the mixture.
    pub open spec fn geometry_fault<M: Numerics>(&self, math: &M) -> Option<Fault> {
        let first = checks()
            .refuse(blank(self.name@), bad_spec("engine name must not be empty"))
            .refuse(self.propellant.is_solid(), bad_spec("solid propellant needs a grain spec, not a liquid spec"))
            .refuse(self.propellant.is_cold_gas(), bad_spec("cold gas has no chamber to size"))
            .positive(self.chamber_pressure_pa, "chamber pressure")
            .positive(self.throat_radius_m, "throat radius")
            .refuse(!(self.expansion_ratio >= whole(1)), bad_spec("expansion ratio must be finite and >= 1"))
            .positive(self.nozzle_length_m, "nozzle length")
            .part(self.chamber_material.fault())
            .non_negative(self.gimbal_range_rad, "gimbal range")
            .refuse(
                self.gimbal_range_rad > dec(35, 2),
                bad_spec("gimbal range above 0.35 rad needs an explicit actuator design"),
            );
        let second = match self.min_throttle {
            None => first,
            Some(floor) => first.unit_interval(floor, "min throttle").refuse(
                floor < self.cycle.limits().min_throttle,
                self.unstable_throttle(math),
            ),
        };
        match self.characteristic_length_m {
            None => second.fault,
            Some(length) => second.positive(length, "characteristic length").fault,
        }
    }

    /// What is wrong with the authoring values, if anything.
    pub open spec fn fault<M: Numerics>(&self, math: &M) -> Option<Fault> {
        match self.geometry_fault(math) {
            Some(fault) => Some(fault),
            None => self.propellant.mixture_fault(math, self.mixture_ratio),
        }
    }

    fn check_geometry<M: Numerics>(&self, math: &M) -> (r: Result<(), PropulsionError>)
        ensures
            repeatable(math) ==> seen(r) == outcome(self.geometry_fault(math)),
            alike(seen(r), outcome(self.geometry_fault(math))),
    {
        if is_blank(self.name.as_str()) {
            return Err(invalid_spec("engine name must not be empty"));
        }
        if self.propellant.is_solid() {
            return Err(invalid_spec("solid propellant needs a grain spec, not a liquid spec"));
        }
        if self.propellant.is_cold_gas() {
            return Err(invalid_spec("cold gas has no chamber to size"));
        }
        require_positive(self.chamber_pressure_pa, "chamber pressure")?;
        require_positive(self.throat_radius_m, "throat radius")?;
        if !(self.expansion_ratio >= whole(1)) {
            return Err(invalid_spec("expansion ratio must be finite and >= 1"));
        }
        require_positive(self.nozzle_length_m, "nozzle length")?;
        self.chamber_material.validate()?;
        require_non_negative(self.gimbal_range_rad, "gimbal range")?;
        if self.gimbal_range_rad > dec(35, 2) {
            return Err(invalid_spec("gimbal range above 0.35 rad needs an explicit actuator design"));
        }
        if let Some(min_throttle) = self.min_throttle {
            require_unit_interval(min_throttle, "min throttle")?;
            if min_throttle < self.cycle.limits().min_throttle {
                let text: String = join(self.cycle.label().as_str(), " cannot run stably below throttle ");
                let floor: String = fixed(math, self.cycle.limits().min_throttle, 2);
                return Err(PropulsionError::UnsupportedCombination(join(text.as_str(), floor.as_str())));
            }
        }
        if let Some(length) = self.characteristic_length_m {
            require_positive(length, "characteristic length")?;
        }
        Ok(())
    }

    /// Validates the authoring values (NaN fails closed).
    pub fn validate<M: Numerics>(&self, math: &M) -> (r: Result<(), PropulsionError>)
        ensures
            repeatable(math) ==> seen(r) == outcome(self.fault(math)),
            alike(seen(r), outcome(self.fault(math))),
    {
        self.check_geometry(math)?;
        // Gates the mixture knob early (range refusal lives here too).
        self.propellant.check_mixture(math, self.mixture_ratio)
    }

    /// The refusal of a chamber pressure that the feed or the cooling cannot sustain.
    pub open spec fn pressure_fault<M: Numerics>(&self, math: &M) -> Option<Fault> {
        let cap = self.cycle.limits().max_chamber_pressure_pa;
        if self.chamber_pressure_pa > cap {
            Some(
                Fault::UnsupportedCombination(
                    self.cycle.label_text() + " feed cannot sustain "@ + fixed_text(math, self.chamber_pressure_pa / big(1, 6), 2)
                        + " MPa (cap "@ + fixed_text(math, cap / big(1, 6), 1) + " MPa)"@,
                ),
            )
        } else {
            match self.cooling.pressure_cap_pa() {
                Some(limit) if self.chamber_pressure_pa > limit => Some(
                    Fault::UnsupportedCombination(
                        "radiative cooling cannot reject the heat flux at "@ + fixed_text(
                            math,
                            self.chamber_pressure_pa / big(1, 6),
                            2,
                        ) + " MPa (cap "@ + fixed_text(math, limit / big(1, 6), 1) + " MPa)"@,
                    ),
                ),
                _ => None,
            }
        }
    }

    fn check_pressure<M: Numerics>(&self, math: &M) -> (r: Result<(), PropulsionError>)
        ensures
            repeatable(math) ==> seen(r) == outcome(self.pressure_fault(math)),
            alike(seen(r), outcome(self.pressure_fault(math))),
    {
        let cap: F64 = self.cycle.limits().max_chamber_pressure_pa;
        if self.chamber_pressure_pa > cap {
            let text: String = join(self.cycle.label().as_str(), " feed cannot sustain ");
            return Err(PropulsionError::UnsupportedCombination(with_megapascals(math, text, self.chamber_pressure_pa, cap)));
        }
        if let Some(limit) = self.cooling.pressure_cap_pa() {
            if self.chamber_pressure_pa > limit {
                let text: String = "radiative cooling cannot reject the heat flux at ".to_owned();
                return Err(
                    PropulsionError::UnsupportedCombination(with_megapascals(math, text, self.chamber_pressure_pa, limit)),
                );
            }
        }
        Ok(())
    }

    /// The engine sized on the given chamber thermo, or what stops it.
    pub open spec fn sized<M: Numerics>(&self, math: &M, thermo: &PropellantThermo) -> Result<CompiledLiquid, Fault> {
        match self.pressure_fault(math) {
            Some(fault) => Err(fault),
            None => match exit_for(math, thermo, self.expansion_ratio) {
                Err(fault) => Err(fault),
                Ok(exit) => if self.bypass_flow_kg_s(math, thermo) > zero() {
                    match exit_for(math, &self.duct_thermo(thermo), gg_duct_expansion_ratio()) {
                        Err(fault) => Err(fault),
                        Ok(duct_exit) => Ok(
                            self.design(math, thermo, &exit, &self.duct_design(math, thermo, &duct_exit)),
                        ),
                    }
                } else {
                    Ok(self.design(math, thermo, &exit, &no_duct()))
                },
            },
        }
    }

    fn size<M: Numerics>(&self, math: &M, thermo: &PropellantThermo) -> (r: Result<CompiledLiquid, PropulsionError>)
        ensures
            repeatable(math) ==> seen(r) == self.sized(math, thermo),
            self.pressure_fault(math) is Some ==> alike(seen(r), self.sized(math, thermo)),
            r is Err && self.pressure_fault(math) is None ==> r->Err_0 is InvalidSpec,
    {
        self.check_pressure(math)?;
        let exit: NozzleExitState = nozzle_exit(math, thermo, self.expansion_ratio)?;
        let duct: DuctDesign = if self.bypass_flow_kg_s(math, thermo) > zero() {
            let duct_exit: NozzleExitState = nozzle_exit(math, &self.duct_thermo(thermo), gg_duct_expansion_ratio())?;
            self.duct_design(math, thermo, &duct_exit)
        } else {
            no_duct()
        };
        Ok(self.design(math, thermo, &exit, &duct))
    }

    /// The compiled engine, or what stops it.
    pub open spec fn compiled<M: Numerics>(&self, math: &M, fluids: &FluidThermo) -> Result<CompiledLiquid, Fault> {
        match self.fault(math) {
            Some(fault) => Err(fault),
            None => self.sized(math, &self.propellant.mixed_thermo(fluids, self.mixture_ratio)),
        }
    }

    /// Compiles the engine: validates the topology, solves the design point,
    /// derives mass, power and thermal interfaces. A monopropellant reads its chamber
    /// thermo from `fluids`.
    pub fn compile<M: Numerics>(&self, math: &M, fluids: &FluidThermo) -> (r: Result<CompiledLiquid, PropulsionError>)
        ensures
            repeatable(math) ==> seen(r) == self.compiled(math, fluids),
            self.fault(math) is Some || self.pressure_fault(math) is Some ==> alike(
                seen(r),
                self.compiled(math, fluids),
            ),
            self.fault(math) is None && self.pressure_fault(math) is None && r is Err ==> r->Err_0 is InvalidSpec,
    {
        self.validate(math)?;
        let thermo: PropellantThermo = self.propellant.mixed_thermo(fluids, self.mixture_ratio);
        self.size(math, &thermo)
    }
}

/// [`no_duct`] in contracts.
pub open spec fn no_duct_spec() -> DuctDesign {
    DuctDesign { thrust_sl_n: zero(), thrust_vac_n: zero(), exit_area_m2: zero(), isp_s: zero() }
}

/// No gas-generator duct.
#[verifier::when_used_as_spec(no_duct_spec)]
pub fn no_duct() -> (r: DuctDesign)
    ensures
        r == no_duct(),
{
    DuctDesign { thrust_sl_n: zero(), thrust_vac_n: zero(), exit_area_m2: zero(), isp_s: zero() }
}

/// Ends a refusal with the pressure and its cap in megapascals.
pub fn with_megapascals<M: Numerics>(math: &M, text: String, pressure_pa: F64, cap_pa: F64) -> (r: String)
    ensures
        repeatable(math) ==> r@ == text@ + fixed_text(math, pressure_pa / big(1, 6), 2) + " MPa (cap "@ + fixed_text(
            math,
            cap_pa / big(1, 6),
            1,
        ) + " MPa)"@,
{
    let text: String = join(text.as_str(), fixed(math, pressure_pa / big(1, 6), 2).as_str());
    let text: String = join(text.as_str(), " MPa (cap ");
    let text: String = join(text.as_str(), fixed(math, cap_pa / big(1, 6), 1).as_str());
    join(text.as_str(), " MPa)")
}

impl CompiledLiquid {
    /// [`Self::thermo_ref`] in contracts.
    pub open spec fn thermo_ref_spec(&self) -> PropellantThermo {
        PropellantThermo {
            gamma: self.gamma,
            chamber_temp_k: self.chamber_temp_k,
            gas_constant_j_kg_k: self.gas_constant_j_kg_k,
            bulk_density_kg_m3: zero(),
            characteristic_length_m: zero(),
            reference_c_star_mps: zero(),
        }
    }

    /// Chamber thermo as compiled, for runtime evaluation.
    #[verifier::when_used_as_spec(thermo_ref_spec)]
    pub fn thermo_ref(&self) -> (r: PropellantThermo)
        ensures
            r == self.thermo_ref(),
    {
        PropellantThermo {
            gamma: self.gamma,
            chamber_temp_k: self.chamber_temp_k,
            gas_constant_j_kg_k: self.gas_constant_j_kg_k,
            bulk_density_kg_m3: zero(),
            characteristic_length_m: zero(),
            reference_c_star_mps: zero(),
        }
    }

    /// [`Self::exit_ref`] in contracts.
    pub open spec fn exit_ref_spec(&self) -> NozzleExitState {
        NozzleExitState {
            exit_mach: self.exit_mach,
            exit_pressure_ratio: self.exit_pressure_pa / self.chamber_pressure_pa,
            exit_temp_k: self.exit_temp_k,
            exhaust_velocity_mps: self.exhaust_velocity_mps,
        }
    }

    /// Nozzle exit as compiled, for runtime evaluation.
    #[verifier::when_used_as_spec(exit_ref_spec)]
    pub fn exit_ref(&self) -> (r: NozzleExitState)
        ensures
            r == self.exit_ref(),
    {
        NozzleExitState {
            exit_mach: self.exit_mach,
            exit_pressure_ratio: self.exit_pressure_pa / self.chamber_pressure_pa,
            exit_temp_k: self.exit_temp_k,
            exhaust_velocity_mps: self.exhaust_velocity_mps,
        }
    }

    /// [`Self::gg_thrust_at`] in contracts.
    pub open spec fn gg_thrust_at_spec(&self, throttle: F64, ambient_pa: F64) -> F64 {
        if self.gg_bypass_fraction <= zero() || throttle.same(zero()) {
            zero()
        } else {
            (self.gg_thrust_vac_n * throttle - ambient_pa * self.gg_exit_area_m2).max(zero())
        }
    }

    /// Gas-generator duct thrust at throttle and ambient. Exact for frozen duct
    /// geometry: the vacuum endpoint scales with chamber flow, ambient eats the
    /// fixed duct exit area.
    #[verifier::when_used_as_spec(gg_thrust_at_spec)]
    pub fn gg_thrust_at(&self, throttle: F64, ambient_pa: F64) -> (r: F64)
        ensures
            r == self.gg_thrust_at(throttle, ambient_pa),
    {
        if self.gg_bypass_fraction <= zero() || throttle.same(zero()) {
            zero()
        } else {
            (self.gg_thrust_vac_n * throttle - ambient_pa * self.gg_exit_area_m2).max(zero())
        }
    }
}

} // verus!
