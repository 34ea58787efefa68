//! The Brayton core of the air-breathing engines: ram recovery, spool-scheduled
//! compression, oxygen-gated combustion, turbine work balance, and reheat.
use crate::air::{
    afterburner_dp_fraction, air_cp_j_kg_k, air_gamma, combustor_dp_fraction, combustor_efficiency,
    compressor_poly_efficiency, customer_bleed_fraction, intake_design_capture_mach, turbine_cooling_bleed,
    turbine_mixing_dp_fraction, turbine_poly_efficiency, AirCycle, AirbreathingSpec, FlightCondition, JetFuel,
};
use crate::error::{
    bad_command, bad_spec, in_unit_interval, invalid_command, invalid_spec, seen, Fault, PropulsionError,
};
use crate::float::{big, dec, whole, zero, F64};
use crate::numerics::{fixed, fixed_text, powf, repeatable, Numerics};
use crate::text::join;
use vstd::prelude::*;

verus! {

/// Cycle state shared by compile (design point) and runtime.
#[derive(Debug, Clone, Copy, PartialEq)]
pub struct CycleState {
    pub mdot_air_kg_s: F64,
    pub mdot_core_kg_s: F64,
    pub fuel_flow_kg_s: F64,
    pub boost_fuel_flow_kg_s: F64,
    pub fuel_ab_flow_kg_s: F64,
    /// Hot flow reaching the core nozzle (customer bleed excluded).
    pub nozzle_flow_kg_s: F64,
    pub core_total_temp_k: F64,
    pub core_total_pressure_pa: F64,
    pub fan_total_temp_k: F64,
    pub fan_total_pressure_pa: F64,
    /// Compressor and fan power that the shaft must supply (W).
    pub shaft_demand_w: F64,
    pub combustor_heat_release_w: F64,
    pub core_gamma: F64,
    pub core_gas_constant_j_kg_k: F64,
    pub compressor_inlet_total_temp_k: F64,
    pub precooler_heat_flow_w: F64,
    pub precooler_wall_heat_flow_w: F64,
    /// Most that a downstream power turbine can give at this gas state (W).
    pub power_takeoff_capacity_w: F64,
    pub oxygen_limited: bool,
    pub reheat_limited: bool,
    pub drive_limited: bool,
    pub combustion_thermal_limited: bool,
    /// True when the intake cannot supply demanded flow.
    pub air_starved: bool,
    /// Scramjet fuel is inhibited at or below the sonic combustor boundary.
    pub scramjet_limited: bool,
}

/// What a precooler does to the air ahead of the compressor.
#[derive(Debug, Clone, Copy, PartialEq)]
pub struct AirCycleConditioning {
    pub compressor_inlet_total_temp_k: F64,
    pub compressor_pressure_recovery: F64,
    pub boost_fuel: JetFuel,
    pub boost_fuel_flow_kg_s: F64,
    /// Sensible heat picked up by boost fuel and returned to the combustor.
    pub coolant_heat_flow_w: F64,
    pub wall_heat_flow_w: F64,
}

/// How the core is driven: spool speed schedules pressure and flow, ignition
/// gates the fuel.
#[derive(Debug, Clone, Copy, PartialEq)]
pub struct CycleDriveInput {
    pub spool_n: F64,
    pub ignition: bool,
    /// Design corrected flow (kg/s at standard face conditions); `None` takes
    /// what the intake offers.
    pub corrected_flow_kg_s: Option<F64>,
    pub power_takeoff_w: F64,
    pub power_takeoff_heat_fraction: F64,
    pub conditioning: Option<AirCycleConditioning>,
}

/// The air that the intake delivers.
#[derive(Debug, Clone, Copy, PartialEq)]
pub struct Inlet {
    pub spool_n: F64,
    pub t_ram: F64,
    pub p_ram: F64,
    pub compressor_temp_k: F64,
    pub pressure_recovery: F64,
    pub mdot_air_kg_s: F64,
    pub mdot_core_kg_s: F64,
    pub bypass: F64,
    pub oxygen_starved: bool,
    pub air_starved: bool,
}

/// The air behind compressor and fan, and what compressing it takes.
#[derive(Debug, Clone, Copy, PartialEq)]
pub struct Compression {
    pub t_comp_exit: F64,
    pub p_comp_exit: F64,
    pub t_fan_exit: F64,
    pub p_fan_exit: F64,
    /// Specific works per kilogram of core flow (J/kg).
    pub work_comp: F64,
    pub work_fan: F64,
}

/// The gas behind the combustor.
#[derive(Debug, Clone, Copy, PartialEq)]
pub struct Combustion {
    /// Turbine cooling bleed as a fraction of core flow.
    pub bleed: F64,
    pub o2_mass_fraction: F64,
    pub o2_avail_kg_s: F64,
    /// Fuel-air ratio that the turbine temperature asks for.
    pub f_for_tit: F64,
    pub coolant_heat_flow_w: F64,
    pub wall_heat_flow_w: F64,
    pub fuel_air: F64,
    pub fuel_flow_kg_s: F64,
    pub boost_fuel_flow_kg_s: F64,
    pub oxygen_limited: bool,
    pub turbine_temp_k: F64,
    pub heat_release_w: F64,
    pub gamma: F64,
    pub gas_constant_j_kg_k: F64,
    pub cp: F64,
}

/// The gas behind the turbine.
#[derive(Debug, Clone, Copy, PartialEq)]
pub struct TurbineExit {
    pub rotor_flow_ratio: F64,
    pub t_turb_exit: F64,
    pub p_turb_exit: F64,
    pub hot_flow_kg_s: F64,
    pub takeoff_capacity_w: F64,
}

/// The gas behind the afterburner duct.
#[derive(Debug, Clone, Copy, PartialEq)]
pub struct Reheat {
    pub fuel_ab_flow_kg_s: F64,
    pub t_nozzle: F64,
    pub p_nozzle: F64,
    pub reheat_limited: bool,
}

/// [`ram_temp_k`] in contracts.
pub open spec fn ram_temp_k_spec(condition: &FlightCondition) -> F64 {
    condition.ambient_temp_k * (whole(1) + (air_gamma() - whole(1)) / whole(2) * condition.mach * condition.mach)
}

/// Ram total temperature (K).
#[verifier::when_used_as_spec(ram_temp_k_spec)]
pub fn ram_temp_k(condition: &FlightCondition) -> (r: F64)
    ensures
        r == ram_temp_k(condition),
{
    condition.ambient_temp_k * (whole(1) + (air_gamma() - whole(1)) / whole(2) * condition.mach * condition.mach)
}

/// [`cycle_inlet`] in contracts.
pub open spec fn cycle_inlet_spec<M: Numerics>(
    math: &M,
    spec: &AirbreathingSpec,
    condition: &FlightCondition,
    drive: &CycleDriveInput,
) -> Inlet {
    let gamma_a = air_gamma();
    let is_passive = spec.cycle.is_passive();
    let spool_n = drive.spool_n.clamp_unit();
    let t_ram = ram_temp_k(condition);
    let p_ram = condition.ambient_pa * powf(
        math,
        t_ram / condition.ambient_temp_k,
        gamma_a / (gamma_a - whole(1)),
    ) * spec.intake.recovery(math, condition.mach);
    let compressor_temp_k = match drive.conditioning {
        Some(input) => input.compressor_inlet_total_temp_k,
        None => t_ram,
    };
    let pressure_recovery = match drive.conditioning {
        Some(input) => input.compressor_pressure_recovery,
        None => whole(1),
    };
    let sound = (gamma_a * whole(287) * condition.ambient_temp_k).sqrt();
    let rho_0 = condition.ambient_pa / (whole(287) * condition.ambient_temp_k);
    let suction = if is_passive {
        zero()
    } else {
        intake_design_capture_mach() * sound * spool_n
    };
    let available_kg_s = rho_0 * spec.intake_area_m2 * condition.airspeed_mps.max(suction);
    let flow_factor = if is_passive {
        whole(1)
    } else {
        dec(35, 2) + dec(65, 2) * spool_n
    };
    let demanded_kg_s = match drive.corrected_flow_kg_s {
        Some(wc) => wc * (p_ram / whole(101_325)) / (t_ram / dec(28_815, 2)).sqrt() * flow_factor,
        None => available_kg_s * flow_factor,
    };
    let mdot_air_kg_s = demanded_kg_s.min(available_kg_s);
    let bypass = match spec.cycle {
        AirCycle::Turbofan => spec.bypass_ratio,
        _ => zero(),
    };
    Inlet {
        spool_n,
        t_ram,
        p_ram,
        compressor_temp_k,
        pressure_recovery,
        mdot_air_kg_s,
        mdot_core_kg_s: mdot_air_kg_s / (whole(1) + bypass),
        bypass,
        oxygen_starved: demanded_kg_s > available_kg_s && available_kg_s <= zero(),
        air_starved: demanded_kg_s > available_kg_s + dec(1, 9),
    }
}

/// The intake: ram capture, plus a suction floor for turbomachinery scaled by
/// actual spool speed, since a stopped compressor inhales nothing; demand follows
/// the corrected flow.
#[verifier::when_used_as_spec(cycle_inlet_spec)]
pub fn cycle_inlet<M: Numerics>(
    math: &M,
    spec: &AirbreathingSpec,
    condition: &FlightCondition,
    drive: &CycleDriveInput,
) -> (r: Inlet)
    ensures
        repeatable(math) ==> r == cycle_inlet(math, spec, condition, drive),
{
    let gamma_a = air_gamma();
    let is_passive = spec.cycle.is_passive();
    let spool_n = drive.spool_n.clamp_unit();
    let t_ram = ram_temp_k(condition);
    let p_ram = condition.ambient_pa * powf(
        math,
        t_ram / condition.ambient_temp_k,
        gamma_a / (gamma_a - whole(1)),
    ) * spec.intake.recovery(math, condition.mach);
    let compressor_temp_k = match drive.conditioning {
        Some(input) => input.compressor_inlet_total_temp_k,
        None => t_ram,
    };
    let pressure_recovery = match drive.conditioning {
        Some(input) => input.compressor_pressure_recovery,
        None => whole(1),
    };
    let sound = (gamma_a * whole(287) * condition.ambient_temp_k).sqrt();
    let rho_0 = condition.ambient_pa / (whole(287) * condition.ambient_temp_k);
    let suction = if is_passive {
        zero()
    } else {
        intake_design_capture_mach() * sound * spool_n
    };
    let available_kg_s = rho_0 * spec.intake_area_m2 * condition.airspeed_mps.max(suction);
    let flow_factor = if is_passive {
        whole(1)
    } else {
        dec(35, 2) + dec(65, 2) * spool_n
    };
    let demanded_kg_s = match drive.corrected_flow_kg_s {
        Some(wc) => wc * (p_ram / whole(101_325)) / (t_ram / dec(28_815, 2)).sqrt() * flow_factor,
        None => available_kg_s * flow_factor,
    };
    let mdot_air_kg_s = demanded_kg_s.min(available_kg_s);
    let bypass = match spec.cycle {
        AirCycle::Turbofan => spec.bypass_ratio,
        _ => zero(),
    };
    Inlet {
        spool_n,
        t_ram,
        p_ram,
        compressor_temp_k,
        pressure_recovery,
        mdot_air_kg_s,
        mdot_core_kg_s: mdot_air_kg_s / (whole(1) + bypass),
        bypass,
        oxygen_starved: demanded_kg_s > available_kg_s && available_kg_s <= zero(),
        air_starved: demanded_kg_s > available_kg_s + dec(1, 9),
    }
}

/// [`cycle_compression`] in contracts.
pub open spec fn cycle_compression_spec<M: Numerics>(math: &M, spec: &AirbreathingSpec, inlet: &Inlet) -> Compression {
    let exponent = (air_gamma() - whole(1)) / (air_gamma() * compressor_poly_efficiency());
    let pi_c = match spec.cycle {
        AirCycle::Ramjet | AirCycle::Scramjet => whole(1),
        _ => whole(1) + (spec.compressor_ratio - whole(1)) * inlet.spool_n * inlet.spool_n,
    };
    let t_comp_exit = inlet.compressor_temp_k * powf(math, pi_c, exponent);
    let pi_f = if inlet.bypass > zero() {
        whole(1) + (spec.fan_pressure_ratio - whole(1)) * inlet.spool_n * inlet.spool_n
    } else {
        whole(1)
    };
    let t_fan_exit = inlet.t_ram * powf(math, pi_f, exponent);
    Compression {
        t_comp_exit,
        p_comp_exit: inlet.p_ram * inlet.pressure_recovery * pi_c,
        t_fan_exit,
        p_fan_exit: inlet.p_ram * pi_f * dec(98, 2),
        work_comp: air_cp_j_kg_k() * (t_comp_exit - inlet.compressor_temp_k),
        work_fan: if inlet.bypass > zero() {
            inlet.bypass * air_cp_j_kg_k() * (t_fan_exit - inlet.t_ram)
        } else {
            zero()
        },
    }
}

/// Compressor and fan: the pressure ratio follows the square of spool speed, so
/// without rotation there is no pressure rise. Passive cycles compress by ram only.
#[verifier::when_used_as_spec(cycle_compression_spec)]
pub fn cycle_compression<M: Numerics>(math: &M, spec: &AirbreathingSpec, inlet: &Inlet) -> (r: Compression)
    ensures
        repeatable(math) ==> r == cycle_compression(math, spec, inlet),
{
    let exponent = (air_gamma() - whole(1)) / (air_gamma() * compressor_poly_efficiency());
    let pi_c = match spec.cycle {
        AirCycle::Ramjet | AirCycle::Scramjet => whole(1),
        _ => whole(1) + (spec.compressor_ratio - whole(1)) * inlet.spool_n * inlet.spool_n,
    };
    let t_comp_exit = inlet.compressor_temp_k * powf(math, pi_c, exponent);
    let pi_f = if inlet.bypass > zero() {
        whole(1) + (spec.fan_pressure_ratio - whole(1)) * inlet.spool_n * inlet.spool_n
    } else {
        whole(1)
    };
    let t_fan_exit = inlet.t_ram * powf(math, pi_f, exponent);
    Compression {
        t_comp_exit,
        p_comp_exit: inlet.p_ram * inlet.pressure_recovery * pi_c,
        t_fan_exit,
        p_fan_exit: inlet.p_ram * pi_f * dec(98, 2),
        work_comp: air_cp_j_kg_k() * (t_comp_exit - inlet.compressor_temp_k),
        work_fan: if inlet.bypass > zero() {
            inlet.bypass * air_cp_j_kg_k() * (t_fan_exit - inlet.t_ram)
        } else {
            zero()
        },
    }
}

/// [`cycle_combustion`] in contracts.
pub open spec fn cycle_combustion_spec(
    spec: &AirbreathingSpec,
    fuel: (F64, F64, F64, F64, F64, F64),
    condition: &FlightCondition,
    turbine_temp_k: F64,
    drive: &CycleDriveInput,
    inlet: &Inlet,
    compression: &Compression,
) -> Combustion {
    let (lhv, _, o2_per_fuel, gamma_b, r_b, _) = fuel;
    let cp_b = gamma_b * r_b / (gamma_b - whole(1));
    let scramjet_limited = scramjet_blocked(spec, condition);
    let burns = drive.ignition && !scramjet_limited;
    let bleed = match spec.cycle {
        AirCycle::Ramjet | AirCycle::Scramjet => zero(),
        _ => turbine_cooling_bleed(),
    };
    let o2_mass_fraction = condition.composition.oxygen_mass_fraction;
    let o2_avail_kg_s = inlet.mdot_core_kg_s * (whole(1) - bleed - customer_bleed_fraction()) * o2_mass_fraction;
    let combustor_air_kg_s = inlet.mdot_core_kg_s * (whole(1) - bleed - customer_bleed_fraction());
    let f_for_tit = air_cp_j_kg_k() * (turbine_temp_k - compression.t_comp_exit) / (combustor_efficiency() * lhv);
    let (boost_requested_kg_s, coolant_requested_w, wall_heat_flow_w, boost) = match drive.conditioning {
        Some(input) => if burns {
            (input.boost_fuel_flow_kg_s, input.coolant_heat_flow_w, input.wall_heat_flow_w, input.boost_fuel.properties())
        } else {
            (zero(), zero(), zero(), input.boost_fuel.properties())
        },
        None => (zero(), zero(), zero(), fuel),
    };
    if drive.conditioning.is_some() && boost_requested_kg_s > zero() {
        let requested_heat_w = (air_cp_j_kg_k() * (turbine_temp_k - compression.t_comp_exit) * inlet.mdot_core_kg_s
            - coolant_requested_w).max(zero()) / combustor_efficiency();
        let bulk_wanted_kg_s = (requested_heat_w - boost_requested_kg_s * boost.0).max(zero()) / lhv;
        let requested_oxygen_kg_s = bulk_wanted_kg_s * o2_per_fuel + boost_requested_kg_s * boost.2;
        let oxygen_scale = if requested_oxygen_kg_s > zero() {
            (o2_avail_kg_s / requested_oxygen_kg_s).clamp_unit()
        } else {
            whole(1)
        };
        // Boost fuel is both coolant and fuel: when oxygen scales its flow, the
        // heat it can carry back scales with it.
        let coolant_heat_flow_w = coolant_requested_w * oxygen_scale;
        let bulk_flow = bulk_wanted_kg_s * oxygen_scale;
        let boost_flow = boost_requested_kg_s * oxygen_scale;
        let total_fuel_flow = bulk_flow + boost_flow;
        let heat_release_w = combustor_efficiency() * (bulk_flow * lhv + boost_flow * boost.0) + coolant_heat_flow_w;
        let boost_cp = boost.3 * boost.4 / (boost.3 - whole(1));
        let mixed_cp = if total_fuel_flow > zero() {
            (bulk_flow * cp_b + boost_flow * boost_cp) / total_fuel_flow
        } else {
            cp_b
        };
        let mixed_r = if total_fuel_flow > zero() {
            (bulk_flow * r_b + boost_flow * boost.4) / total_fuel_flow
        } else {
            r_b
        };
        Combustion {
            bleed,
            o2_mass_fraction,
            o2_avail_kg_s,
            f_for_tit,
            coolant_heat_flow_w,
            wall_heat_flow_w,
            fuel_air: if combustor_air_kg_s > zero() {
                total_fuel_flow / combustor_air_kg_s
            } else {
                zero()
            },
            fuel_flow_kg_s: bulk_flow,
            boost_fuel_flow_kg_s: boost_flow,
            oxygen_limited: requested_oxygen_kg_s > o2_avail_kg_s,
            turbine_temp_k: compression.t_comp_exit + heat_release_w / (air_cp_j_kg_k() * inlet.mdot_core_kg_s.max(dec(1, 12))),
            heat_release_w,
            gamma: mixed_cp / (mixed_cp - mixed_r),
            gas_constant_j_kg_k: mixed_r,
            cp: mixed_cp,
        }
    } else {
        let f_o2_cap = if combustor_air_kg_s > zero() {
            o2_avail_kg_s / (combustor_air_kg_s * o2_per_fuel)
        } else {
            zero()
        };
        let fuel_air = if burns {
            f_for_tit.max(zero()).min(f_o2_cap)
        } else {
            zero()
        };
        let fuel_flow_kg_s = fuel_air * inlet.mdot_core_kg_s * (whole(1) - bleed - customer_bleed_fraction());
        Combustion {
            bleed,
            o2_mass_fraction,
            o2_avail_kg_s,
            f_for_tit,
            coolant_heat_flow_w: coolant_requested_w,
            wall_heat_flow_w,
            fuel_air,
            fuel_flow_kg_s,
            boost_fuel_flow_kg_s: zero(),
            oxygen_limited: f_for_tit > f_o2_cap && f_for_tit > zero(),
            turbine_temp_k: compression.t_comp_exit + fuel_air * combustor_efficiency() * lhv / air_cp_j_kg_k(),
            heat_release_w: fuel_flow_kg_s * combustor_efficiency() * lhv,
            gamma: gamma_b,
            gas_constant_j_kg_k: r_b,
            cp: cp_b,
        }
    }
}

/// Combustion gated by oxygen: fuel is capped by what the air offers, and the
/// turbine temperature follows the energy. Boost fuel that cooled the inlet air
/// returns its heat here, as far as the oxygen lets it burn.
#[verifier::when_used_as_spec(cycle_combustion_spec)]
pub fn cycle_combustion(
    spec: &AirbreathingSpec,
    fuel: (F64, F64, F64, F64, F64, F64),
    condition: &FlightCondition,
    turbine_temp_k: F64,
    drive: &CycleDriveInput,
    inlet: &Inlet,
    compression: &Compression,
) -> (r: Combustion)
    ensures
        r == cycle_combustion(spec, fuel, condition, turbine_temp_k, drive, inlet, compression),
{
    let (lhv, _, o2_per_fuel, gamma_b, r_b, _) = fuel;
    let cp_b = gamma_b * r_b / (gamma_b - whole(1));
    let scramjet_limited = scramjet_blocked(spec, condition);
    let burns = drive.ignition && !scramjet_limited;
    let bleed = match spec.cycle {
        AirCycle::Ramjet | AirCycle::Scramjet => zero(),
        _ => turbine_cooling_bleed(),
    };
    let o2_mass_fraction = condition.composition.oxygen_mass_fraction;
    let o2_avail_kg_s = inlet.mdot_core_kg_s * (whole(1) - bleed - customer_bleed_fraction()) * o2_mass_fraction;
    let combustor_air_kg_s = inlet.mdot_core_kg_s * (whole(1) - bleed - customer_bleed_fraction());
    let f_for_tit = air_cp_j_kg_k() * (turbine_temp_k - compression.t_comp_exit) / (combustor_efficiency() * lhv);
    let (boost_requested_kg_s, coolant_requested_w, wall_heat_flow_w, boost) = match drive.conditioning {
        Some(input) => if burns {
            (input.boost_fuel_flow_kg_s, input.coolant_heat_flow_w, input.wall_heat_flow_w, input.boost_fuel.properties())
        } else {
            (zero(), zero(), zero(), input.boost_fuel.properties())
        },
        None => (zero(), zero(), zero(), fuel),
    };
    if drive.conditioning.is_some() && boost_requested_kg_s > zero() {
        let requested_heat_w = (air_cp_j_kg_k() * (turbine_temp_k - compression.t_comp_exit) * inlet.mdot_core_kg_s
            - coolant_requested_w).max(zero()) / combustor_efficiency();
        let bulk_wanted_kg_s = (requested_heat_w - boost_requested_kg_s * boost.0).max(zero()) / lhv;
        let requested_oxygen_kg_s = bulk_wanted_kg_s * o2_per_fuel + boost_requested_kg_s * boost.2;
        let oxygen_scale = if requested_oxygen_kg_s > zero() {
            (o2_avail_kg_s / requested_oxygen_kg_s).clamp_unit()
        } else {
            whole(1)
        };
        // Boost fuel is both coolant and fuel: when oxygen scales its flow, the
        // heat it can carry back scales with it.
        let coolant_heat_flow_w = coolant_requested_w * oxygen_scale;
        let bulk_flow = bulk_wanted_kg_s * oxygen_scale;
        let boost_flow = boost_requested_kg_s * oxygen_scale;
        let total_fuel_flow = bulk_flow + boost_flow;
        let heat_release_w = combustor_efficiency() * (bulk_flow * lhv + boost_flow * boost.0) + coolant_heat_flow_w;
        let boost_cp = boost.3 * boost.4 / (boost.3 - whole(1));
        let mixed_cp = if total_fuel_flow > zero() {
            (bulk_flow * cp_b + boost_flow * boost_cp) / total_fuel_flow
        } else {
            cp_b
        };
        let mixed_r = if total_fuel_flow > zero() {
            (bulk_flow * r_b + boost_flow * boost.4) / total_fuel_flow
        } else {
            r_b
        };
        Combustion {
            bleed,
            o2_mass_fraction,
            o2_avail_kg_s,
            f_for_tit,
            coolant_heat_flow_w,
            wall_heat_flow_w,
            fuel_air: if combustor_air_kg_s > zero() {
                total_fuel_flow / combustor_air_kg_s
            } else {
                zero()
            },
            fuel_flow_kg_s: bulk_flow,
            boost_fuel_flow_kg_s: boost_flow,
            oxygen_limited: requested_oxygen_kg_s > o2_avail_kg_s,
            turbine_temp_k: compression.t_comp_exit + heat_release_w / (air_cp_j_kg_k() * inlet.mdot_core_kg_s.max(dec(1, 12))),
            heat_release_w,
            gamma: mixed_cp / (mixed_cp - mixed_r),
            gas_constant_j_kg_k: mixed_r,
            cp: mixed_cp,
        }
    } else {
        let f_o2_cap = if combustor_air_kg_s > zero() {
            o2_avail_kg_s / (combustor_air_kg_s * o2_per_fuel)
        } else {
            zero()
        };
        let fuel_air = if burns {
            f_for_tit.max(zero()).min(f_o2_cap)
        } else {
            zero()
        };
        let fuel_flow_kg_s = fuel_air * inlet.mdot_core_kg_s * (whole(1) - bleed - customer_bleed_fraction());
        Combustion {
            bleed,
            o2_mass_fraction,
            o2_avail_kg_s,
            f_for_tit,
            coolant_heat_flow_w: coolant_requested_w,
            wall_heat_flow_w,
            fuel_air,
            fuel_flow_kg_s,
            boost_fuel_flow_kg_s: zero(),
            oxygen_limited: f_for_tit > f_o2_cap && f_for_tit > zero(),
            turbine_temp_k: compression.t_comp_exit + fuel_air * combustor_efficiency() * lhv / air_cp_j_kg_k(),
            heat_release_w: fuel_flow_kg_s * combustor_efficiency() * lhv,
            gamma: gamma_b,
            gas_constant_j_kg_k: r_b,
            cp: cp_b,
        }
    }
}

/// [`scramjet_blocked`] in contracts.
pub open spec fn scramjet_blocked_spec(spec: &AirbreathingSpec, condition: &FlightCondition) -> bool {
    match spec.cycle {
        AirCycle::Scramjet => condition.mach <= whole(1),
        _ => false,
    }
}

/// Whether a scramjet is at or below the sonic combustor boundary.
#[verifier::when_used_as_spec(scramjet_blocked_spec)]
pub fn scramjet_blocked(spec: &AirbreathingSpec, condition: &FlightCondition) -> (r: bool)
    ensures
        r == scramjet_blocked(spec, condition),
{
    match spec.cycle {
        AirCycle::Scramjet => condition.mach <= whole(1),
        _ => false,
    }
}

/// [`rotor_ratio`] in contracts.
pub open spec fn rotor_ratio_spec(combustion: &Combustion) -> F64 {
    (whole(1) - combustion.bleed - customer_bleed_fraction()) * (whole(1) + combustion.fuel_air)
}

/// Rotor flow as a ratio to core flow.
#[verifier::when_used_as_spec(rotor_ratio_spec)]
pub fn rotor_ratio(combustion: &Combustion) -> (r: F64)
    ensures
        r == rotor_ratio(combustion),
{
    (whole(1) - combustion.bleed - customer_bleed_fraction()) * (whole(1) + combustion.fuel_air)
}

/// [`rotor_drop_k`] in contracts.
pub open spec fn rotor_drop_k_spec(compression: &Compression, combustion: &Combustion) -> F64 {
    (compression.work_comp + compression.work_fan) / (combustion.cp * rotor_ratio(combustion))
}

/// Temperature drop that compression work takes from the rotor (K).
#[verifier::when_used_as_spec(rotor_drop_k_spec)]
pub fn rotor_drop_k(compression: &Compression, combustion: &Combustion) -> (r: F64)
    ensures
        r == rotor_drop_k(compression, combustion),
{
    (compression.work_comp + compression.work_fan) / (combustion.cp * rotor_ratio(combustion))
}

/// [`cycle_turbine`] in contracts.
pub open spec fn cycle_turbine_spec<M: Numerics>(
    math: &M,
    condition: &FlightCondition,
    drive: &CycleDriveInput,
    inlet: &Inlet,
    compression: &Compression,
    combustion: &Combustion,
) -> TurbineExit {
    let p_comb = compression.p_comp_exit * (whole(1) - combustor_dp_fraction());
    let rotor_flow_ratio = rotor_ratio(combustion);
    let delta_t_rotor = rotor_drop_k(compression, combustion);
    let t_rotor_exit = combustion.turbine_temp_k - delta_t_rotor;
    let p_rotor_exit = p_comb * powf(
        math,
        (whole(1) - delta_t_rotor / (combustion.turbine_temp_k * turbine_poly_efficiency())).max(dec(1, 2)),
        combustion.gamma / (combustion.gamma - whole(1)),
    );
    let bleed_flow_ratio = combustion.bleed / rotor_flow_ratio.max(dec(1, 12));
    let t_turb_exit = t_rotor_exit * (whole(1) - bleed_flow_ratio) + compression.t_comp_exit * bleed_flow_ratio;
    let mixing_loss = if combustion.bleed > zero() {
        turbine_mixing_dp_fraction()
    } else {
        zero()
    };
    let hot_flow_kg_s = inlet.mdot_core_kg_s * (rotor_flow_ratio + combustion.bleed) + combustion.fuel_flow_kg_s
        + combustion.boost_fuel_flow_kg_s;
    let configured_takeoff_w = drive.power_takeoff_heat_fraction * combustion.heat_release_w;
    let max_power_turbine_delta_t = (t_turb_exit - condition.ambient_temp_k).max(zero()).min(
        t_turb_exit * turbine_poly_efficiency() * (whole(1) - dec(1, 12)),
    );
    let thermal_takeoff_w = (hot_flow_kg_s * combustion.cp * turbine_poly_efficiency() * max_power_turbine_delta_t).max(
        zero(),
    );
    TurbineExit {
        rotor_flow_ratio,
        t_turb_exit,
        p_turb_exit: p_rotor_exit * (whole(1) - mixing_loss),
        hot_flow_kg_s,
        takeoff_capacity_w: configured_takeoff_w.min(thermal_takeoff_w),
    }
}

/// The turbine: the rotor sees combustor flow only; cooling bleed bypasses it and
/// mixes downstream at rotor-exit pressure with a loss, customer bleed leaves
/// overboard.
#[verifier::when_used_as_spec(cycle_turbine_spec)]
pub fn cycle_turbine<M: Numerics>(
    math: &M,
    condition: &FlightCondition,
    drive: &CycleDriveInput,
    inlet: &Inlet,
    compression: &Compression,
    combustion: &Combustion,
) -> (r: TurbineExit)
    ensures
        repeatable(math) ==> r == cycle_turbine(math, condition, drive, inlet, compression, combustion),
{
    let p_comb = compression.p_comp_exit * (whole(1) - combustor_dp_fraction());
    let rotor_flow_ratio = rotor_ratio(combustion);
    let delta_t_rotor = rotor_drop_k(compression, combustion);
    let t_rotor_exit = combustion.turbine_temp_k - delta_t_rotor;
    let p_rotor_exit = p_comb * powf(
        math,
        (whole(1) - delta_t_rotor / (combustion.turbine_temp_k * turbine_poly_efficiency())).max(dec(1, 2)),
        combustion.gamma / (combustion.gamma - whole(1)),
    );
    let bleed_flow_ratio = combustion.bleed / rotor_flow_ratio.max(dec(1, 12));
    let t_turb_exit = t_rotor_exit * (whole(1) - bleed_flow_ratio) + compression.t_comp_exit * bleed_flow_ratio;
    let mixing_loss = if combustion.bleed > zero() {
        turbine_mixing_dp_fraction()
    } else {
        zero()
    };
    let hot_flow_kg_s = inlet.mdot_core_kg_s * (rotor_flow_ratio + combustion.bleed) + combustion.fuel_flow_kg_s
        + combustion.boost_fuel_flow_kg_s;
    let configured_takeoff_w = drive.power_takeoff_heat_fraction * combustion.heat_release_w;
    let max_power_turbine_delta_t = (t_turb_exit - condition.ambient_temp_k).max(zero()).min(
        t_turb_exit * turbine_poly_efficiency() * (whole(1) - dec(1, 12)),
    );
    let thermal_takeoff_w = (hot_flow_kg_s * combustion.cp * turbine_poly_efficiency() * max_power_turbine_delta_t).max(
        zero(),
    );
    TurbineExit {
        rotor_flow_ratio,
        t_turb_exit,
        p_turb_exit: p_rotor_exit * (whole(1) - mixing_loss),
        hot_flow_kg_s,
        takeoff_capacity_w: configured_takeoff_w.min(thermal_takeoff_w),
    }
}

/// [`takeoff_drop_k`] in contracts.
pub open spec fn takeoff_drop_k_spec(drive: &CycleDriveInput, combustion: &Combustion, turbine: &TurbineExit) -> F64 {
    drive.power_takeoff_w / (turbine.hot_flow_kg_s * combustion.cp * turbine_poly_efficiency())
}

/// Temperature drop that a power-turbine load takes from the hot flow (K).
#[verifier::when_used_as_spec(takeoff_drop_k_spec)]
pub fn takeoff_drop_k(drive: &CycleDriveInput, combustion: &Combustion, turbine: &TurbineExit) -> (r: F64)
    ensures
        r == takeoff_drop_k(drive, combustion, turbine),
{
    drive.power_takeoff_w / (turbine.hot_flow_kg_s * combustion.cp * turbine_poly_efficiency())
}

/// [`takeoff_pressure_factor`] in contracts.
pub open spec fn takeoff_pressure_factor_spec(
    drive: &CycleDriveInput,
    combustion: &Combustion,
    turbine: &TurbineExit,
) -> F64 {
    whole(1) - takeoff_drop_k(drive, combustion, turbine) / (turbine.t_turb_exit * turbine_poly_efficiency())
}

/// What is left of the turbine-exit pressure after a power-turbine load.
#[verifier::when_used_as_spec(takeoff_pressure_factor_spec)]
pub fn takeoff_pressure_factor(drive: &CycleDriveInput, combustion: &Combustion, turbine: &TurbineExit) -> (r: F64)
    ensures
        r == takeoff_pressure_factor(drive, combustion, turbine),
{
    whole(1) - takeoff_drop_k(drive, combustion, turbine) / (turbine.t_turb_exit * turbine_poly_efficiency())
}

/// [`after_takeoff`] in contracts.
pub open spec fn after_takeoff_spec<M: Numerics>(
    math: &M,
    drive: &CycleDriveInput,
    combustion: &Combustion,
    turbine: &TurbineExit,
) -> TurbineExit {
    if drive.power_takeoff_w > zero() {
        TurbineExit {
            rotor_flow_ratio: turbine.rotor_flow_ratio,
            t_turb_exit: turbine.t_turb_exit - takeoff_drop_k(drive, combustion, turbine),
            p_turb_exit: turbine.p_turb_exit * powf(
                math,
                takeoff_pressure_factor(drive, combustion, turbine),
                combustion.gamma / (combustion.gamma - whole(1)),
            ),
            hot_flow_kg_s: turbine.hot_flow_kg_s,
            takeoff_capacity_w: turbine.takeoff_capacity_w,
        }
    } else {
        *turbine
    }
}

/// The turbine exit after a power-turbine load.
#[verifier::when_used_as_spec(after_takeoff_spec)]
pub fn after_takeoff<M: Numerics>(
    math: &M,
    drive: &CycleDriveInput,
    combustion: &Combustion,
    turbine: &TurbineExit,
) -> (r: TurbineExit)
    ensures
        repeatable(math) ==> r == after_takeoff(math, drive, combustion, turbine),
{
    if drive.power_takeoff_w > zero() {
        TurbineExit {
            rotor_flow_ratio: turbine.rotor_flow_ratio,
            t_turb_exit: turbine.t_turb_exit - takeoff_drop_k(drive, combustion, turbine),
            p_turb_exit: turbine.p_turb_exit * powf(
                math,
                takeoff_pressure_factor(drive, combustion, turbine),
                combustion.gamma / (combustion.gamma - whole(1)),
            ),
            hot_flow_kg_s: turbine.hot_flow_kg_s,
            takeoff_capacity_w: turbine.takeoff_capacity_w,
        }
    } else {
        *turbine
    }
}

/// [`cycle_reheat`] in contracts.
pub open spec fn cycle_reheat_spec(
    spec: &AirbreathingSpec,
    fuel: (F64, F64, F64, F64, F64, F64),
    drive: &CycleDriveInput,
    inlet: &Inlet,
    combustion: &Combustion,
    turbine: &TurbineExit,
) -> Reheat {
    let (lhv, _, o2_per_fuel, gamma_b, r_b, _) = fuel;
    let cp_b = gamma_b * r_b / (gamma_b - whole(1));
    if spec.afterburner && inlet.mdot_core_kg_s > zero() {
        let boost_o2_per_fuel = match drive.conditioning {
            Some(input) => input.boost_fuel.properties().2,
            None => zero(),
        };
        let o2_used_core_kg_s = combustion.fuel_flow_kg_s * o2_per_fuel + combustion.boost_fuel_flow_kg_s
            * boost_o2_per_fuel;
        let o2_cooling_kg_s = inlet.mdot_core_kg_s * combustion.bleed * combustion.o2_mass_fraction;
        let o2_for_ab_kg_s = (combustion.o2_avail_kg_s - o2_used_core_kg_s + o2_cooling_kg_s).max(zero());
        let ab_stream_kg_s = inlet.mdot_core_kg_s * (turbine.rotor_flow_ratio + combustion.bleed)
            + combustion.fuel_flow_kg_s + combustion.boost_fuel_flow_kg_s;
        let f_ab_want = cp_b * (spec.reheat_temp_k - turbine.t_turb_exit).max(zero()) / (combustor_efficiency() * lhv);
        let f_ab_cap = if ab_stream_kg_s > zero() {
            o2_for_ab_kg_s / (ab_stream_kg_s * o2_per_fuel)
        } else {
            zero()
        };
        let f_ab = f_ab_want.min(f_ab_cap);
        Reheat {
            fuel_ab_flow_kg_s: f_ab * ab_stream_kg_s,
            t_nozzle: turbine.t_turb_exit + f_ab * combustor_efficiency() * lhv / cp_b,
            p_nozzle: turbine.p_turb_exit * (whole(1) - afterburner_dp_fraction()),
            reheat_limited: f_ab_want > f_ab_cap && f_ab_want > zero(),
        }
    } else {
        Reheat {
            fuel_ab_flow_kg_s: zero(),
            t_nozzle: turbine.t_turb_exit,
            p_nozzle: turbine.p_turb_exit,
            reheat_limited: false,
        }
    }
}

/// The afterburner with its oxygen budget: combustor air arrives with its oxygen
/// less what the core burned, cooling bleed rejoins with its own.
#[verifier::when_used_as_spec(cycle_reheat_spec)]
pub fn cycle_reheat(
    spec: &AirbreathingSpec,
    fuel: (F64, F64, F64, F64, F64, F64),
    drive: &CycleDriveInput,
    inlet: &Inlet,
    combustion: &Combustion,
    turbine: &TurbineExit,
) -> (r: Reheat)
    ensures
        r == cycle_reheat(spec, fuel, drive, inlet, combustion, turbine),
{
    let (lhv, _, o2_per_fuel, gamma_b, r_b, _) = fuel;
    let cp_b = gamma_b * r_b / (gamma_b - whole(1));
    if spec.afterburner && inlet.mdot_core_kg_s > zero() {
        let boost_o2_per_fuel = match drive.conditioning {
            Some(input) => input.boost_fuel.properties().2,
            None => zero(),
        };
        let o2_used_core_kg_s = combustion.fuel_flow_kg_s * o2_per_fuel + combustion.boost_fuel_flow_kg_s
            * boost_o2_per_fuel;
        let o2_cooling_kg_s = inlet.mdot_core_kg_s * combustion.bleed * combustion.o2_mass_fraction;
        let o2_for_ab_kg_s = (combustion.o2_avail_kg_s - o2_used_core_kg_s + o2_cooling_kg_s).max(zero());
        let ab_stream_kg_s = inlet.mdot_core_kg_s * (turbine.rotor_flow_ratio + combustion.bleed)
            + combustion.fuel_flow_kg_s + combustion.boost_fuel_flow_kg_s;
        let f_ab_want = cp_b * (spec.reheat_temp_k - turbine.t_turb_exit).max(zero()) / (combustor_efficiency() * lhv);
        let f_ab_cap = if ab_stream_kg_s > zero() {
            o2_for_ab_kg_s / (ab_stream_kg_s * o2_per_fuel)
        } else {
            zero()
        };
        let f_ab = f_ab_want.min(f_ab_cap);
        Reheat {
            fuel_ab_flow_kg_s: f_ab * ab_stream_kg_s,
            t_nozzle: turbine.t_turb_exit + f_ab * combustor_efficiency() * lhv / cp_b,
            p_nozzle: turbine.p_turb_exit * (whole(1) - afterburner_dp_fraction()),
            reheat_limited: f_ab_want > f_ab_cap && f_ab_want > zero(),
        }
    } else {
        Reheat {
            fuel_ab_flow_kg_s: zero(),
            t_nozzle: turbine.t_turb_exit,
            p_nozzle: turbine.p_turb_exit,
            reheat_limited: false,
        }
    }
}

/// [`flameout`] in contracts.
pub open spec fn flameout_spec(
    spec: &AirbreathingSpec,
    condition: &FlightCondition,
    inlet: &Inlet,
    compression: &Compression,
    combustion: &Combustion,
    drive_limited: bool,
    combustion_thermal_limited: bool,
) -> CycleState {
    CycleState {
        mdot_air_kg_s: inlet.mdot_air_kg_s,
        mdot_core_kg_s: inlet.mdot_core_kg_s,
        fuel_flow_kg_s: zero(),
        boost_fuel_flow_kg_s: zero(),
        fuel_ab_flow_kg_s: zero(),
        nozzle_flow_kg_s: inlet.mdot_core_kg_s,
        core_total_temp_k: inlet.t_ram,
        core_total_pressure_pa: inlet.p_ram,
        fan_total_temp_k: compression.t_fan_exit,
        fan_total_pressure_pa: compression.p_fan_exit,
        shaft_demand_w: inlet.mdot_core_kg_s * (compression.work_comp + compression.work_fan),
        combustor_heat_release_w: zero(),
        core_gamma: combustion.gamma,
        core_gas_constant_j_kg_k: combustion.gas_constant_j_kg_k,
        compressor_inlet_total_temp_k: inlet.compressor_temp_k,
        precooler_heat_flow_w: combustion.coolant_heat_flow_w + combustion.wall_heat_flow_w,
        precooler_wall_heat_flow_w: combustion.wall_heat_flow_w,
        power_takeoff_capacity_w: zero(),
        oxygen_limited: combustion.oxygen_limited || inlet.oxygen_starved,
        reheat_limited: false,
        drive_limited,
        combustion_thermal_limited,
        air_starved: inlet.air_starved,
        scramjet_limited: scramjet_blocked(spec, condition),
    }
}

/// A core that does not run: the air passes at ram conditions.
#[verifier::when_used_as_spec(flameout_spec)]
pub fn flameout(
    spec: &AirbreathingSpec,
    condition: &FlightCondition,
    inlet: &Inlet,
    compression: &Compression,
    combustion: &Combustion,
    drive_limited: bool,
    combustion_thermal_limited: bool,
) -> (r: CycleState)
    ensures
        r == flameout(spec, condition, inlet, compression, combustion, drive_limited, combustion_thermal_limited),
{
    CycleState {
        mdot_air_kg_s: inlet.mdot_air_kg_s,
        mdot_core_kg_s: inlet.mdot_core_kg_s,
        fuel_flow_kg_s: zero(),
        boost_fuel_flow_kg_s: zero(),
        fuel_ab_flow_kg_s: zero(),
        nozzle_flow_kg_s: inlet.mdot_core_kg_s,
        core_total_temp_k: inlet.t_ram,
        core_total_pressure_pa: inlet.p_ram,
        fan_total_temp_k: compression.t_fan_exit,
        fan_total_pressure_pa: compression.p_fan_exit,
        shaft_demand_w: inlet.mdot_core_kg_s * (compression.work_comp + compression.work_fan),
        combustor_heat_release_w: zero(),
        core_gamma: combustion.gamma,
        core_gas_constant_j_kg_k: combustion.gas_constant_j_kg_k,
        compressor_inlet_total_temp_k: inlet.compressor_temp_k,
        precooler_heat_flow_w: combustion.coolant_heat_flow_w + combustion.wall_heat_flow_w,
        precooler_wall_heat_flow_w: combustion.wall_heat_flow_w,
        power_takeoff_capacity_w: zero(),
        oxygen_limited: combustion.oxygen_limited || inlet.oxygen_starved,
        reheat_limited: false,
        drive_limited,
        combustion_thermal_limited,
        air_starved: inlet.air_starved,
        scramjet_limited: scramjet_blocked(spec, condition),
    }
}

/// [`running_state`] in contracts.
pub open spec fn running_state_spec(
    spec: &AirbreathingSpec,
    condition: &FlightCondition,
    inlet: &Inlet,
    compression: &Compression,
    combustion: &Combustion,
    turbine: &TurbineExit,
    reheat: &Reheat,
) -> CycleState {
    CycleState {
        mdot_air_kg_s: inlet.mdot_air_kg_s,
        mdot_core_kg_s: inlet.mdot_core_kg_s,
        fuel_flow_kg_s: combustion.fuel_flow_kg_s,
        boost_fuel_flow_kg_s: combustion.boost_fuel_flow_kg_s,
        fuel_ab_flow_kg_s: reheat.fuel_ab_flow_kg_s,
        nozzle_flow_kg_s: inlet.mdot_core_kg_s * (turbine.rotor_flow_ratio + combustion.bleed) + combustion.fuel_flow_kg_s
            + combustion.boost_fuel_flow_kg_s + reheat.fuel_ab_flow_kg_s,
        core_total_temp_k: reheat.t_nozzle,
        core_total_pressure_pa: reheat.p_nozzle,
        fan_total_temp_k: compression.t_fan_exit,
        fan_total_pressure_pa: compression.p_fan_exit,
        shaft_demand_w: inlet.mdot_core_kg_s * (compression.work_comp + compression.work_fan),
        combustor_heat_release_w: combustion.heat_release_w,
        core_gamma: combustion.gamma,
        core_gas_constant_j_kg_k: combustion.gas_constant_j_kg_k,
        compressor_inlet_total_temp_k: inlet.compressor_temp_k,
        precooler_heat_flow_w: combustion.coolant_heat_flow_w + combustion.wall_heat_flow_w,
        precooler_wall_heat_flow_w: combustion.wall_heat_flow_w,
        power_takeoff_capacity_w: turbine.takeoff_capacity_w,
        oxygen_limited: combustion.oxygen_limited || inlet.oxygen_starved,
        reheat_limited: reheat.reheat_limited,
        drive_limited: false,
        combustion_thermal_limited: false,
        air_starved: inlet.air_starved,
        scramjet_limited: scramjet_blocked(spec, condition),
    }
}

/// A running core.
#[verifier::when_used_as_spec(running_state_spec)]
pub fn running_state(
    spec: &AirbreathingSpec,
    condition: &FlightCondition,
    inlet: &Inlet,
    compression: &Compression,
    combustion: &Combustion,
    turbine: &TurbineExit,
    reheat: &Reheat,
) -> (r: CycleState)
    ensures
        r == running_state(spec, condition, inlet, compression, combustion, turbine, reheat),
{
    CycleState {
        mdot_air_kg_s: inlet.mdot_air_kg_s,
        mdot_core_kg_s: inlet.mdot_core_kg_s,
        fuel_flow_kg_s: combustion.fuel_flow_kg_s,
        boost_fuel_flow_kg_s: combustion.boost_fuel_flow_kg_s,
        fuel_ab_flow_kg_s: reheat.fuel_ab_flow_kg_s,
        nozzle_flow_kg_s: inlet.mdot_core_kg_s * (turbine.rotor_flow_ratio + combustion.bleed) + combustion.fuel_flow_kg_s
            + combustion.boost_fuel_flow_kg_s + reheat.fuel_ab_flow_kg_s,
        core_total_temp_k: reheat.t_nozzle,
        core_total_pressure_pa: reheat.p_nozzle,
        fan_total_temp_k: compression.t_fan_exit,
        fan_total_pressure_pa: compression.p_fan_exit,
        shaft_demand_w: inlet.mdot_core_kg_s * (compression.work_comp + compression.work_fan),
        combustor_heat_release_w: combustion.heat_release_w,
        core_gamma: combustion.gamma,
        core_gas_constant_j_kg_k: combustion.gas_constant_j_kg_k,
        compressor_inlet_total_temp_k: inlet.compressor_temp_k,
        precooler_heat_flow_w: combustion.coolant_heat_flow_w + combustion.wall_heat_flow_w,
        precooler_wall_heat_flow_w: combustion.wall_heat_flow_w,
        power_takeoff_capacity_w: turbine.takeoff_capacity_w,
        oxygen_limited: combustion.oxygen_limited || inlet.oxygen_starved,
        reheat_limited: reheat.reheat_limited,
        drive_limited: false,
        combustion_thermal_limited: false,
        air_starved: inlet.air_starved,
        scramjet_limited: scramjet_blocked(spec, condition),
    }
}

/// What is wrong with a power-turbine load before the core is run.
pub open spec fn load_fault(drive: &CycleDriveInput) -> Option<Fault> {
    if !drive.power_takeoff_w.is_finite() || drive.power_takeoff_w < zero() {
        Some(bad_command("power-turbine load must be finite and >= 0"))
    } else if !in_unit_interval(drive.power_takeoff_heat_fraction) {
        Some(bad_spec("power-turbine heat fraction must be finite in [0, 1]"))
    } else if drive.power_takeoff_w > zero() && (!drive.ignition || drive.power_takeoff_heat_fraction.same(zero())) {
        Some(bad_command("power-turbine load requires a lit core and nonzero authored takeoff capacity"))
    } else {
        None
    }
}

/// [`conditioning_invalid`] in contracts.
pub open spec fn conditioning_invalid_spec(inlet: &Inlet) -> bool {
    !inlet.compressor_temp_k.is_finite() || inlet.compressor_temp_k <= zero() || inlet.compressor_temp_k > inlet.t_ram
        + dec(1, 9) || !in_unit_interval(inlet.pressure_recovery)
}

/// Whether the conditioned air is not what a precooler can deliver.
#[verifier::when_used_as_spec(conditioning_invalid_spec)]
pub fn conditioning_invalid(inlet: &Inlet) -> (r: bool)
    ensures
        r == conditioning_invalid(inlet),
{
    !inlet.compressor_temp_k.is_finite() || inlet.compressor_temp_k <= zero() || inlet.compressor_temp_k > inlet.t_ram
        + dec(1, 9) || !in_unit_interval(inlet.pressure_recovery)
}

/// [`overloaded`] in contracts.
pub open spec fn overloaded_spec(drive: &CycleDriveInput, turbine: &TurbineExit) -> bool {
    drive.power_takeoff_w > turbine.takeoff_capacity_w + dec(1, 9) * turbine.takeoff_capacity_w.max(whole(1))
}

/// Whether a load is beyond what the gas state can give.
#[verifier::when_used_as_spec(overloaded_spec)]
pub fn overloaded(drive: &CycleDriveInput, turbine: &TurbineExit) -> (r: bool)
    ensures
        r == overloaded(drive, turbine),
{
    drive.power_takeoff_w > turbine.takeoff_capacity_w + dec(1, 9) * turbine.takeoff_capacity_w.max(whole(1))
}

/// The core at a condition, turbine temperature and drive, or what stops it.
pub open spec fn cycle_state<M: Numerics>(
    math: &M,
    spec: &AirbreathingSpec,
    fuel: (F64, F64, F64, F64, F64, F64),
    condition: &FlightCondition,
    turbine_temp_k: F64,
    drive: &CycleDriveInput,
) -> Result<CycleState, Fault> {
    let inlet = cycle_inlet(math, spec, condition, drive);
    let compression = cycle_compression(math, spec, &inlet);
    let combustion = cycle_combustion(spec, fuel, condition, turbine_temp_k, drive, &inlet, &compression);
    let turbine = cycle_turbine(math, condition, drive, &inlet, &compression, &combustion);
    let factor = takeoff_pressure_factor(drive, &combustion, &turbine);
    match load_fault(drive) {
        Some(fault) => Err(fault),
        None => if conditioning_invalid(&inlet) {
            Err(bad_command("pre-cooler outlet temperature and pressure recovery are invalid"))
        } else if combustion.fuel_air <= zero() && inlet.mdot_core_kg_s > zero() {
            // No fuel, no cycle: anoxic air, ignition off, or compressor delivery
            // hotter than the temperature schedule allows.
            if drive.power_takeoff_w > zero() {
                Err(bad_command("power-turbine load requires positive combustor fuel flow"))
            } else {
                Ok(
                    flameout(
                        spec,
                        condition,
                        &inlet,
                        &compression,
                        &combustion,
                        spec.cycle.has_shaft() && combustion.f_for_tit <= zero(),
                        combustion.f_for_tit <= zero(),
                    ),
                )
            }
        } else if rotor_drop_k(&compression, &combustion) >= combustion.turbine_temp_k * dec(95, 2) && inlet.mdot_core_kg_s
            > zero() {
            // The turbine must supply compression work with margin.
            if drive.power_takeoff_w > zero() {
                Err(bad_command("power-turbine load unavailable while the core turbine is drive-limited"))
            } else {
                Ok(flameout(spec, condition, &inlet, &compression, &combustion, true, false))
            }
        } else if overloaded(drive, &turbine) {
            Err(overload_fault(math, drive.power_takeoff_w, turbine.takeoff_capacity_w))
        } else if drive.power_takeoff_w > zero() && (!(factor > zero()) || !factor.is_finite()) {
            Err(bad_command("power-turbine extraction leaves no physical core-nozzle state"))
        } else {
            let loaded = after_takeoff(math, drive, &combustion, &turbine);
            let reheat = cycle_reheat(spec, fuel, drive, &inlet, &combustion, &loaded);
            Ok(running_state(spec, condition, &inlet, &compression, &combustion, &loaded, &reheat))
        },
    }
}

/// The refusal of a load beyond what the gas state can give.
pub open spec fn overload_fault<M: Numerics>(math: &M, load_w: F64, capacity_w: F64) -> Fault {
    Fault::InvalidCommand(
        "power-turbine load "@ + fixed_text(math, load_w / big(1, 6), 3) + " MW exceeds available "@ + fixed_text(
            math,
            capacity_w / big(1, 6),
            3,
        ) + " MW"@,
    )
}

fn overload_error<M: Numerics>(math: &M, load_w: F64, capacity_w: F64) -> (r: PropulsionError)
    ensures
        repeatable(math) ==> r@ == overload_fault(math, load_w, capacity_w),
{
    let text: String = join("power-turbine load ", fixed(math, load_w / big(1, 6), 3).as_str());
    let text: String = join(text.as_str(), " MW exceeds available ");
    let text: String = join(text.as_str(), fixed(math, capacity_w / big(1, 6), 3).as_str());
    PropulsionError::InvalidCommand(join(text.as_str(), " MW"))
}

/// Runs the Brayton core at a condition, turbine temperature and drive. Work
/// extracted by a downstream power turbine lowers the total temperature and
/// pressure of the core nozzle.
pub fn run_cycle<M: Numerics>(
    math: &M,
    spec: &AirbreathingSpec,
    fuel: (F64, F64, F64, F64, F64, F64),
    condition: &FlightCondition,
    turbine_temp_k: F64,
    drive: &CycleDriveInput,
) -> (r: Result<CycleState, PropulsionError>)
    ensures
        repeatable(math) ==> seen(r) == cycle_state(math, spec, fuel, condition, turbine_temp_k, drive),
        load_fault(drive) is Some ==> seen(r) == Err::<CycleState, Fault>(load_fault(drive)->0),
{
    if !drive.power_takeoff_w.is_finite() || drive.power_takeoff_w < zero() {
        return Err(invalid_command("power-turbine load must be finite and >= 0"));
    }
    if !in_unit_interval(drive.power_takeoff_heat_fraction) {
        return Err(invalid_spec("power-turbine heat fraction must be finite in [0, 1]"));
    }
    if drive.power_takeoff_w > zero() && (!drive.ignition || drive.power_takeoff_heat_fraction.same(zero())) {
        return Err(invalid_command("power-turbine load requires a lit core and nonzero authored takeoff capacity"));
    }
    let inlet: Inlet = cycle_inlet(math, spec, condition, drive);
    if conditioning_invalid(&inlet) {
        return Err(invalid_command("pre-cooler outlet temperature and pressure recovery are invalid"));
    }
    let compression: Compression = cycle_compression(math, spec, &inlet);
    let combustion: Combustion = cycle_combustion(spec, fuel, condition, turbine_temp_k, drive, &inlet, &compression);
    if combustion.fuel_air <= zero() && inlet.mdot_core_kg_s > zero() {
        if drive.power_takeoff_w > zero() {
            return Err(invalid_command("power-turbine load requires positive combustor fuel flow"));
        }
        let thermal: bool = combustion.f_for_tit <= zero();
        return Ok(
            flameout(spec, condition, &inlet, &compression, &combustion, spec.cycle.has_shaft() && thermal, thermal),
        );
    }
    if rotor_drop_k(&compression, &combustion) >= combustion.turbine_temp_k * dec(95, 2) && inlet.mdot_core_kg_s > zero() {
        if drive.power_takeoff_w > zero() {
            return Err(invalid_command("power-turbine load unavailable while the core turbine is drive-limited"));
        }
        return Ok(flameout(spec, condition, &inlet, &compression, &combustion, true, false));
    }
    let turbine: TurbineExit = cycle_turbine(math, condition, drive, &inlet, &compression, &combustion);
    if overloaded(drive, &turbine) {
        return Err(overload_error(math, drive.power_takeoff_w, turbine.takeoff_capacity_w));
    }
    if drive.power_takeoff_w > zero() {
        let factor: F64 = takeoff_pressure_factor(drive, &combustion, &turbine);
        if !(factor > zero()) || !factor.is_finite() {
            return Err(invalid_command("power-turbine extraction leaves no physical core-nozzle state"));
        }
    }
    let loaded: TurbineExit = after_takeoff(math, drive, &combustion, &turbine);
    let reheat: Reheat = cycle_reheat(spec, fuel, drive, &inlet, &combustion, &loaded);
    Ok(running_state(spec, condition, &inlet, &compression, &combustion, &loaded, &reheat))
}

} // verus!
