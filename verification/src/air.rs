//! Air-breathing jet engines: turbojet, turbofan, ramjet, and scramjet from one
//! Brayton-cycle core.
//!
//! Authoring is intake area and recovery, compression and bypass ratios, turbine
//! temperature, fuel and afterburner. The model computes installed performance
//! with component efficiencies and named loss channels.
use crate::atmosphere::{AtmosphereComposition, AtmosphereSample, SampledAltitude};
use crate::constants::{separation_pressure_ratio, standard_gravity_mps2};
use crate::cycle_core::{cycle_state, run_cycle, AirCycleConditioning, CycleDriveInput, CycleState};
use crate::error::{
    bad_command, bad_spec, checks, in_unit_interval, invalid_command, invalid_spec, outcome, require_non_negative,
    require_positive, seen, unsupported, unsupported_combination, Fault, PropulsionError,
};
use crate::float::{big, dec, whole, zero, F64};
use crate::material::ChamberMaterial;
use crate::nozzle::{mach_from_area_ratio, pressure_ratio_at, solved_mach};
use crate::numerics::{fixed, fixed_text, powf, powi, repeatable, Numerics};
use crate::propellant::Propellant;
use crate::shaft::{ShaftBalance, ShaftSpec};
use crate::spool::approach;
use crate::text::{blank, copied, is_blank, join};
use vstd::prelude::*;

verus! {

/// [`air_cp_j_kg_k`] in contracts.
pub open spec fn air_cp_j_kg_k_spec() -> F64 {
    whole(1005)
}

/// Air specific heat (J/kg/K).
#[verifier::when_used_as_spec(air_cp_j_kg_k_spec)]
pub fn air_cp_j_kg_k() -> (r: F64)
    ensures
        r == air_cp_j_kg_k(),
{
    whole(1005)
}

/// [`air_gamma`] in contracts.
pub open spec fn air_gamma_spec() -> F64 {
    dec(14, 1)
}

/// Ratio of specific heats of air.
#[verifier::when_used_as_spec(air_gamma_spec)]
pub fn air_gamma() -> (r: F64)
    ensures
        r == air_gamma(),
{
    dec(14, 1)
}

/// [`intake_recovery_subsonic`] in contracts.
pub open spec fn intake_recovery_subsonic_spec() -> F64 {
    dec(97, 2)
}

/// Subsonic intake recovery.
#[verifier::when_used_as_spec(intake_recovery_subsonic_spec)]
pub fn intake_recovery_subsonic() -> (r: F64)
    ensures
        r == intake_recovery_subsonic(),
{
    dec(97, 2)
}

/// [`compressor_poly_efficiency`] in contracts.
pub open spec fn compressor_poly_efficiency_spec() -> F64 {
    dec(88, 2)
}

/// Compressor polytropic efficiency.
#[verifier::when_used_as_spec(compressor_poly_efficiency_spec)]
pub fn compressor_poly_efficiency() -> (r: F64)
    ensures
        r == compressor_poly_efficiency(),
{
    dec(88, 2)
}

/// [`turbine_poly_efficiency`] in contracts.
pub open spec fn turbine_poly_efficiency_spec() -> F64 {
    dec(90, 2)
}

/// Turbine polytropic efficiency.
#[verifier::when_used_as_spec(turbine_poly_efficiency_spec)]
pub fn turbine_poly_efficiency() -> (r: F64)
    ensures
        r == turbine_poly_efficiency(),
{
    dec(90, 2)
}

/// [`combustor_efficiency`] in contracts.
pub open spec fn combustor_efficiency_spec() -> F64 {
    dec(95, 2)
}

/// Combustor efficiency.
#[verifier::when_used_as_spec(combustor_efficiency_spec)]
pub fn combustor_efficiency() -> (r: F64)
    ensures
        r == combustor_efficiency(),
{
    dec(95, 2)
}

/// [`combustor_dp_fraction`] in contracts.
pub open spec fn combustor_dp_fraction_spec() -> F64 {
    dec(4, 2)
}

/// Combustor total-pressure loss fraction.
#[verifier::when_used_as_spec(combustor_dp_fraction_spec)]
pub fn combustor_dp_fraction() -> (r: F64)
    ensures
        r == combustor_dp_fraction(),
{
    dec(4, 2)
}

/// [`turbine_mixing_dp_fraction`] in contracts.
pub open spec fn turbine_mixing_dp_fraction_spec() -> F64 {
    dec(3, 2)
}

/// Turbine-exit mixing pressure loss from cold-bleed rejoin.
#[verifier::when_used_as_spec(turbine_mixing_dp_fraction_spec)]
pub fn turbine_mixing_dp_fraction() -> (r: F64)
    ensures
        r == turbine_mixing_dp_fraction(),
{
    dec(3, 2)
}

/// [`customer_bleed_fraction`] in contracts.
pub open spec fn customer_bleed_fraction_spec() -> F64 {
    dec(3, 2)
}

/// Customer bleed as a fraction of core flow: it leaves overboard, books ram drag
/// but no gross thrust.
#[verifier::when_used_as_spec(customer_bleed_fraction_spec)]
pub fn customer_bleed_fraction() -> (r: F64)
    ensures
        r == customer_bleed_fraction(),
{
    dec(3, 2)
}

/// [`afterburner_dp_fraction`] in contracts.
pub open spec fn afterburner_dp_fraction_spec() -> F64 {
    dec(3, 2)
}

/// Afterburner total-pressure loss fraction.
#[verifier::when_used_as_spec(afterburner_dp_fraction_spec)]
pub fn afterburner_dp_fraction() -> (r: F64)
    ensures
        r == afterburner_dp_fraction(),
{
    dec(3, 2)
}

/// [`turbine_cooling_bleed`] in contracts.
pub open spec fn turbine_cooling_bleed_spec() -> F64 {
    dec(10, 2)
}

/// Turbine cooling bleed as a fraction of core flow.
#[verifier::when_used_as_spec(turbine_cooling_bleed_spec)]
pub fn turbine_cooling_bleed() -> (r: F64)
    ensures
        r == turbine_cooling_bleed(),
{
    dec(10, 2)
}

/// [`turbine_cooling_allowance`] in contracts.
pub open spec fn turbine_cooling_allowance_spec() -> F64 {
    dec(125, 2)
}

/// Cooled-blade turbine temperature allowance over wall temperature.
#[verifier::when_used_as_spec(turbine_cooling_allowance_spec)]
pub fn turbine_cooling_allowance() -> (r: F64)
    ensures
        r == turbine_cooling_allowance(),
{
    dec(125, 2)
}

/// [`nozzle_gross_efficiency`] in contracts.
pub open spec fn nozzle_gross_efficiency_spec() -> F64 {
    dec(95, 2)
}

/// Gross-thrust nozzle and installation efficiency.
#[verifier::when_used_as_spec(nozzle_gross_efficiency_spec)]
pub fn nozzle_gross_efficiency() -> (r: F64)
    ensures
        r == nozzle_gross_efficiency(),
{
    dec(95, 2)
}

/// [`intake_design_capture_mach`] in contracts.
pub open spec fn intake_design_capture_mach_spec() -> F64 {
    dec(5, 1)
}

/// Design capture Mach for intake suction at zero vehicle speed. The floor scales
/// with actual spool speed, and passive cycles get none.
#[verifier::when_used_as_spec(intake_design_capture_mach_spec)]
pub fn intake_design_capture_mach() -> (r: F64)
    ensures
        r == intake_design_capture_mach(),
{
    dec(5, 1)
}

/// [`reheat_temp_cap_k`] in contracts.
pub open spec fn reheat_temp_cap_k_spec() -> F64 {
    whole(2200)
}

/// Afterburner duct temperature cap (K).
#[verifier::when_used_as_spec(reheat_temp_cap_k_spec)]
pub fn reheat_temp_cap_k() -> (r: F64)
    ensures
        r == reheat_temp_cap_k(),
{
    whole(2200)
}

/// [`mass_fit_compressor`] in contracts.
pub open spec fn mass_fit_compressor_spec() -> F64 {
    dec(42, 2)
}

/// Compressor mass fit (kg per (kg/s * ratio)).
#[verifier::when_used_as_spec(mass_fit_compressor_spec)]
pub fn mass_fit_compressor() -> (r: F64)
    ensures
        r == mass_fit_compressor(),
{
    dec(42, 2)
}

/// [`mass_fit_turbine`] in contracts.
pub open spec fn mass_fit_turbine_spec() -> F64 {
    dec(30, 2)
}

/// Turbine mass fit (kg per (kg/s * ratio)).
#[verifier::when_used_as_spec(mass_fit_turbine_spec)]
pub fn mass_fit_turbine() -> (r: F64)
    ensures
        r == mass_fit_turbine(),
{
    dec(30, 2)
}

/// [`mass_fit_combustor`] in contracts.
pub open spec fn mass_fit_combustor_spec() -> F64 {
    dec(75, 1)
}

/// Combustor mass fit (kg per (kg/s)^0.7).
#[verifier::when_used_as_spec(mass_fit_combustor_spec)]
pub fn mass_fit_combustor() -> (r: F64)
    ensures
        r == mass_fit_combustor(),
{
    dec(75, 1)
}

/// [`mass_fit_intake`] in contracts.
pub open spec fn mass_fit_intake_spec() -> F64 {
    whole(300)
}

/// Intake mass fit (kg per m^2 capture area).
#[verifier::when_used_as_spec(mass_fit_intake_spec)]
pub fn mass_fit_intake() -> (r: F64)
    ensures
        r == mass_fit_intake(),
{
    whole(300)
}

/// [`mass_fit_nozzle`] in contracts.
pub open spec fn mass_fit_nozzle_spec() -> F64 {
    whole(150)
}

/// Nozzle mass fit (kg per m^2 exit area).
#[verifier::when_used_as_spec(mass_fit_nozzle_spec)]
pub fn mass_fit_nozzle() -> (r: F64)
    ensures
        r == mass_fit_nozzle(),
{
    whole(150)
}

/// [`mass_fit_afterburner`] in contracts.
pub open spec fn mass_fit_afterburner_spec() -> F64 {
    whole(80)
}

/// Afterburner duct mass fit (kg per m^2).
#[verifier::when_used_as_spec(mass_fit_afterburner_spec)]
pub fn mass_fit_afterburner() -> (r: F64)
    ensures
        r == mass_fit_afterburner(),
{
    whole(80)
}

/// [`mass_fit_fan`] in contracts.
pub open spec fn mass_fit_fan_spec() -> F64 {
    whole(200)
}

/// Fan mass fit (kg per m^2 fan area).
#[verifier::when_used_as_spec(mass_fit_fan_spec)]
pub fn mass_fit_fan() -> (r: F64)
    ensures
        r == mass_fit_fan(),
{
    whole(200)
}

/// [`sea_level_temp_k`] in contracts.
pub open spec fn sea_level_temp_k_spec() -> F64 {
    dec(28_815, 2)
}

/// Sea-level standard temperature (K).
#[verifier::when_used_as_spec(sea_level_temp_k_spec)]
pub fn sea_level_temp_k() -> (r: F64)
    ensures
        r == sea_level_temp_k(),
{
    dec(28_815, 2)
}

/// Jet fuel with lower heating value and burned-gas properties.
#[derive(Debug, Clone, Copy, PartialEq, Eq, Hash, Structural)]
pub enum JetFuel {
    Kerosene,
    Methane,
    Hydrogen,
}

impl JetFuel {
    /// [`Self::properties`] in contracts.
    pub open spec fn properties_spec(self) -> (F64, F64, F64, F64, F64, F64) {
        match self {
            JetFuel::Kerosene => (big(431, 5), dec(680, 4), dec(341, 2), dec(133, 2), whole(292), whole(810)),
            JetFuel::Methane => (big(50, 6), dec(581, 4), dec(399, 2), dec(132, 2), whole(310), whole(422)),
            JetFuel::Hydrogen => (big(120, 6), dec(294, 4), whole(8), dec(130, 2), whole(500), whole(71)),
        }
    }

    /// (LHV J/kg, stoichiometric fuel/air, O2/fuel mass, burned gamma, burned R
    /// J/kg/K, liquid density kg/m^3).
    #[verifier::when_used_as_spec(properties_spec)]
    pub fn properties(self) -> (r: (F64, F64, F64, F64, F64, F64))
        ensures
            r == self.properties(),
    {
        match self {
            JetFuel::Kerosene => (big(431, 5), dec(680, 4), dec(341, 2), dec(133, 2), whole(292), whole(810)),
            JetFuel::Methane => (big(50, 6), dec(581, 4), dec(399, 2), dec(132, 2), whole(310), whole(422)),
            JetFuel::Hydrogen => (big(120, 6), dec(294, 4), whole(8), dec(130, 2), whole(500), whole(71)),
        }
    }

    /// [`Self::exhaust_propellant`] in contracts.
    pub open spec fn exhaust_propellant_spec(self) -> Propellant {
        match self {
            JetFuel::Kerosene => Propellant::LoxRp1,
            JetFuel::Methane => Propellant::LoxMethane,
            JetFuel::Hydrogen => Propellant::LoxHydrogen,
        }
    }

    /// Exhaust family label for the plume handoff.
    #[verifier::when_used_as_spec(exhaust_propellant_spec)]
    pub fn exhaust_propellant(self) -> (r: Propellant)
        ensures
            r == self.exhaust_propellant(),
    {
        match self {
            JetFuel::Kerosene => Propellant::LoxRp1,
            JetFuel::Methane => Propellant::LoxMethane,
            JetFuel::Hydrogen => Propellant::LoxHydrogen,
        }
    }

    /// [`Self::lox_pair`] in contracts.
    pub open spec fn lox_pair_spec(self) -> Propellant {
        match self {
            JetFuel::Kerosene => Propellant::LoxRp1,
            JetFuel::Methane => Propellant::LoxMethane,
            JetFuel::Hydrogen => Propellant::LoxHydrogen,
        }
    }

    /// LOX pair selecting the rocket oxidizer/fuel reference ratio.
    #[verifier::when_used_as_spec(lox_pair_spec)]
    pub fn lox_pair(self) -> (r: Propellant)
        ensures
            r == self.lox_pair(),
    {
        match self {
            JetFuel::Kerosene => Propellant::LoxRp1,
            JetFuel::Methane => Propellant::LoxMethane,
            JetFuel::Hydrogen => Propellant::LoxHydrogen,
        }
    }
}

/// Intake pressure-recovery family; ramps recover better and weigh more.
#[derive(Debug, Clone, Copy, PartialEq, Eq, Hash, Structural)]
pub enum IntakeKind {
    Pitot,
    Ramp,
}

impl IntakeKind {
    /// [`Self::recovery`] in contracts.
    pub open spec fn recovery_spec<M: Numerics>(self, math: &M, mach: F64) -> F64 {
        if mach <= whole(1) {
            intake_recovery_subsonic()
        } else {
            let over = mach - whole(1);
            let slope = match self {
                IntakeKind::Pitot => dec(75, 3),
                IntakeKind::Ramp => dec(5, 2),
            };
            (whole(1) - slope * powf(math, over, dec(135, 2))).max(dec(3, 1))
        }
    }

    /// Total-pressure recovery at flight Mach.
    #[verifier::when_used_as_spec(recovery_spec)]
    pub fn recovery<M: Numerics>(self, math: &M, mach: F64) -> (r: F64)
        ensures
            repeatable(math) ==> r == self.recovery(math, mach),
    {
        if mach <= whole(1) {
            intake_recovery_subsonic()
        } else {
            let over = mach - whole(1);
            let slope = match self {
                IntakeKind::Pitot => dec(75, 3),
                IntakeKind::Ramp => dec(5, 2),
            };
            (whole(1) - slope * powf(math, over, dec(135, 2))).max(dec(3, 1))
        }
    }

    /// [`Self::mass_factor`] in contracts.
    pub open spec fn mass_factor_spec(self) -> F64 {
        match self {
            IntakeKind::Pitot => whole(1),
            IntakeKind::Ramp => dec(15, 1),
        }
    }

    /// Intake mass factor over the pitot baseline.
    #[verifier::when_used_as_spec(mass_factor_spec)]
    pub fn mass_factor(self) -> (r: F64)
        ensures
            r == self.mass_factor(),
    {
        match self {
            IntakeKind::Pitot => whole(1),
            IntakeKind::Ramp => dec(15, 1),
        }
    }
}

/// Air-breathing cycle topology.
#[derive(Debug, Clone, Copy, PartialEq, Eq, Hash, Structural)]
pub enum AirCycle {
    Turbojet,
    Turbofan,
    Ramjet,
    Scramjet,
}

impl AirCycle {
    /// [`Self::has_shaft`] in contracts.
    pub open spec fn has_shaft_spec(self) -> bool {
        match self {
            AirCycle::Ramjet | AirCycle::Scramjet => false,
            _ => true,
        }
    }

    /// Whether the cycle has a compressor and turbine shaft.
    #[verifier::when_used_as_spec(has_shaft_spec)]
    pub fn has_shaft(self) -> (r: bool)
        ensures
            r == self.has_shaft(),
    {
        match self {
            AirCycle::Ramjet | AirCycle::Scramjet => false,
            _ => true,
        }
    }

    /// [`Self::is_passive`] in contracts.
    pub open spec fn is_passive_spec(self) -> bool {
        !self.has_shaft()
    }

    /// Inlet, combustor and nozzle only.
    #[verifier::when_used_as_spec(is_passive_spec)]
    pub fn is_passive(self) -> (r: bool)
        ensures
            r == self.is_passive(),
    {
        !self.has_shaft()
    }
}

/// Flight condition for air-breathing evaluation (all SI).
#[derive(Debug, Clone, Copy, PartialEq)]
pub struct FlightCondition {
    pub mach: F64,
    pub ambient_pa: F64,
    pub ambient_temp_k: F64,
    pub airspeed_mps: F64,
    /// Species basis sampled from the atmosphere: the combustor asks it for
    /// oxidizer, and never assumes.
    pub composition: AtmosphereComposition,
}

impl FlightCondition {
    /// [`Self::density_kg_m3`] in contracts.
    pub open spec fn density_kg_m3_spec(&self) -> F64 {
        let gas_constant = self.composition.gas_constant_j_kg_k;
        if !gas_constant.is_finite() || gas_constant <= zero() || !self.ambient_temp_k.is_finite() || self.ambient_temp_k
            <= zero() || !self.ambient_pa.is_finite() || self.ambient_pa < zero() {
            zero()
        } else {
            self.ambient_pa / (gas_constant * self.ambient_temp_k)
        }
    }

    /// Ambient mass density from the sampled species basis (kg/m^3).
    #[verifier::when_used_as_spec(density_kg_m3_spec)]
    pub fn density_kg_m3(&self) -> (r: F64)
        ensures
            r == self.density_kg_m3(),
    {
        let gas_constant = self.composition.gas_constant_j_kg_k;
        if !gas_constant.is_finite() || gas_constant <= zero() || !self.ambient_temp_k.is_finite() || self.ambient_temp_k
            <= zero() || !self.ambient_pa.is_finite() || self.ambient_pa < zero() {
            zero()
        } else {
            self.ambient_pa / (gas_constant * self.ambient_temp_k)
        }
    }

    /// [`Self::speed_of_sound_mps`] in contracts.
    pub open spec fn speed_of_sound_mps_spec(&self) -> F64 {
        let gas_constant = self.composition.gas_constant_j_kg_k;
        let gamma = self.composition.mean_heat_capacity_ratio;
        if !gas_constant.is_finite() || gas_constant <= zero() || !gamma.is_finite() || gamma <= whole(1)
            || !self.ambient_temp_k.is_finite() || self.ambient_temp_k <= zero() {
            zero()
        } else {
            (gamma * gas_constant * self.ambient_temp_k).sqrt()
        }
    }

    /// Ambient speed of sound from the sampled species basis (m/s).
    #[verifier::when_used_as_spec(speed_of_sound_mps_spec)]
    pub fn speed_of_sound_mps(&self) -> (r: F64)
        ensures
            r == self.speed_of_sound_mps(),
    {
        let gas_constant = self.composition.gas_constant_j_kg_k;
        let gamma = self.composition.mean_heat_capacity_ratio;
        if !gas_constant.is_finite() || gas_constant <= zero() || !gamma.is_finite() || gamma <= whole(1)
            || !self.ambient_temp_k.is_finite() || self.ambient_temp_k <= zero() {
            zero()
        } else {
            (gamma * gas_constant * self.ambient_temp_k).sqrt()
        }
    }

    /// What is wrong with the condition, if anything.
    pub open spec fn fault(&self) -> Option<Fault> {
        checks()
            .refuse(!self.mach.is_finite() || self.mach < zero(), bad_spec("flight Mach must be finite and >= 0"))
            .refuse(!(self.ambient_pa >= zero()), bad_spec("ambient pressure must be finite and >= 0"))
            .refuse(!(self.ambient_temp_k > zero()), bad_spec("ambient temperature must be finite and > 0"))
            .refuse(
                !self.airspeed_mps.is_finite() || self.airspeed_mps < zero(),
                bad_spec("airspeed must be finite and >= 0"),
            )
            .refuse(
                !self.composition.sane,
                bad_spec("flight-condition composition must be sane (finite, non-negative, positive total)"),
            )
            .fault
    }

    /// Validates the condition (NaN fails closed).
    pub fn validate(&self) -> (r: Result<(), PropulsionError>)
        ensures
            seen(r) == outcome(self.fault()),
    {
        if !self.mach.is_finite() || self.mach < zero() {
            return Err(invalid_spec("flight Mach must be finite and >= 0"));
        }
        if !(self.ambient_pa >= zero()) {
            return Err(invalid_spec("ambient pressure must be finite and >= 0"));
        }
        if !(self.ambient_temp_k > zero()) {
            return Err(invalid_spec("ambient temperature must be finite and > 0"));
        }
        if !self.airspeed_mps.is_finite() || self.airspeed_mps < zero() {
            return Err(invalid_spec("airspeed must be finite and >= 0"));
        }
        if !self.composition.sane {
            return Err(invalid_spec("flight-condition composition must be sane (finite, non-negative, positive total)"));
        }
        Ok(())
    }
}

/// The flight condition of a sample and a true airspeed, where the sample gives a
/// Mach number for it.
pub open spec fn condition_of(sample: AtmosphereSample, airspeed_mps: F64, solved_mach: Option<F64>) -> Result<
    FlightCondition,
    Fault,
> {
    match solved_mach {
        None => Err(bad_spec("airspeed incompatible with sample")),
        Some(mach) => {
            let condition = FlightCondition {
                mach,
                ambient_pa: sample.pressure_pa,
                ambient_temp_k: sample.temperature_k,
                airspeed_mps,
                composition: sample.composition,
            };
            match condition.fault() {
                Some(fault) => Err(fault),
                None => Ok(condition),
            }
        },
    }
}

/// Builds a flight condition from an atmosphere sample and true airspeed;
/// `solved_mach` is the Mach number that the sample gives for the airspeed.
pub fn flight_condition(sample: &AtmosphereSample, airspeed_mps: F64, solved_mach: Option<F64>) -> (r: Result<
    FlightCondition,
    PropulsionError,
>)
    ensures
        seen(r) == condition_of(*sample, airspeed_mps, solved_mach),
{
    let mach: F64 = match solved_mach {
        Some(mach) => mach,
        None => {
            return Err(invalid_spec("airspeed incompatible with sample"));
        },
    };
    let condition: FlightCondition = FlightCondition {
        mach,
        ambient_pa: sample.pressure_pa,
        ambient_temp_k: sample.temperature_k,
        airspeed_mps,
        composition: sample.composition,
    };
    condition.validate()?;
    Ok(condition)
}

/// Air-breathing authoring.
#[derive(Debug, Clone, PartialEq)]
pub struct AirbreathingSpec {
    pub name: String,
    pub cycle: AirCycle,
    pub fuel: JetFuel,
    /// Intake capture area (m^2).
    pub intake_area_m2: F64,
    pub intake: IntakeKind,
    /// Compressor pressure ratio (1 exactly for ramjets and scramjets).
    pub compressor_ratio: F64,
    /// Bypass ratio (0 = turbojet).
    pub bypass_ratio: F64,
    /// Fan pressure ratio (turbofans).
    pub fan_pressure_ratio: F64,
    /// Turbine-inlet target or passive combustor-exit total-temperature target at
    /// full throttle (K), depending on `cycle`.
    pub turbine_inlet_temp_k: F64,
    /// Afterburner fitted.
    pub afterburner: bool,
    /// Reheat temperature (K, capped by liner and oxygen).
    pub reheat_temp_k: F64,
    pub turbine_material: ChamberMaterial,
    /// Spool time constant (s).
    pub spool_tau_s: F64,
    /// Shaft topology: starter, generator, light-off threshold.
    pub shaft: ShaftSpec,
}

/// What surrounding modules supply to an air-breathing design.
#[derive(Debug, PartialEq)]
pub struct AirReference {
    /// Species basis of the design air.
    pub earth_air: AtmosphereComposition,
    /// The design air of scramjets, at [`scramjet_design_altitude_m`], or why there is none.
    pub scramjet_sample: Result<AtmosphereSample, String>,
    /// The Mach number which that sample gives for [`scramjet_design_mach`] times its speed
    /// of sound.
    pub scramjet_mach: Option<F64>,
    /// The verdict on the fitted shaft topology for the cycle.
    pub shaft_verdict: Result<(), PropulsionError>,
}

/// The refusal of two temperatures in kelvins.
pub open spec fn kelvins_fault<M: Numerics>(
    math: &M,
    before: Seq<char>,
    first_k: F64,
    between: Seq<char>,
    second_k: F64,
    after: Seq<char>,
) -> Fault {
    Fault::UnsupportedCombination(before + fixed_text(math, first_k, 0) + between + fixed_text(math, second_k, 0) + after)
}

fn kelvins_error<M: Numerics>(
    math: &M,
    before: &str,
    first_k: F64,
    between: &str,
    second_k: F64,
    after: &str,
) -> (r: PropulsionError)
    ensures
        repeatable(math) ==> r@ == kelvins_fault(math, before@, first_k, between@, second_k, after@),
        r is UnsupportedCombination,
{
    let text: String = join(before, fixed(math, first_k, 0).as_str());
    let text: String = join(text.as_str(), between);
    let text: String = join(text.as_str(), fixed(math, second_k, 0).as_str());
    PropulsionError::UnsupportedCombination(join(text.as_str(), after))
}

impl AirbreathingSpec {
    /// What is wrong with the topology, if anything.
    pub open spec fn topology_fault(&self) -> Option<Fault> {
        match self.cycle {
            AirCycle::Ramjet | AirCycle::Scramjet => checks()
                .refuse(
                    !self.compressor_ratio.same(whole(1)),
                    bad_spec("ramjets and scramjets carry no compressor (ratio must be 1)"),
                )
                .refuse(!self.bypass_ratio.same(zero()), bad_spec("ramjets and scramjets carry no bypass"))
                .fault,
            AirCycle::Turbojet => checks()
                .refuse(!self.bypass_ratio.same(zero()), bad_spec("turbojets carry no bypass (use turbofan)"))
                .fault,
            AirCycle::Turbofan => checks()
                .refuse(!(self.bypass_ratio > zero()), bad_spec("turbofans need a positive bypass ratio"))
                .fault,
        }
    }

    fn check_topology(&self) -> (r: Result<(), PropulsionError>)
        ensures
            seen(r) == outcome(self.topology_fault()),
    {
        match self.cycle {
            AirCycle::Ramjet | AirCycle::Scramjet => {
                if !self.compressor_ratio.same(whole(1)) {
                    return Err(invalid_spec("ramjets and scramjets carry no compressor (ratio must be 1)"));
                }
                if !self.bypass_ratio.same(zero()) {
                    return Err(invalid_spec("ramjets and scramjets carry no bypass"));
                }
            },
            AirCycle::Turbojet => {
                if !self.bypass_ratio.same(zero()) {
                    return Err(invalid_spec("turbojets carry no bypass (use turbofan)"));
                }
            },
            AirCycle::Turbofan => {
                if !(self.bypass_ratio > zero()) {
                    return Err(invalid_spec("turbofans need a positive bypass ratio"));
                }
            },
        }
        Ok(())
    }

    /// [`Self::temperature_cap_k`] in contracts.
    pub open spec fn temperature_cap_k_spec(&self) -> F64 {
        match self.cycle {
            AirCycle::Ramjet | AirCycle::Scramjet => whole(2400),
            _ => self.turbine_material.max_wall_temp_k * turbine_cooling_allowance(),
        }
    }

    /// Cap on the turbine or combustor temperature: cooled blades allow more than
    /// wall temperature, passive combustors have a liner cap (K).
    #[verifier::when_used_as_spec(temperature_cap_k_spec)]
    pub fn temperature_cap_k(&self) -> (r: F64)
        ensures
            r == self.temperature_cap_k(),
    {
        match self.cycle {
            AirCycle::Ramjet | AirCycle::Scramjet => whole(2400),
            _ => self.turbine_material.max_wall_temp_k * turbine_cooling_allowance(),
        }
    }

    /// What is wrong with the authoring values, if anything.
    pub open spec fn fault<M: Numerics>(&self, math: &M, shaft_verdict: Result<(), Fault>) -> Option<Fault> {
        let first = checks()
            .refuse(blank(self.name@), bad_spec("engine name must not be empty"))
            .positive(self.intake_area_m2, "intake area")
            .positive(self.compressor_ratio, "compressor ratio")
            .non_negative(self.bypass_ratio, "bypass ratio")
            .positive(self.fan_pressure_ratio, "fan pressure ratio")
            .positive(self.turbine_inlet_temp_k, "turbine inlet temperature")
            .positive(self.spool_tau_s, "spool tau")
            .part(self.turbine_material.fault())
            .part(
                match shaft_verdict {
                    Ok(_) => None,
                    Err(fault) => Some(fault),
                },
            )
            .part(self.topology_fault())
            .refuse(
                self.turbine_inlet_temp_k > self.temperature_cap_k(),
                kelvins_fault(
                    math,
                    "TIT "@,
                    self.turbine_inlet_temp_k,
                    " K exceeds the "@,
                    self.temperature_cap_k(),
                    " K allowance"@,
                ),
            );
        if self.afterburner {
            first
                .refuse(
                    self.cycle == AirCycle::Scramjet,
                    unsupported("scramjet combustor does not use a separate afterburner duct"),
                )
                .positive(self.reheat_temp_k, "reheat temperature")
                .refuse(
                    self.reheat_temp_k > reheat_temp_cap_k(),
                    kelvins_fault(
                        math,
                        "reheat "@,
                        self.reheat_temp_k,
                        " K exceeds the "@,
                        reheat_temp_cap_k(),
                        " K liner cap"@,
                    ),
                )
                .fault
        } else {
            first.fault
        }
    }

    /// Validates the authoring values (NaN fails closed); `shaft_verdict` says
    /// whether the fitted shaft topology serves the cycle.
    pub fn validate<M: Numerics>(
        &self,
        math: &M,
        shaft_verdict: &Result<(), PropulsionError>,
    ) -> (r: Result<(), PropulsionError>)
        ensures
            repeatable(math) ==> seen(r) == outcome(self.fault(math, seen(*shaft_verdict))),
            r is Ok <==> self.fault(math, seen(*shaft_verdict)) is None,
    {
        if is_blank(self.name.as_str()) {
            return Err(invalid_spec("engine name must not be empty"));
        }
        require_positive(self.intake_area_m2, "intake area")?;
        require_positive(self.compressor_ratio, "compressor ratio")?;
        require_non_negative(self.bypass_ratio, "bypass ratio")?;
        require_positive(self.fan_pressure_ratio, "fan pressure ratio")?;
        require_positive(self.turbine_inlet_temp_k, "turbine inlet temperature")?;
        require_positive(self.spool_tau_s, "spool tau")?;
        self.turbine_material.validate()?;
        match shaft_verdict {
            Ok(_) => {},
            Err(error) => {
                return Err(error.duplicate());
            },
        }
        self.check_topology()?;
        let cap: F64 = self.temperature_cap_k();
        if self.turbine_inlet_temp_k > cap {
            return Err(kelvins_error(math, "TIT ", self.turbine_inlet_temp_k, " K exceeds the ", cap, " K allowance"));
        }
        if self.afterburner {
            match self.cycle {
                AirCycle::Scramjet => {
                    return Err(unsupported_combination("scramjet combustor does not use a separate afterburner duct"));
                },
                _ => {},
            }
            require_positive(self.reheat_temp_k, "reheat temperature")?;
            if self.reheat_temp_k > reheat_temp_cap_k() {
                return Err(
                    kelvins_error(
                        math,
                        "reheat ",
                        self.reheat_temp_k,
                        " K exceeds the ",
                        reheat_temp_cap_k(),
                        " K liner cap",
                    ),
                );
            }
            // Whether reheat clears the turbine exit needs the solved design
            // state, so that check belongs to compiling.
        }
        Ok(())
    }

    /// [`unauthored`] in contracts.
    pub open spec fn unauthored_spec(name: String, shaft: ShaftSpec) -> AirbreathingSpec {
        AirbreathingSpec {
            name,
            cycle: AirCycle::Turbojet,
            fuel: JetFuel::Kerosene,
            intake_area_m2: zero(),
            intake: IntakeKind::Pitot,
            compressor_ratio: whole(1),
            bypass_ratio: zero(),
            fan_pressure_ratio: dec(16, 1),
            turbine_inlet_temp_k: zero(),
            afterburner: false,
            reheat_temp_k: zero(),
            turbine_material: ChamberMaterial::nickel_superalloy(),
            spool_tau_s: whole(5),
            shaft,
        }
    }

    /// A turbojet still to be authored: nothing but defaults round a shaft.
    #[verifier::when_used_as_spec(unauthored_spec)]
    pub fn unauthored(name: String, shaft: ShaftSpec) -> (r: AirbreathingSpec)
        ensures
            r == Self::unauthored(name, shaft),
    {
        AirbreathingSpec {
            name,
            cycle: AirCycle::Turbojet,
            fuel: JetFuel::Kerosene,
            intake_area_m2: zero(),
            intake: IntakeKind::Pitot,
            compressor_ratio: whole(1),
            bypass_ratio: zero(),
            fan_pressure_ratio: dec(16, 1),
            turbine_inlet_temp_k: zero(),
            afterburner: false,
            reheat_temp_k: zero(),
            turbine_material: ChamberMaterial::nickel_superalloy(),
            spool_tau_s: whole(5),
            shaft,
        }
    }

    /// [`Self::dry`] in contracts.
    pub open spec fn dry_spec(&self) -> AirbreathingSpec {
        AirbreathingSpec {
            name: copied(&self.name),
            cycle: self.cycle,
            fuel: self.fuel,
            intake_area_m2: self.intake_area_m2,
            intake: self.intake,
            compressor_ratio: self.compressor_ratio,
            bypass_ratio: self.bypass_ratio,
            fan_pressure_ratio: self.fan_pressure_ratio,
            turbine_inlet_temp_k: self.turbine_inlet_temp_k,
            afterburner: false,
            reheat_temp_k: self.reheat_temp_k,
            turbine_material: self.turbine_material,
            spool_tau_s: self.spool_tau_s,
            shaft: self.shaft,
        }
    }

    /// The same engine without its afterburner.
    #[verifier::when_used_as_spec(dry_spec)]
    pub fn dry(&self) -> (r: AirbreathingSpec)
        ensures
            r == self.dry(),
    {
        AirbreathingSpec {
            name: copied(&self.name),
            cycle: self.cycle,
            fuel: self.fuel,
            intake_area_m2: self.intake_area_m2,
            intake: self.intake,
            compressor_ratio: self.compressor_ratio,
            bypass_ratio: self.bypass_ratio,
            fan_pressure_ratio: self.fan_pressure_ratio,
            turbine_inlet_temp_k: self.turbine_inlet_temp_k,
            afterburner: false,
            reheat_temp_k: self.reheat_temp_k,
            turbine_material: self.turbine_material,
            spool_tau_s: self.spool_tau_s,
            shaft: self.shaft,
        }
    }

    /// [`Self::on_fuel`] in contracts.
    pub open spec fn on_fuel_spec(&self, fuel: JetFuel) -> AirbreathingSpec {
        AirbreathingSpec {
            name: copied(&self.name),
            cycle: self.cycle,
            fuel,
            intake_area_m2: self.intake_area_m2,
            intake: self.intake,
            compressor_ratio: self.compressor_ratio,
            bypass_ratio: self.bypass_ratio,
            fan_pressure_ratio: self.fan_pressure_ratio,
            turbine_inlet_temp_k: self.turbine_inlet_temp_k,
            afterburner: self.afterburner,
            reheat_temp_k: self.reheat_temp_k,
            turbine_material: self.turbine_material,
            spool_tau_s: self.spool_tau_s,
            shaft: self.shaft,
        }
    }

    /// The same engine on another fuel.
    #[verifier::when_used_as_spec(on_fuel_spec)]
    pub fn on_fuel(&self, fuel: JetFuel) -> (r: AirbreathingSpec)
        ensures
            r == self.on_fuel(fuel),
    {
        AirbreathingSpec {
            name: copied(&self.name),
            cycle: self.cycle,
            fuel,
            intake_area_m2: self.intake_area_m2,
            intake: self.intake,
            compressor_ratio: self.compressor_ratio,
            bypass_ratio: self.bypass_ratio,
            fan_pressure_ratio: self.fan_pressure_ratio,
            turbine_inlet_temp_k: self.turbine_inlet_temp_k,
            afterburner: self.afterburner,
            reheat_temp_k: self.reheat_temp_k,
            turbine_material: self.turbine_material,
            spool_tau_s: self.spool_tau_s,
            shaft: self.shaft,
        }
    }
}

/// Exit state of a nozzle: gross thrust and exit conditions.
#[derive(Debug, Clone, Copy, PartialEq)]
pub struct NozzleFlow {
    pub thrust_gross_n: F64,
    pub exit_temp_k: F64,
    pub exit_pressure_pa: F64,
    pub exit_mach: F64,
}

/// [`critical_ratio`] in contracts.
pub open spec fn critical_ratio_spec<M: Numerics>(math: &M, gamma: F64) -> F64 {
    powf(math, (gamma + whole(1)) / whole(2), gamma / (gamma - whole(1)))
}

/// Pressure ratio above which a nozzle chokes.
#[verifier::when_used_as_spec(critical_ratio_spec)]
pub fn critical_ratio<M: Numerics>(math: &M, gamma: F64) -> (r: F64)
    ensures
        repeatable(math) ==> r == critical_ratio(math, gamma),
{
    powf(math, (gamma + whole(1)) / whole(2), gamma / (gamma - whole(1)))
}

/// [`dead_nozzle`] in contracts.
pub open spec fn dead_nozzle_spec(total_temp_k: F64, ambient_pa: F64) -> NozzleFlow {
    NozzleFlow { thrust_gross_n: zero(), exit_temp_k: total_temp_k, exit_pressure_pa: ambient_pa, exit_mach: zero() }
}

/// A nozzle that gives nothing.
#[verifier::when_used_as_spec(dead_nozzle_spec)]
pub fn dead_nozzle(total_temp_k: F64, ambient_pa: F64) -> (r: NozzleFlow)
    ensures
        r == dead_nozzle(total_temp_k, ambient_pa),
{
    NozzleFlow { thrust_gross_n: zero(), exit_temp_k: total_temp_k, exit_pressure_pa: ambient_pa, exit_mach: zero() }
}

/// [`convergent_nozzle`] in contracts.
pub open spec fn convergent_nozzle_spec<M: Numerics>(
    math: &M,
    mdot_kg_s: F64,
    total_temp_k: F64,
    total_pressure_pa: F64,
    exit_area_m2: F64,
    gamma: F64,
    gas_r: F64,
    ambient_pa: F64,
) -> NozzleFlow {
    if !(mdot_kg_s > zero()) || !(total_pressure_pa > zero()) || !(exit_area_m2 > zero()) || ambient_pa >= total_pressure_pa {
        dead_nozzle(total_temp_k, ambient_pa)
    } else {
        let crit = critical_ratio(math, gamma);
        if total_pressure_pa / ambient_pa.max(whole(1)) > crit {
            // Choked: sonic exit, underexpanded pressure term.
            let exit_temp_k = total_temp_k * whole(2) / (gamma + whole(1));
            let exit_pressure_pa = total_pressure_pa / crit;
            let exit_velocity_mps = (gamma * gas_r * exit_temp_k).sqrt();
            NozzleFlow {
                thrust_gross_n: nozzle_gross_efficiency() * mdot_kg_s * exit_velocity_mps + (exit_pressure_pa - ambient_pa)
                    * exit_area_m2,
                exit_temp_k,
                exit_pressure_pa,
                exit_mach: whole(1),
            }
        } else {
            // Fully expanded subsonic to ambient.
            let expansion = powf(math, ambient_pa / total_pressure_pa, (gamma - whole(1)) / gamma);
            let exit_velocity_mps = (whole(2) * gamma * gas_r / (gamma - whole(1)) * total_temp_k * (whole(1) - expansion)).sqrt();
            NozzleFlow {
                thrust_gross_n: nozzle_gross_efficiency() * mdot_kg_s * exit_velocity_mps,
                exit_temp_k: total_temp_k * expansion,
                exit_pressure_pa: ambient_pa,
                exit_mach: (exit_velocity_mps / (gamma * gas_r * total_temp_k).sqrt()).min(whole(1)),
            }
        }
    }
}

/// Convergent-nozzle exit state for total conditions and a fixed exit (= throat)
/// area: choked with a pressure term, or fully expanded subsonic. Ambient above
/// total pressure gives nothing (no backflow).
#[verifier::when_used_as_spec(convergent_nozzle_spec)]
pub fn convergent_nozzle<M: Numerics>(
    math: &M,
    mdot_kg_s: F64,
    total_temp_k: F64,
    total_pressure_pa: F64,
    exit_area_m2: F64,
    gamma: F64,
    gas_r: F64,
    ambient_pa: F64,
) -> (r: NozzleFlow)
    ensures
        repeatable(math) ==> r == convergent_nozzle(math, mdot_kg_s, total_temp_k, total_pressure_pa, exit_area_m2, gamma, gas_r, ambient_pa),
{
    if !(mdot_kg_s > zero()) || !(total_pressure_pa > zero()) || !(exit_area_m2 > zero()) || ambient_pa >= total_pressure_pa {
        dead_nozzle(total_temp_k, ambient_pa)
    } else {
        let crit = critical_ratio(math, gamma);
        if total_pressure_pa / ambient_pa.max(whole(1)) > crit {
            // Choked: sonic exit, underexpanded pressure term.
            let exit_temp_k = total_temp_k * whole(2) / (gamma + whole(1));
            let exit_pressure_pa = total_pressure_pa / crit;
            let exit_velocity_mps = (gamma * gas_r * exit_temp_k).sqrt();
            NozzleFlow {
                thrust_gross_n: nozzle_gross_efficiency() * mdot_kg_s * exit_velocity_mps + (exit_pressure_pa - ambient_pa)
                    * exit_area_m2,
                exit_temp_k,
                exit_pressure_pa,
                exit_mach: whole(1),
            }
        } else {
            // Fully expanded subsonic to ambient.
            let expansion = powf(math, ambient_pa / total_pressure_pa, (gamma - whole(1)) / gamma);
            let exit_velocity_mps = (whole(2) * gamma * gas_r / (gamma - whole(1)) * total_temp_k * (whole(1) - expansion)).sqrt();
            NozzleFlow {
                thrust_gross_n: nozzle_gross_efficiency() * mdot_kg_s * exit_velocity_mps,
                exit_temp_k: total_temp_k * expansion,
                exit_pressure_pa: ambient_pa,
                exit_mach: (exit_velocity_mps / (gamma * gas_r * total_temp_k).sqrt()).min(whole(1)),
            }
        }
    }
}

/// [`attached_flow`] in contracts.
pub open spec fn attached_flow_spec(
    mdot_kg_s: F64,
    total_temp_k: F64,
    exit_area_m2: F64,
    gamma: F64,
    gas_r: F64,
    ambient_pa: F64,
    exit_mach: F64,
    exit_pressure_pa: F64,
) -> NozzleFlow {
    let exit_temp_k = total_temp_k / (whole(1) + (gamma - whole(1)) / whole(2) * exit_mach * exit_mach);
    let exit_velocity_mps = exit_mach * (gamma * gas_r * exit_temp_k).sqrt();
    NozzleFlow {
        thrust_gross_n: nozzle_gross_efficiency() * mdot_kg_s * exit_velocity_mps + (exit_pressure_pa - ambient_pa)
            * exit_area_m2,
        exit_temp_k,
        exit_pressure_pa,
        exit_mach,
    }
}

/// The attached flow of a convergent-divergent nozzle at its exit Mach number.
#[verifier::when_used_as_spec(attached_flow_spec)]
pub fn attached_flow(
    mdot_kg_s: F64,
    total_temp_k: F64,
    exit_area_m2: F64,
    gamma: F64,
    gas_r: F64,
    ambient_pa: F64,
    exit_mach: F64,
    exit_pressure_pa: F64,
) -> (r: NozzleFlow)
    ensures
        r == attached_flow(mdot_kg_s, total_temp_k, exit_area_m2, gamma, gas_r, ambient_pa, exit_mach, exit_pressure_pa),
{
    let exit_temp_k = total_temp_k / (whole(1) + (gamma - whole(1)) / whole(2) * exit_mach * exit_mach);
    let exit_velocity_mps = exit_mach * (gamma * gas_r * exit_temp_k).sqrt();
    NozzleFlow {
        thrust_gross_n: nozzle_gross_efficiency() * mdot_kg_s * exit_velocity_mps + (exit_pressure_pa - ambient_pa)
            * exit_area_m2,
        exit_temp_k,
        exit_pressure_pa,
        exit_mach,
    }
}

/// Fixed-geometry convergent-divergent nozzle with its separation flag, or what
/// stops it: exit Mach from the area ratio, and where the jet separates, the
/// behaviour of a convergent nozzle at the throat.
pub open spec fn cd_flow<M: Numerics>(
    math: &M,
    mdot_kg_s: F64,
    total_temp_k: F64,
    total_pressure_pa: F64,
    throat_area_m2: F64,
    exit_area_m2: F64,
    gamma: F64,
    gas_r: F64,
    ambient_pa: F64,
) -> Result<(NozzleFlow, bool), Fault> {
    let expansion = exit_area_m2 / throat_area_m2;
    if !(mdot_kg_s > zero()) || !(total_pressure_pa > zero()) || !(throat_area_m2 > zero()) || !(exit_area_m2 > zero())
        || ambient_pa >= total_pressure_pa {
        Ok((dead_nozzle(total_temp_k, ambient_pa), false))
    } else if total_pressure_pa / ambient_pa.max(whole(1)) <= critical_ratio(math, gamma) {
        Ok(
            (
                convergent_nozzle(math, mdot_kg_s, total_temp_k, total_pressure_pa, exit_area_m2, gamma, gas_r, ambient_pa),
                false,
            ),
        )
    } else if !(expansion >= whole(1)) {
        Err(bad_spec("CD nozzle exit must clear the throat"))
    } else {
        match solved_mach(math, gamma, expansion) {
            Err(fault) => Err(fault),
            Ok(exit_mach) => {
                let exit_pressure_pa = total_pressure_pa * pressure_ratio_at(math, gamma, exit_mach);
                if exit_pressure_pa < separation_pressure_ratio() * ambient_pa {
                    Ok(
                        (
                            convergent_nozzle(
                                math,
                                mdot_kg_s,
                                total_temp_k,
                                total_pressure_pa,
                                throat_area_m2,
                                gamma,
                                gas_r,
                                ambient_pa,
                            ),
                            true,
                        ),
                    )
                } else {
                    Ok(
                        (
                            attached_flow(
                                mdot_kg_s,
                                total_temp_k,
                                exit_area_m2,
                                gamma,
                                gas_r,
                                ambient_pa,
                                exit_mach,
                                exit_pressure_pa,
                            ),
                            false,
                        ),
                    )
                }
            },
        }
    }
}

/// Fixed-geometry convergent-divergent nozzle (ramjet and scramjet cruise).
pub fn cd_nozzle<M: Numerics>(
    math: &M,
    mdot_kg_s: F64,
    total_temp_k: F64,
    total_pressure_pa: F64,
    throat_area_m2: F64,
    exit_area_m2: F64,
    gamma: F64,
    gas_r: F64,
    ambient_pa: F64,
) -> (r: Result<(NozzleFlow, bool), PropulsionError>)
    ensures
        repeatable(math) ==> seen(r) == cd_flow(
            math,
            mdot_kg_s,
            total_temp_k,
            total_pressure_pa,
            throat_area_m2,
            exit_area_m2,
            gamma,
            gas_r,
            ambient_pa,
        ),
{
    if !(mdot_kg_s > zero()) || !(total_pressure_pa > zero()) || !(throat_area_m2 > zero()) || !(exit_area_m2 > zero())
        || ambient_pa >= total_pressure_pa {
        return Ok((dead_nozzle(total_temp_k, ambient_pa), false));
    }
    if total_pressure_pa / ambient_pa.max(whole(1)) <= critical_ratio(math, gamma) {
        // Unchoked: subsonic throughout, adapted exit.
        return Ok(
            (
                convergent_nozzle(math, mdot_kg_s, total_temp_k, total_pressure_pa, exit_area_m2, gamma, gas_r, ambient_pa),
                false,
            ),
        );
    }
    let expansion: F64 = exit_area_m2 / throat_area_m2;
    if !(expansion >= whole(1)) {
        return Err(invalid_spec("CD nozzle exit must clear the throat"));
    }
    let exit_mach: F64 = mach_from_area_ratio(math, gamma, expansion)?;
    let exit_pressure_pa: F64 = total_pressure_pa * pressure_ratio_at(math, gamma, exit_mach);
    if exit_pressure_pa < separation_pressure_ratio() * ambient_pa {
        // Separated: the jet detaches and the nozzle behaves convergent at the throat.
        return Ok(
            (
                convergent_nozzle(math, mdot_kg_s, total_temp_k, total_pressure_pa, throat_area_m2, gamma, gas_r, ambient_pa),
                true,
            ),
        );
    }
    Ok(
        (
            attached_flow(mdot_kg_s, total_temp_k, exit_area_m2, gamma, gas_r, ambient_pa, exit_mach, exit_pressure_pa),
            false,
        ),
    )
}

/// [`adapted_exit_area`] in contracts.
pub open spec fn adapted_exit_area_spec<M: Numerics>(
    math: &M,
    mdot_kg_s: F64,
    total_temp_k: F64,
    total_pressure_pa: F64,
    ambient_pa: F64,
    gamma: F64,
    gas_r: F64,
    cp: F64,
) -> F64 {
    let expansion = powf(math, ambient_pa / total_pressure_pa, (gamma - whole(1)) / gamma);
    let exit_velocity_mps = (whole(2) * cp * total_temp_k * (whole(1) - expansion)).sqrt();
    let exit_temp_k = total_temp_k * expansion;
    let density = ambient_pa / (gas_r * exit_temp_k);
    mdot_kg_s / (density * exit_velocity_mps)
}

/// Adapted exit area for a design mass flow expanded to ambient (m^2).
#[verifier::when_used_as_spec(adapted_exit_area_spec)]
pub fn adapted_exit_area<M: Numerics>(
    math: &M,
    mdot_kg_s: F64,
    total_temp_k: F64,
    total_pressure_pa: F64,
    ambient_pa: F64,
    gamma: F64,
    gas_r: F64,
    cp: F64,
) -> (r: F64)
    ensures
        repeatable(math) ==> r == adapted_exit_area(math, mdot_kg_s, total_temp_k, total_pressure_pa, ambient_pa, gamma, gas_r, cp),
{
    let expansion = powf(math, ambient_pa / total_pressure_pa, (gamma - whole(1)) / gamma);
    let exit_velocity_mps = (whole(2) * cp * total_temp_k * (whole(1) - expansion)).sqrt();
    let exit_temp_k = total_temp_k * expansion;
    let density = ambient_pa / (gas_r * exit_temp_k);
    mdot_kg_s / (density * exit_velocity_mps)
}

/// [`flow_function`] in contracts.
pub open spec fn flow_function_spec<M: Numerics>(math: &M, total_temp_k: F64, gamma: F64, gas_r: F64) -> F64 {
    powf(math, whole(2) / (gamma + whole(1)), (gamma + whole(1)) / (whole(2) * (gamma - whole(1)))) * (gamma / (gas_r
        * total_temp_k)).sqrt()
}

/// Choked mass flow per total pressure and throat area.
#[verifier::when_used_as_spec(flow_function_spec)]
pub fn flow_function<M: Numerics>(math: &M, total_temp_k: F64, gamma: F64, gas_r: F64) -> (r: F64)
    ensures
        repeatable(math) ==> r == flow_function(math, total_temp_k, gamma, gas_r),
{
    powf(math, whole(2) / (gamma + whole(1)), (gamma + whole(1)) / (whole(2) * (gamma - whole(1)))) * (gamma / (gas_r
        * total_temp_k)).sqrt()
}

/// [`size_nozzle_area`] in contracts.
pub open spec fn size_nozzle_area_spec<M: Numerics>(
    math: &M,
    mdot_kg_s: F64,
    total_temp_k: F64,
    total_pressure_pa: F64,
    gamma: F64,
    gas_r: F64,
) -> F64 {
    mdot_kg_s / (total_pressure_pa * flow_function(math, total_temp_k, gamma, gas_r)) * dec(108, 2)
}

/// Choked throat area for a design mass flow at total conditions, with an 8% margin (m^2).
#[verifier::when_used_as_spec(size_nozzle_area_spec)]
pub fn size_nozzle_area<M: Numerics>(
    math: &M,
    mdot_kg_s: F64,
    total_temp_k: F64,
    total_pressure_pa: F64,
    gamma: F64,
    gas_r: F64,
) -> (r: F64)
    ensures
        repeatable(math) ==> r == size_nozzle_area(math, mdot_kg_s, total_temp_k, total_pressure_pa, gamma, gas_r),
{
    mdot_kg_s / (total_pressure_pa * flow_function(math, total_temp_k, gamma, gas_r)) * dec(108, 2)
}

/// [`nozzle_capacity_kg_s`] in contracts.
pub open spec fn nozzle_capacity_kg_s_spec<M: Numerics>(
    math: &M,
    total_temp_k: F64,
    total_pressure_pa: F64,
    exit_area_m2: F64,
    gamma: F64,
    gas_r: F64,
) -> F64 {
    total_pressure_pa * exit_area_m2 * flow_function(math, total_temp_k, gamma, gas_r)
}

/// Choked-flow capacity of a fixed area at total conditions (kg/s).
#[verifier::when_used_as_spec(nozzle_capacity_kg_s_spec)]
pub fn nozzle_capacity_kg_s<M: Numerics>(
    math: &M,
    total_temp_k: F64,
    total_pressure_pa: F64,
    exit_area_m2: F64,
    gamma: F64,
    gas_r: F64,
) -> (r: F64)
    ensures
        repeatable(math) ==> r == nozzle_capacity_kg_s(math, total_temp_k, total_pressure_pa, exit_area_m2, gamma, gas_r),
{
    total_pressure_pa * exit_area_m2 * flow_function(math, total_temp_k, gamma, gas_r)
}

/// Compiled air-breather: design point solved, nozzles sized, mass derived.
/// Runtime evaluation is a pure function of flight condition and throttle.
#[derive(Debug, Clone, PartialEq)]
pub struct CompiledAirbreather {
    pub name: String,
    pub cycle: AirCycle,
    pub fuel: JetFuel,
    pub intake_area_m2: F64,
    pub intake: IntakeKind,
    pub compressor_ratio: F64,
    pub bypass_ratio: F64,
    pub fan_pressure_ratio: F64,
    pub turbine_inlet_temp_k: F64,
    pub afterburner: bool,
    pub reheat_temp_k: F64,
    pub design_flow_kg_s: F64,
    /// Design corrected flow (kg/s at standard face conditions).
    pub design_corrected_flow_kg_s: F64,
    pub exit_area_core_m2: F64,
    pub exit_area_fan_m2: F64,
    /// Core throat area (turbojets and fans run convergent, so the throat equals
    /// the exit area).
    pub throat_area_core_m2: F64,
    pub design_static_thrust_n: F64,
    pub design_fuel_flow_kg_s: F64,
    pub design_isp_s: F64,
    pub dry_mass_kg: F64,
    pub spool_tau_s: F64,
    /// Shaft topology (starter and generator mass is booked into `dry_mass_kg`).
    pub shaft: ShaftSpec,
    /// Turbine heat fraction scaled so that the full-throttle design point is an
    /// exact shaft equilibrium (0 without a shaft).
    pub shaft_turbine_frac: F64,
    /// Design turbine shaft capacity before normalization (W, 0 without a shaft).
    pub shaft_reference_power_w: F64,
}

/// Instantaneous air-breathing operating point.
#[derive(Debug, Clone, Copy, PartialEq)]
pub struct AirOperatingPoint {
    pub thrust_n: F64,
    pub fuel_flow_kg_s: F64,
    /// Bulk-fuel portion of `fuel_flow_kg_s` (including reheat fuel).
    pub bulk_fuel_flow_kg_s: F64,
    /// Independently metered coolant or boost-fuel portion of total fuel.
    pub boost_fuel_flow_kg_s: F64,
    pub air_flow_kg_s: F64,
    pub exhaust_temp_k: F64,
    pub exhaust_velocity_mps: F64,
    pub exit_pressure_pa: F64,
    pub exit_mach: F64,
    pub isp_s: F64,
    pub compressor_inlet_total_temp_k: F64,
    pub precooler_heat_flow_w: F64,
    pub precooler_wall_heat_flow_w: F64,
    /// Spool speed this point was evaluated at, or the sustainable equilibrium
    /// that the steady solver found (0 where none exists).
    pub spool_n: F64,
    /// True when the core is actually burning in this point.
    pub lit: bool,
    /// True when the intake cannot supply demanded flow.
    pub air_limited: bool,
    /// True when oxygen (not fuel schedule) caps combustion.
    pub oxygen_limited: bool,
    /// True when the turbine cannot drive compression (flameout region).
    pub drive_limited: bool,
    /// True when inlet total temperature already exceeds the combustor target.
    pub combustion_thermal_limited: bool,
    /// True when a scramjet is below the supersonic-combustor boundary.
    pub scramjet_limited: bool,
    /// True when the fixed nozzle, not the intake, caps flow.
    pub nozzle_limited: bool,
    /// True when a convergent-divergent nozzle separates (overexpanded).
    pub separation_risk: bool,
    /// True when part of the airflow came from the spool-scaled suction floor.
    pub suction_assisted: bool,
    /// True when the afterburner is lit.
    pub reheat_active: bool,
    /// True when oxygen caps the reheat.
    pub reheat_limited: bool,
}

/// [`sea_level_density`] in contracts.
pub open spec fn sea_level_density_spec() -> F64 {
    whole(101_325) / (whole(287) * sea_level_temp_k())
}

/// Air density at sea level by the air gas constant (kg/m^3).
#[verifier::when_used_as_spec(sea_level_density_spec)]
pub fn sea_level_density() -> (r: F64)
    ensures
        r == sea_level_density(),
{
    whole(101_325) / (whole(287) * sea_level_temp_k())
}

/// [`sea_level_sound`] in contracts.
pub open spec fn sea_level_sound_spec() -> F64 {
    (air_gamma() * whole(287) * sea_level_temp_k()).sqrt()
}

/// Speed of sound at sea level (m/s).
#[verifier::when_used_as_spec(sea_level_sound_spec)]
pub fn sea_level_sound() -> (r: F64)
    ensures
        r == sea_level_sound(),
{
    (air_gamma() * whole(287) * sea_level_temp_k()).sqrt()
}

/// [`scramjet_design_altitude_m`] in contracts.
pub open spec fn scramjet_design_altitude_m_spec() -> F64 {
    whole(20_000)
}

/// Altitude at which scramjets are designed (m).
#[verifier::when_used_as_spec(scramjet_design_altitude_m_spec)]
pub fn scramjet_design_altitude_m() -> (r: F64)
    ensures
        r == scramjet_design_altitude_m(),
{
    whole(20_000)
}

/// [`scramjet_design_mach`] in contracts.
pub open spec fn scramjet_design_mach_spec() -> F64 {
    whole(6)
}

/// Multiple of the speed of sound at which scramjets are designed.
#[verifier::when_used_as_spec(scramjet_design_mach_spec)]
pub fn scramjet_design_mach() -> (r: F64)
    ensures
        r == scramjet_design_mach(),
{
    whole(6)
}

impl AirbreathingSpec {
    /// The design condition: sea-level static for turbojets and fans, Mach 2 at sea
    /// level for ramjets, and for scramjets [`scramjet_design_mach`] times the speed of
    /// sound at [`scramjet_design_altitude_m`]. Passive cycles have no
    /// static flow point to design on.
    pub open spec fn design_condition(&self, reference: &AirReference) -> Result<FlightCondition, Fault> {
        match self.cycle {
            AirCycle::Ramjet => Ok(
                FlightCondition {
                    mach: whole(2),
                    ambient_pa: whole(101_325),
                    ambient_temp_k: sea_level_temp_k(),
                    airspeed_mps: whole(2) * sea_level_sound(),
                    composition: reference.earth_air,
                },
            ),
            AirCycle::Scramjet => match reference.scramjet_sample {
                Err(reason) => Err(Fault::InvalidSpec("scramjet design atmosphere: "@ + reason@)),
                Ok(sample) => condition_of(sample, scramjet_design_mach() * sample.speed_of_sound_mps, reference.scramjet_mach),
            },
            _ => Ok(
                FlightCondition {
                    mach: zero(),
                    ambient_pa: whole(101_325),
                    ambient_temp_k: sea_level_temp_k(),
                    airspeed_mps: zero(),
                    composition: reference.earth_air,
                },
            ),
        }
    }

    fn find_design_condition(&self, reference: &AirReference) -> (r: Result<FlightCondition, PropulsionError>)
        ensures
            seen(r) == self.design_condition(reference),
    {
        match self.cycle {
            AirCycle::Ramjet => Ok(
                FlightCondition {
                    mach: whole(2),
                    ambient_pa: whole(101_325),
                    ambient_temp_k: sea_level_temp_k(),
                    airspeed_mps: whole(2) * sea_level_sound(),
                    composition: reference.earth_air,
                },
            ),
            AirCycle::Scramjet => match &reference.scramjet_sample {
                Err(reason) => Err(PropulsionError::InvalidSpec(join("scramjet design atmosphere: ", reason.as_str()))),
                Ok(sample) => flight_condition(sample, scramjet_design_mach() * sample.speed_of_sound_mps, reference.scramjet_mach),
            },
            _ => Ok(
                FlightCondition {
                    mach: zero(),
                    ambient_pa: whole(101_325),
                    ambient_temp_k: sea_level_temp_k(),
                    airspeed_mps: zero(),
                    composition: reference.earth_air,
                },
            ),
        }
    }

    /// [`Self::design_flow_kg_s`] in contracts.
    pub open spec fn design_flow_kg_s_spec(&self, design: &FlightCondition) -> F64 {
        match self.cycle {
            AirCycle::Ramjet => sea_level_density() * self.intake_area_m2 * design.airspeed_mps,
            AirCycle::Scramjet => design.ambient_pa / (whole(287) * design.ambient_temp_k) * self.intake_area_m2
                * design.airspeed_mps,
            _ => sea_level_density() * self.intake_area_m2 * intake_design_capture_mach() * sea_level_sound(),
        }
    }

    /// Design air flow (kg/s).
    #[verifier::when_used_as_spec(design_flow_kg_s_spec)]
    pub fn design_flow_kg_s(&self, design: &FlightCondition) -> (r: F64)
        ensures
            r == self.design_flow_kg_s(design),
    {
        match self.cycle {
            AirCycle::Ramjet => sea_level_density() * self.intake_area_m2 * design.airspeed_mps,
            AirCycle::Scramjet => design.ambient_pa / (whole(287) * design.ambient_temp_k) * self.intake_area_m2
                * design.airspeed_mps,
            _ => sea_level_density() * self.intake_area_m2 * intake_design_capture_mach() * sea_level_sound(),
        }
    }

    /// [`Self::design_corrected_flow_kg_s`] in contracts.
    pub open spec fn design_corrected_flow_kg_s_spec<M: Numerics>(&self, math: &M, design: &FlightCondition) -> F64 {
        let ram = whole(1) + (air_gamma() - whole(1)) / whole(2) * design.mach * design.mach;
        let design_delta = design.ambient_pa * powf(math, ram, air_gamma() / (air_gamma() - whole(1))) * self.intake.recovery(
            math,
            design.mach,
        ) / whole(101_325);
        let design_theta = ram * design.ambient_temp_k / sea_level_temp_k();
        self.design_flow_kg_s(design) * design_theta.sqrt() / design_delta.max(dec(1, 9))
    }

    /// Design corrected flow: mass flow at standard face conditions (kg/s).
    #[verifier::when_used_as_spec(design_corrected_flow_kg_s_spec)]
    pub fn design_corrected_flow_kg_s<M: Numerics>(&self, math: &M, design: &FlightCondition) -> (r: F64)
        ensures
            repeatable(math) ==> r == self.design_corrected_flow_kg_s(math, design),
    {
        let ram = whole(1) + (air_gamma() - whole(1)) / whole(2) * design.mach * design.mach;
        let design_delta = design.ambient_pa * powf(math, ram, air_gamma() / (air_gamma() - whole(1))) * self.intake.recovery(
            math,
            design.mach,
        ) / whole(101_325);
        let design_theta = ram * design.ambient_temp_k / sea_level_temp_k();
        self.design_flow_kg_s(design) * design_theta.sqrt() / design_delta.max(dec(1, 9))
    }

    /// [`Self::design_drive`] in contracts.
    pub open spec fn design_drive_spec<M: Numerics>(&self, math: &M, design: &FlightCondition) -> CycleDriveInput {
        CycleDriveInput {
            spool_n: whole(1),
            ignition: true,
            corrected_flow_kg_s: Some(self.design_corrected_flow_kg_s(math, design)),
            power_takeoff_w: zero(),
            power_takeoff_heat_fraction: self.shaft.power_turbine_heat_fraction,
            conditioning: None,
        }
    }

    /// The drive of the design run: full spool, lit, no load.
    #[verifier::when_used_as_spec(design_drive_spec)]
    pub fn design_drive<M: Numerics>(&self, math: &M, design: &FlightCondition) -> (r: CycleDriveInput)
        ensures
            repeatable(math) ==> r == self.design_drive(math, design),
    {
        CycleDriveInput {
            spool_n: whole(1),
            ignition: true,
            corrected_flow_kg_s: Some(self.design_corrected_flow_kg_s(math, design)),
            power_takeoff_w: zero(),
            power_takeoff_heat_fraction: self.shaft.power_turbine_heat_fraction,
            conditioning: None,
        }
    }

    /// [`Self::raw_capacity_w`] in contracts.
    pub open spec fn raw_capacity_w_spec(&self, state: &CycleState) -> F64 {
        self.shaft.turbine_heat_fraction * state.fuel_flow_kg_s * combustor_efficiency() * self.fuel.properties().0
    }

    /// Turbine shaft capacity of the design state before normalization (W).
    #[verifier::when_used_as_spec(raw_capacity_w_spec)]
    pub fn raw_capacity_w(&self, state: &CycleState) -> (r: F64)
        ensures
            r == self.raw_capacity_w(state),
    {
        self.shaft.turbine_heat_fraction * state.fuel_flow_kg_s * combustor_efficiency() * self.fuel.properties().0
    }

    /// [`Self::shaft_frac`] in contracts.
    pub open spec fn shaft_frac_spec(&self, state: &CycleState) -> F64 {
        (state.shaft_demand_w + self.shaft.friction_fraction * self.raw_capacity_w(state)) / self.raw_capacity_w(state)
    }

    /// Shaft normalization that makes the design point an exact equilibrium.
    #[verifier::when_used_as_spec(shaft_frac_spec)]
    pub fn shaft_frac(&self, state: &CycleState) -> (r: F64)
        ensures
            r == self.shaft_frac(state),
    {
        (state.shaft_demand_w + self.shaft.friction_fraction * self.raw_capacity_w(state)) / self.raw_capacity_w(state)
    }

    /// What stops the design state from becoming an engine: a turbine that cannot
    /// drive, a shaft and power turbine that ask for more than the combustor's
    /// heat, a reheat below the turbine exit.
    pub open spec fn state_fault<M: Numerics>(&self, math: &M, state: &CycleState) -> Option<Fault> {
        let first = checks().refuse(
            state.drive_limited,
            unsupported("turbine cannot drive the compressor at the design point"),
        );
        let second = if !self.cycle.has_shaft() {
            first
        } else {
            first
                .refuse(!(self.raw_capacity_w(state) > zero()), unsupported("design point releases no shaft-usable heat"))
                .refuse(
                    !(self.shaft_frac(state) <= (whole(1) - self.shaft.power_turbine_heat_fraction)
                        / self.shaft.turbine_heat_fraction),
                    unsupported(
                        "core shaft and power-turbine demand exceed combustor heat release at the design point",
                    ),
                )
        };
        second.refuse(
            self.afterburner && self.reheat_temp_k <= state.core_total_temp_k,
            kelvins_fault(
                math,
                "reheat "@,
                self.reheat_temp_k,
                " K must exceed design turbine-exit "@,
                state.core_total_temp_k,
                " K"@,
            ),
        ).fault
    }

    fn check_state<M: Numerics>(&self, math: &M, state: &CycleState) -> (r: Result<(), PropulsionError>)
        ensures
            repeatable(math) ==> seen(r) == outcome(self.state_fault(math, state)),
    {
        if state.drive_limited {
            return Err(unsupported_combination("turbine cannot drive the compressor at the design point"));
        }
        if self.cycle.has_shaft() {
            if !(self.raw_capacity_w(state) > zero()) {
                return Err(unsupported_combination("design point releases no shaft-usable heat"));
            }
            let maximum: F64 = (whole(1) - self.shaft.power_turbine_heat_fraction) / self.shaft.turbine_heat_fraction;
            if !(self.shaft_frac(state) <= maximum) {
                return Err(
                    unsupported_combination(
                        "core shaft and power-turbine demand exceed combustor heat release at the design point",
                    ),
                );
            }
        }
        if self.afterburner && self.reheat_temp_k <= state.core_total_temp_k {
            return Err(
                kelvins_error(
                    math,
                    "reheat ",
                    self.reheat_temp_k,
                    " K must exceed design turbine-exit ",
                    state.core_total_temp_k,
                    " K",
                ),
            );
        }
        Ok(())
    }

    /// [`Self::sized`] in contracts.
    pub open spec fn sized_spec<M: Numerics>(
        &self,
        math: &M,
        design: &FlightCondition,
        state: &CycleState,
    ) -> CompiledAirbreather {
        let (_, _, _, gamma_b, r_b, _) = self.fuel.properties();
        let design_flow_kg_s = self.design_flow_kg_s(design);
        let (shaft_turbine_frac, shaft_reference_power_w) = if self.cycle.has_shaft() {
            (self.shaft_frac(state), self.raw_capacity_w(state))
        } else {
            (zero(), zero())
        };
        let mdot_core_hot = state.nozzle_flow_kg_s;
        let throat_area_core_m2 = size_nozzle_area(
            math,
            mdot_core_hot,
            state.core_total_temp_k,
            state.core_total_pressure_pa,
            gamma_b,
            r_b,
        );
        let exit_area_core_m2 = match self.cycle {
            AirCycle::Ramjet | AirCycle::Scramjet => {
                let cp_b = gamma_b * r_b / (gamma_b - whole(1));
                adapted_exit_area(
                    math,
                    mdot_core_hot,
                    state.core_total_temp_k,
                    state.core_total_pressure_pa,
                    design.ambient_pa,
                    gamma_b,
                    r_b,
                    cp_b,
                )
            },
            _ => throat_area_core_m2,
        };
        let mdot_fan = state.mdot_air_kg_s - state.mdot_core_kg_s;
        let exit_area_fan_m2 = if mdot_fan > zero() {
            size_nozzle_area(math, mdot_fan, state.fan_total_temp_k, state.fan_total_pressure_pa, air_gamma(), whole(287))
        } else {
            zero()
        };
        let core = convergent_nozzle(
            math,
            mdot_core_hot,
            state.core_total_temp_k,
            state.core_total_pressure_pa,
            exit_area_core_m2,
            gamma_b,
            r_b,
            design.ambient_pa,
        );
        let fan = convergent_nozzle(
            math,
            mdot_fan,
            state.fan_total_temp_k,
            state.fan_total_pressure_pa,
            exit_area_fan_m2,
            air_gamma(),
            whole(287),
            design.ambient_pa,
        );
        let design_static_thrust_n = core.thrust_gross_n + fan.thrust_gross_n - state.mdot_air_kg_s * design.airspeed_mps;
        let design_fuel = state.fuel_flow_kg_s + state.fuel_ab_flow_kg_s;
        // Mass from design flow and geometry.
        let bypass = match self.cycle {
            AirCycle::Turbofan => self.bypass_ratio,
            _ => zero(),
        };
        let compressor_kg = match self.cycle {
            AirCycle::Ramjet | AirCycle::Scramjet => zero(),
            _ => mass_fit_compressor() * design_flow_kg_s * self.compressor_ratio,
        };
        let turbine_kg = match self.cycle {
            AirCycle::Ramjet | AirCycle::Scramjet => zero(),
            _ => mass_fit_turbine() * design_flow_kg_s * self.compressor_ratio,
        };
        let combustor_kg = mass_fit_combustor() * powf(math, design_flow_kg_s, dec(7, 1));
        let intake_kg = mass_fit_intake() * self.intake_area_m2 * self.intake.mass_factor();
        let nozzle_kg = mass_fit_nozzle() * (exit_area_core_m2 + exit_area_fan_m2);
        let ab_kg = if self.afterburner {
            mass_fit_afterburner() * exit_area_core_m2
        } else {
            zero()
        };
        let fan_area_m2 = if bypass > zero() {
            bypass * design_flow_kg_s / (whole(1) + bypass) / (sea_level_density() * sea_level_sound() * dec(45, 2))
        } else {
            zero()
        };
        let fan_kg = mass_fit_fan() * fan_area_m2;
        let misc_kg = whole(150) + whole(50) * (whole(1) + bypass);
        let shaft_kg = self.shaft.starter.mass_kg + self.shaft.generator.mass_kg;
        let dry_mass_kg = compressor_kg + turbine_kg + combustor_kg + intake_kg + nozzle_kg + ab_kg + fan_kg + shaft_kg
            + misc_kg;
        CompiledAirbreather {
            name: copied(&self.name),
            cycle: self.cycle,
            fuel: self.fuel,
            intake_area_m2: self.intake_area_m2,
            intake: self.intake,
            compressor_ratio: self.compressor_ratio,
            bypass_ratio: bypass,
            fan_pressure_ratio: self.fan_pressure_ratio,
            turbine_inlet_temp_k: self.turbine_inlet_temp_k,
            afterburner: self.afterburner,
            reheat_temp_k: self.reheat_temp_k,
            design_flow_kg_s,
            design_corrected_flow_kg_s: self.design_corrected_flow_kg_s(math, design),
            exit_area_core_m2,
            exit_area_fan_m2,
            throat_area_core_m2,
            design_static_thrust_n,
            design_fuel_flow_kg_s: design_fuel,
            design_isp_s: if design_fuel > zero() {
                design_static_thrust_n / (design_fuel * standard_gravity_mps2())
            } else {
                zero()
            },
            dry_mass_kg,
            spool_tau_s: self.spool_tau_s,
            shaft: self.shaft,
            shaft_turbine_frac,
            shaft_reference_power_w,
        }
    }

    /// The engine sized on its design state.
    #[verifier::when_used_as_spec(sized_spec)]
    pub fn sized<M: Numerics>(&self, math: &M, design: &FlightCondition, state: &CycleState) -> (r: CompiledAirbreather)
        ensures
            repeatable(math) ==> r == self.sized(math, design, state),
    {
        let (_, _, _, gamma_b, r_b, _) = self.fuel.properties();
        let design_flow_kg_s = self.design_flow_kg_s(design);
        let (shaft_turbine_frac, shaft_reference_power_w) = if self.cycle.has_shaft() {
            (self.shaft_frac(state), self.raw_capacity_w(state))
        } else {
            (zero(), zero())
        };
        let mdot_core_hot = state.nozzle_flow_kg_s;
        let throat_area_core_m2 = size_nozzle_area(
            math,
            mdot_core_hot,
            state.core_total_temp_k,
            state.core_total_pressure_pa,
            gamma_b,
            r_b,
        );
        let exit_area_core_m2 = match self.cycle {
            AirCycle::Ramjet | AirCycle::Scramjet => {
                let cp_b = gamma_b * r_b / (gamma_b - whole(1));
                adapted_exit_area(
                    math,
                    mdot_core_hot,
                    state.core_total_temp_k,
                    state.core_total_pressure_pa,
                    design.ambient_pa,
                    gamma_b,
                    r_b,
                    cp_b,
                )
            },
            _ => throat_area_core_m2,
        };
        let mdot_fan = state.mdot_air_kg_s - state.mdot_core_kg_s;
        let exit_area_fan_m2 = if mdot_fan > zero() {
            size_nozzle_area(math, mdot_fan, state.fan_total_temp_k, state.fan_total_pressure_pa, air_gamma(), whole(287))
        } else {
            zero()
        };
        let core = convergent_nozzle(
            math,
            mdot_core_hot,
            state.core_total_temp_k,
            state.core_total_pressure_pa,
            exit_area_core_m2,
            gamma_b,
            r_b,
            design.ambient_pa,
        );
        let fan = convergent_nozzle(
            math,
            mdot_fan,
            state.fan_total_temp_k,
            state.fan_total_pressure_pa,
            exit_area_fan_m2,
            air_gamma(),
            whole(287),
            design.ambient_pa,
        );
        let design_static_thrust_n = core.thrust_gross_n + fan.thrust_gross_n - state.mdot_air_kg_s * design.airspeed_mps;
        let design_fuel = state.fuel_flow_kg_s + state.fuel_ab_flow_kg_s;
        // Mass from design flow and geometry.
        let bypass = match self.cycle {
            AirCycle::Turbofan => self.bypass_ratio,
            _ => zero(),
        };
        let compressor_kg = match self.cycle {
            AirCycle::Ramjet | AirCycle::Scramjet => zero(),
            _ => mass_fit_compressor() * design_flow_kg_s * self.compressor_ratio,
        };
        let turbine_kg = match self.cycle {
            AirCycle::Ramjet | AirCycle::Scramjet => zero(),
            _ => mass_fit_turbine() * design_flow_kg_s * self.compressor_ratio,
        };
        let combustor_kg = mass_fit_combustor() * powf(math, design_flow_kg_s, dec(7, 1));
        let intake_kg = mass_fit_intake() * self.intake_area_m2 * self.intake.mass_factor();
        let nozzle_kg = mass_fit_nozzle() * (exit_area_core_m2 + exit_area_fan_m2);
        let ab_kg = if self.afterburner {
            mass_fit_afterburner() * exit_area_core_m2
        } else {
            zero()
        };
        let fan_area_m2 = if bypass > zero() {
            bypass * design_flow_kg_s / (whole(1) + bypass) / (sea_level_density() * sea_level_sound() * dec(45, 2))
        } else {
            zero()
        };
        let fan_kg = mass_fit_fan() * fan_area_m2;
        let misc_kg = whole(150) + whole(50) * (whole(1) + bypass);
        let shaft_kg = self.shaft.starter.mass_kg + self.shaft.generator.mass_kg;
        let dry_mass_kg = compressor_kg + turbine_kg + combustor_kg + intake_kg + nozzle_kg + ab_kg + fan_kg + shaft_kg
            + misc_kg;
        CompiledAirbreather {
            name: copied(&self.name),
            cycle: self.cycle,
            fuel: self.fuel,
            intake_area_m2: self.intake_area_m2,
            intake: self.intake,
            compressor_ratio: self.compressor_ratio,
            bypass_ratio: bypass,
            fan_pressure_ratio: self.fan_pressure_ratio,
            turbine_inlet_temp_k: self.turbine_inlet_temp_k,
            afterburner: self.afterburner,
            reheat_temp_k: self.reheat_temp_k,
            design_flow_kg_s,
            design_corrected_flow_kg_s: self.design_corrected_flow_kg_s(math, design),
            exit_area_core_m2,
            exit_area_fan_m2,
            throat_area_core_m2,
            design_static_thrust_n,
            design_fuel_flow_kg_s: design_fuel,
            design_isp_s: if design_fuel > zero() {
                design_static_thrust_n / (design_fuel * standard_gravity_mps2())
            } else {
                zero()
            },
            dry_mass_kg,
            spool_tau_s: self.spool_tau_s,
            shaft: self.shaft,
            shaft_turbine_frac,
            shaft_reference_power_w,
        }
    }

    /// The engine of a design condition, or what stops it.
    pub open spec fn designed<M: Numerics>(
        &self,
        math: &M,
        design: &FlightCondition,
    ) -> Result<CompiledAirbreather, Fault> {
        match cycle_state(
            math,
            &self.dry(),
            self.fuel.properties(),
            design,
            self.turbine_inlet_temp_k,
            &self.design_drive(math, design),
        ) {
            Err(fault) => Err(fault),
            Ok(state) => match self.state_fault(math, &state) {
                Some(fault) => Err(fault),
                None => {
                    let engine = self.sized(math, design, &state);
                    if engine.exit_area_core_m2 < engine.throat_area_core_m2 {
                        Err(
                            unsupported(
                                "design point overexpands the passive-cycle nozzle; pick a faster design Mach",
                            ),
                        )
                    } else {
                        Ok(engine)
                    }
                },
            },
        }
    }

    /// The compiled engine, or what stops it.
    pub open spec fn compiled<M: Numerics>(
        &self,
        math: &M,
        reference: &AirReference,
    ) -> Result<CompiledAirbreather, Fault> {
        match self.fault(math, seen(reference.shaft_verdict)) {
            Some(fault) => Err(fault),
            None => match self.design_condition(reference) {
                Err(fault) => Err(fault),
                Ok(design) => self.designed(math, &design),
            },
        }
    }

    /// Compiles the engine: solves the design point, sizes the nozzles, derives
    /// mass. The design run is always dry, because reheat is a throttle-gated mode.
    pub fn compile<M: Numerics>(
        &self,
        math: &M,
        reference: &AirReference,
    ) -> (r: Result<CompiledAirbreather, PropulsionError>)
        ensures
            repeatable(math) ==> seen(r) == self.compiled(math, reference),
            self.fault(math, seen(reference.shaft_verdict)) is Some ==> r is Err,
    {
        self.validate(math, &reference.shaft_verdict)?;
        let design: FlightCondition = self.find_design_condition(reference)?;
        let drive: CycleDriveInput = self.design_drive(math, &design);
        let state: CycleState = run_cycle(
            math,
            &self.dry(),
            self.fuel.properties(),
            &design,
            self.turbine_inlet_temp_k,
            &drive,
        )?;
        self.check_state(math, &state)?;
        let engine: CompiledAirbreather = self.sized(math, &design, &state);
        if engine.exit_area_core_m2 < engine.throat_area_core_m2 {
            return Err(
                unsupported_combination("design point overexpands the passive-cycle nozzle; pick a faster design Mach"),
            );
        }
        Ok(engine)
    }
}

/// A throttle command outside `[0, 1]`.
pub open spec fn throttle_fault(throttle: F64) -> Option<Fault> {
    if !in_unit_interval(throttle) {
        Some(bad_command("throttle must be finite in [0, 1]"))
    } else {
        None
    }
}

/// [`off_point`] in contracts.
pub open spec fn off_point_spec(condition: &FlightCondition, spool_n: F64) -> AirOperatingPoint {
    AirOperatingPoint {
        thrust_n: zero(),
        fuel_flow_kg_s: zero(),
        bulk_fuel_flow_kg_s: zero(),
        boost_fuel_flow_kg_s: zero(),
        air_flow_kg_s: zero(),
        exhaust_temp_k: condition.ambient_temp_k,
        exhaust_velocity_mps: zero(),
        exit_pressure_pa: condition.ambient_pa,
        exit_mach: zero(),
        isp_s: zero(),
        compressor_inlet_total_temp_k: condition.ambient_temp_k,
        precooler_heat_flow_w: zero(),
        precooler_wall_heat_flow_w: zero(),
        spool_n,
        lit: false,
        air_limited: false,
        oxygen_limited: false,
        drive_limited: false,
        combustion_thermal_limited: false,
        scramjet_limited: false,
        nozzle_limited: false,
        separation_risk: false,
        suction_assisted: false,
        reheat_active: false,
        reheat_limited: false,
    }
}

/// The point of an engine that does not run.
#[verifier::when_used_as_spec(off_point_spec)]
pub fn off_point(condition: &FlightCondition, spool_n: F64) -> (r: AirOperatingPoint)
    ensures
        r == off_point(condition, spool_n),
{
    AirOperatingPoint {
        thrust_n: zero(),
        fuel_flow_kg_s: zero(),
        bulk_fuel_flow_kg_s: zero(),
        boost_fuel_flow_kg_s: zero(),
        air_flow_kg_s: zero(),
        exhaust_temp_k: condition.ambient_temp_k,
        exhaust_velocity_mps: zero(),
        exit_pressure_pa: condition.ambient_pa,
        exit_mach: zero(),
        isp_s: zero(),
        compressor_inlet_total_temp_k: condition.ambient_temp_k,
        precooler_heat_flow_w: zero(),
        precooler_wall_heat_flow_w: zero(),
        spool_n,
        lit: false,
        air_limited: false,
        oxygen_limited: false,
        drive_limited: false,
        combustion_thermal_limited: false,
        scramjet_limited: false,
        nozzle_limited: false,
        separation_risk: false,
        suction_assisted: false,
        reheat_active: false,
        reheat_limited: false,
    }
}

/// What becomes of precooling in one round of matching.
pub enum Precooling {
    /// The inlet temperature agrees with the heat taken.
    Matched,
    /// The inlet temperature to run the cycle at next.
    Rerun(F64),
}

impl CompiledAirbreather {
    /// [`Self::scheduled_temp_k`] in contracts.
    pub open spec fn scheduled_temp_k_spec(&self, throttle: F64) -> F64 {
        self.turbine_inlet_temp_k * (dec(55, 2) + dec(45, 2) * throttle)
    }

    /// Turbine temperature schedule at a throttle (K).
    #[verifier::when_used_as_spec(scheduled_temp_k_spec)]
    pub fn scheduled_temp_k(&self, throttle: F64) -> (r: F64)
        ensures
            r == self.scheduled_temp_k(throttle),
    {
        self.turbine_inlet_temp_k * (dec(55, 2) + dec(45, 2) * throttle)
    }

    /// [`Self::reheats`] in contracts.
    pub open spec fn reheats_spec(&self, throttle: F64) -> bool {
        self.afterburner && throttle >= dec(9, 1)
    }

    /// Whether the afterburner is on at a throttle.
    #[verifier::when_used_as_spec(reheats_spec)]
    pub fn reheats(&self, throttle: F64) -> (r: bool)
        ensures
            r == self.reheats(throttle),
    {
        self.afterburner && throttle >= dec(9, 1)
    }

    /// [`Self::effective_spec`] in contracts.
    pub open spec fn effective_spec_spec(&self, throttle: F64) -> AirbreathingSpec {
        AirbreathingSpec {
            name: copied(&self.name),
            cycle: self.cycle,
            fuel: self.fuel,
            intake_area_m2: self.intake_area_m2,
            intake: self.intake,
            compressor_ratio: self.compressor_ratio,
            bypass_ratio: self.bypass_ratio,
            fan_pressure_ratio: self.fan_pressure_ratio,
            turbine_inlet_temp_k: self.scheduled_temp_k(throttle),
            afterburner: self.reheats(throttle),
            reheat_temp_k: self.reheat_temp_k,
            turbine_material: ChamberMaterial::nickel_superalloy(),
            spool_tau_s: self.spool_tau_s,
            shaft: self.shaft,
        }
    }

    /// Part-power specification at a commanded throttle: temperature and reheat
    /// follow the throttle, pressure and flow follow spool speed in the cycle.
    #[verifier::when_used_as_spec(effective_spec_spec)]
    pub fn effective_spec(&self, throttle: F64) -> (r: AirbreathingSpec)
        ensures
            r == self.effective_spec(throttle),
    {
        AirbreathingSpec {
            name: copied(&self.name),
            cycle: self.cycle,
            fuel: self.fuel,
            intake_area_m2: self.intake_area_m2,
            intake: self.intake,
            compressor_ratio: self.compressor_ratio,
            bypass_ratio: self.bypass_ratio,
            fan_pressure_ratio: self.fan_pressure_ratio,
            turbine_inlet_temp_k: self.scheduled_temp_k(throttle),
            afterburner: self.reheats(throttle),
            reheat_temp_k: self.reheat_temp_k,
            turbine_material: ChamberMaterial::nickel_superalloy(),
            spool_tau_s: self.spool_tau_s,
            shaft: self.shaft,
        }
    }

    /// [`Self::drive`] in contracts.
    pub open spec fn drive_spec(
        &self,
        spool_n: F64,
        ignition: bool,
        power_takeoff_w: F64,
        conditioning: Option<AirCycleConditioning>,
    ) -> CycleDriveInput {
        CycleDriveInput {
            spool_n,
            ignition,
            corrected_flow_kg_s: Some(self.design_corrected_flow_kg_s),
            power_takeoff_w,
            power_takeoff_heat_fraction: self.shaft.power_turbine_heat_fraction,
            conditioning,
        }
    }

    /// The drive of the core at a spool speed.
    #[verifier::when_used_as_spec(drive_spec)]
    pub fn drive(
        &self,
        spool_n: F64,
        ignition: bool,
        power_takeoff_w: F64,
        conditioning: Option<AirCycleConditioning>,
    ) -> (r: CycleDriveInput)
        ensures
            r == self.drive(spool_n, ignition, power_takeoff_w, conditioning),
    {
        CycleDriveInput {
            spool_n,
            ignition,
            corrected_flow_kg_s: Some(self.design_corrected_flow_kg_s),
            power_takeoff_w,
            power_takeoff_heat_fraction: self.shaft.power_turbine_heat_fraction,
            conditioning,
        }
    }

    /// The core at a throttle, or what stops it.
    pub open spec fn cycle_at<M: Numerics>(
        &self,
        math: &M,
        condition: &FlightCondition,
        throttle: F64,
        drive: &CycleDriveInput,
    ) -> Result<
        CycleState,
        Fault,
    > {
        cycle_state(
            math,
            &self.effective_spec(throttle),
            self.fuel.properties(),
            condition,
            self.scheduled_temp_k(throttle),
            drive,
        )
    }

    fn run_at<M: Numerics>(
        &self,
        math: &M,
        condition: &FlightCondition,
        throttle: F64,
        drive: &CycleDriveInput,
    ) -> (r: Result<
        CycleState,
        PropulsionError,
    >)
        ensures
            repeatable(math) ==> seen(r) == self.cycle_at(math, condition, throttle, drive),
    {
        run_cycle(
            math,
            &self.effective_spec(throttle),
            self.fuel.properties(),
            condition,
            self.scheduled_temp_k(throttle),
            drive,
        )
    }

    /// [`Self::balance_from_state`] in contracts.
    pub open spec fn balance_from_state_spec<M: Numerics>(
        &self,
        math: &M,
        state: &CycleState,
        spool_n: F64,
        ignition: bool,
    ) -> ShaftBalance {
        ShaftBalance {
            demand_w: state.shaft_demand_w,
            capacity_w: if ignition {
                self.shaft_turbine_frac * self.shaft.turbine_heat_fraction * state.combustor_heat_release_w
            } else {
                zero()
            },
            power_takeoff_capacity_w: if ignition {
                state.power_takeoff_capacity_w
            } else {
                zero()
            },
            friction_w: self.shaft.friction_fraction * self.shaft_reference_power_w * powi(math, spool_n, 3),
        }
    }

    /// Shaft balance of a cycle state. Demand and friction cost rotation whether or
    /// not the core burns; capacity exists only with ignition.
    #[verifier::when_used_as_spec(balance_from_state_spec)]
    pub fn balance_from_state<M: Numerics>(
        &self,
        math: &M,
        state: &CycleState,
        spool_n: F64,
        ignition: bool,
    ) -> (r: ShaftBalance)
        ensures
            repeatable(math) ==> r == self.balance_from_state(math, state, spool_n, ignition),
    {
        ShaftBalance {
            demand_w: state.shaft_demand_w,
            capacity_w: if ignition {
                self.shaft_turbine_frac * self.shaft.turbine_heat_fraction * state.combustor_heat_release_w
            } else {
                zero()
            },
            power_takeoff_capacity_w: if ignition {
                state.power_takeoff_capacity_w
            } else {
                zero()
            },
            friction_w: self.shaft.friction_fraction * self.shaft_reference_power_w * powi(math, spool_n, 3),
        }
    }

    /// [`Self::precooling_round`] in contracts.
    pub open spec fn precooling_round_spec(
        &self,
        condition: &FlightCondition,
        state: &CycleState,
        inlet_temp_k: F64,
    ) -> Precooling {
        let ram_temp = condition.ambient_temp_k * (whole(1) + (air_gamma() - whole(1)) * dec(5, 1) * condition.mach
            * condition.mach);
        let actual_coolant_heat_w = (state.precooler_heat_flow_w - state.precooler_wall_heat_flow_w).max(zero());
        let air_capacity_w_k = state.mdot_air_kg_s * air_cp_j_kg_k();
        if air_capacity_w_k <= zero() {
            Precooling::Matched
        } else {
            let actual_inlet_temp_k = (ram_temp - (actual_coolant_heat_w + state.precooler_wall_heat_flow_w)
                / air_capacity_w_k).max(whole(1));
            if (inlet_temp_k - actual_inlet_temp_k).abs() <= dec(1, 6) * actual_inlet_temp_k.max(whole(1)) {
                Precooling::Matched
            } else {
                Precooling::Rerun(dec(5, 1) * (inlet_temp_k + actual_inlet_temp_k))
            }
        }
    }

    /// One round of matching a precooled inlet to the heat that the combustor
    /// actually accepts, so that the compressor keeps no unpowered precooling.
    #[verifier::when_used_as_spec(precooling_round_spec)]
    pub fn precooling_round(
        &self,
        condition: &FlightCondition,
        state: &CycleState,
        inlet_temp_k: F64,
    ) -> (r: Precooling)
        ensures
            r == self.precooling_round(condition, state, inlet_temp_k),
    {
        let ram_temp = condition.ambient_temp_k * (whole(1) + (air_gamma() - whole(1)) * dec(5, 1) * condition.mach
            * condition.mach);
        let actual_coolant_heat_w = (state.precooler_heat_flow_w - state.precooler_wall_heat_flow_w).max(zero());
        let air_capacity_w_k = state.mdot_air_kg_s * air_cp_j_kg_k();
        if air_capacity_w_k <= zero() {
            Precooling::Matched
        } else {
            let actual_inlet_temp_k = (ram_temp - (actual_coolant_heat_w + state.precooler_wall_heat_flow_w)
                / air_capacity_w_k).max(whole(1));
            if (inlet_temp_k - actual_inlet_temp_k).abs() <= dec(1, 6) * actual_inlet_temp_k.max(whole(1)) {
                Precooling::Matched
            } else {
                Precooling::Rerun(dec(5, 1) * (inlet_temp_k + actual_inlet_temp_k))
            }
        }
    }

    /// The cycle state after at most `rounds` rounds of matching the precooling.
    pub open spec fn matched_state<M: Numerics>(
        &self,
        math: &M,
        condition: &FlightCondition,
        throttle: F64,
        drive: CycleDriveInput,
        current: AirCycleConditioning,
        state: CycleState,
        rounds: nat,
    ) -> Result<CycleState, Fault>
        decreases rounds,
    {
        if rounds == 0 {
            Ok(state)
        } else {
            match self.precooling_round(condition, &state, current.compressor_inlet_total_temp_k) {
                Precooling::Matched => Ok(state),
                Precooling::Rerun(temp_k) => {
                    let next = AirCycleConditioning { compressor_inlet_total_temp_k: temp_k, ..current };
                    match self.cycle_at(
                        math,
                        condition,
                        throttle,
                        &CycleDriveInput { conditioning: Some(next), ..drive },
                    ) {
                        Err(fault) => Err(fault),
                        Ok(again) => self.matched_state(
                            math,
                            condition,
                            throttle,
                            drive,
                            next,
                            again,
                            (rounds - 1) as nat,
                        ),
                    }
                },
            }
        }
    }

    /// The cycle state at a drive, with any precooling matched.
    pub open spec fn settled_state<M: Numerics>(
        &self,
        math: &M,
        condition: &FlightCondition,
        throttle: F64,
        drive: CycleDriveInput,
    ) -> Result<CycleState, Fault> {
        match self.cycle_at(math, condition, throttle, &drive) {
            Err(fault) => Err(fault),
            Ok(state) => match drive.conditioning {
                Some(input) if input.coolant_heat_flow_w > zero() && input.boost_fuel_flow_kg_s > zero() =>
                self.matched_state(math, condition, throttle, drive, input, state, 16),
                _ => Ok(state),
            },
        }
    }

    fn match_precooling<M: Numerics>(
        &self,
        math: &M,
        condition: &FlightCondition,
        throttle: F64,
        drive: CycleDriveInput,
        input: AirCycleConditioning,
        first: CycleState,
    ) -> (r: Result<CycleState, PropulsionError>)
        ensures
            repeatable(math) ==> seen(r) == self.matched_state(math, condition, throttle, drive, input, first, 16),
    {
        let mut current: AirCycleConditioning = input;
        let mut state: CycleState = first;
        let mut rounds: u32 = 16;
        while rounds > 0
            invariant
                rounds <= 16,
                repeatable(math) ==> self.matched_state(math, condition, throttle, drive, input, first, 16)
                    == self.matched_state(math, condition, throttle, drive, current, state, rounds as nat),
            decreases rounds,
        {
            match self.precooling_round(condition, &state, current.compressor_inlet_total_temp_k) {
                Precooling::Matched => {
                    return Ok(state);
                },
                Precooling::Rerun(temp_k) => {
                    current.compressor_inlet_total_temp_k = temp_k;
                    let mut next: CycleDriveInput = drive;
                    next.conditioning = Some(current);
                    state = self.run_at(math, condition, throttle, &next)?;
                    rounds = rounds - 1;
                },
            }
        }
        Ok(state)
    }

    fn settle_state<M: Numerics>(
        &self,
        math: &M,
        condition: &FlightCondition,
        throttle: F64,
        drive: CycleDriveInput,
    ) -> (r: Result<
        CycleState,
        PropulsionError,
    >)
        ensures
            repeatable(math) ==> seen(r) == self.settled_state(math, condition, throttle, drive),
    {
        let state: CycleState = self.run_at(math, condition, throttle, &drive)?;
        match drive.conditioning {
            Some(input) => if input.coolant_heat_flow_w > zero() && input.boost_fuel_flow_kg_s > zero() {
                self.match_precooling(math, condition, throttle, drive, input, state)
            } else {
                Ok(state)
            },
            None => Ok(state),
        }
    }

    /// [`Self::suction_assisted`] in contracts.
    pub open spec fn suction_assisted_spec(&self, condition: &FlightCondition, spool_n: F64, mdot_air: F64) -> bool {
        let sound_speed_mps = (air_gamma() * whole(287) * condition.ambient_temp_k).sqrt();
        let suction_floor_mps = if self.cycle.is_passive() {
            zero()
        } else {
            intake_design_capture_mach() * sound_speed_mps * spool_n
        };
        let ram_only_kg_s = condition.ambient_pa / (whole(287) * condition.ambient_temp_k) * self.intake_area_m2
            * condition.airspeed_mps;
        suction_floor_mps > zero() && condition.airspeed_mps < suction_floor_mps && mdot_air > ram_only_kg_s + dec(1, 9)
    }

    /// Whether an air flow runs on the suction floor at a spool speed.
    #[verifier::when_used_as_spec(suction_assisted_spec)]
    pub fn suction_assisted(&self, condition: &FlightCondition, spool_n: F64, mdot_air: F64) -> (r: bool)
        ensures
            r == self.suction_assisted(condition, spool_n, mdot_air),
    {
        let sound_speed_mps = (air_gamma() * whole(287) * condition.ambient_temp_k).sqrt();
        let suction_floor_mps = if self.cycle.is_passive() {
            zero()
        } else {
            intake_design_capture_mach() * sound_speed_mps * spool_n
        };
        let ram_only_kg_s = condition.ambient_pa / (whole(287) * condition.ambient_temp_k) * self.intake_area_m2
            * condition.airspeed_mps;
        suction_floor_mps > zero() && condition.airspeed_mps < suction_floor_mps && mdot_air > ram_only_kg_s + dec(1, 9)
    }

    /// [`Self::dead_point`] in contracts.
    pub open spec fn dead_point_spec(
        &self,
        condition: &FlightCondition,
        spool_n: F64,
        state: &CycleState,
        air_flow_kg_s: F64,
        air_limited: bool,
    ) -> AirOperatingPoint {
        let off = off_point(condition, spool_n);
        AirOperatingPoint {
            air_flow_kg_s,
            air_limited,
            oxygen_limited: state.oxygen_limited,
            drive_limited: state.drive_limited,
            combustion_thermal_limited: state.combustion_thermal_limited,
            scramjet_limited: state.scramjet_limited,
            suction_assisted: self.suction_assisted(condition, spool_n, state.mdot_air_kg_s),
            compressor_inlet_total_temp_k: state.compressor_inlet_total_temp_k,
            precooler_heat_flow_w: state.precooler_heat_flow_w,
            precooler_wall_heat_flow_w: state.precooler_wall_heat_flow_w,
            ..off
        }
    }

    /// A core that gives no thrust, with the flags of the cause. Drive failure and
    /// intake starvation stay distinct: vacuum starves with a healthy drive.
    #[verifier::when_used_as_spec(dead_point_spec)]
    pub fn dead_point(
        &self,
        condition: &FlightCondition,
        spool_n: F64,
        state: &CycleState,
        air_flow_kg_s: F64,
        air_limited: bool,
    ) -> (r: AirOperatingPoint)
        ensures
            r == self.dead_point(condition, spool_n, state, air_flow_kg_s, air_limited),
    {
        let off = off_point(condition, spool_n);
        AirOperatingPoint {
            air_flow_kg_s,
            air_limited,
            oxygen_limited: state.oxygen_limited,
            drive_limited: state.drive_limited,
            combustion_thermal_limited: state.combustion_thermal_limited,
            scramjet_limited: state.scramjet_limited,
            suction_assisted: self.suction_assisted(condition, spool_n, state.mdot_air_kg_s),
            compressor_inlet_total_temp_k: state.compressor_inlet_total_temp_k,
            precooler_heat_flow_w: state.precooler_heat_flow_w,
            precooler_wall_heat_flow_w: state.precooler_wall_heat_flow_w,
            ..off
        }
    }

    /// [`Self::nozzle_scale`] in contracts.
    pub open spec fn nozzle_scale_spec<M: Numerics>(&self, math: &M, state: &CycleState) -> F64 {
        let mdot_fan = state.mdot_air_kg_s - state.mdot_core_kg_s;
        let cap_core = nozzle_capacity_kg_s(
            math,
            state.core_total_temp_k,
            state.core_total_pressure_pa,
            self.throat_area_core_m2,
            state.core_gamma,
            state.core_gas_constant_j_kg_k,
        );
        let cap_fan = if self.exit_area_fan_m2 > zero() && mdot_fan > zero() {
            nozzle_capacity_kg_s(
                math,
                state.fan_total_temp_k,
                state.fan_total_pressure_pa,
                self.exit_area_fan_m2,
                air_gamma(),
                whole(287),
            )
        } else {
            F64::infinity()
        };
        (cap_core / state.nozzle_flow_kg_s).min(cap_fan / mdot_fan.max(dec(1, 12))).min(whole(1))
    }

    /// Fixed-geometry matching: the nozzle sets swallowed flow, and the whole
    /// engine rescales to what it passes.
    #[verifier::when_used_as_spec(nozzle_scale_spec)]
    pub fn nozzle_scale<M: Numerics>(&self, math: &M, state: &CycleState) -> (r: F64)
        ensures
            repeatable(math) ==> r == self.nozzle_scale(math, state),
    {
        let mdot_fan = state.mdot_air_kg_s - state.mdot_core_kg_s;
        let cap_core = nozzle_capacity_kg_s(
            math,
            state.core_total_temp_k,
            state.core_total_pressure_pa,
            self.throat_area_core_m2,
            state.core_gamma,
            state.core_gas_constant_j_kg_k,
        );
        let cap_fan = if self.exit_area_fan_m2 > zero() && mdot_fan > zero() {
            nozzle_capacity_kg_s(
                math,
                state.fan_total_temp_k,
                state.fan_total_pressure_pa,
                self.exit_area_fan_m2,
                air_gamma(),
                whole(287),
            )
        } else {
            F64::infinity()
        };
        (cap_core / state.nozzle_flow_kg_s).min(cap_fan / mdot_fan.max(dec(1, 12))).min(whole(1))
    }

    /// The core nozzle at a matched flow, with its separation flag, or what stops it.
    pub open spec fn core_flow<M: Numerics>(
        &self,
        math: &M,
        condition: &FlightCondition,
        state: &CycleState,
        core_flow_kg_s: F64,
    ) -> Result<
        (NozzleFlow, bool),
        Fault,
    > {
        match self.cycle {
            AirCycle::Ramjet | AirCycle::Scramjet => cd_flow(
                math,
                core_flow_kg_s,
                state.core_total_temp_k,
                state.core_total_pressure_pa,
                self.throat_area_core_m2,
                self.exit_area_core_m2,
                state.core_gamma,
                state.core_gas_constant_j_kg_k,
                condition.ambient_pa,
            ),
            _ => Ok(
                (
                    convergent_nozzle(
                        math,
                        core_flow_kg_s,
                        state.core_total_temp_k,
                        state.core_total_pressure_pa,
                        self.exit_area_core_m2,
                        state.core_gamma,
                        state.core_gas_constant_j_kg_k,
                        condition.ambient_pa,
                    ),
                    false,
                ),
            ),
        }
    }

    fn run_core_nozzle<M: Numerics>(
        &self,
        math: &M,
        condition: &FlightCondition,
        state: &CycleState,
        core_flow_kg_s: F64,
    ) -> (r: Result<
        (NozzleFlow, bool),
        PropulsionError,
    >)
        ensures
            repeatable(math) ==> seen(r) == self.core_flow(math, condition, state, core_flow_kg_s),
    {
        match self.cycle {
            AirCycle::Ramjet | AirCycle::Scramjet => cd_nozzle(
                math,
                core_flow_kg_s,
                state.core_total_temp_k,
                state.core_total_pressure_pa,
                self.throat_area_core_m2,
                self.exit_area_core_m2,
                state.core_gamma,
                state.core_gas_constant_j_kg_k,
                condition.ambient_pa,
            ),
            _ => Ok(
                (
                    convergent_nozzle(
                        math,
                        core_flow_kg_s,
                        state.core_total_temp_k,
                        state.core_total_pressure_pa,
                        self.exit_area_core_m2,
                        state.core_gamma,
                        state.core_gas_constant_j_kg_k,
                        condition.ambient_pa,
                    ),
                    false,
                ),
            ),
        }
    }

    /// [`Self::burning_point`] in contracts.
    pub open spec fn burning_point_spec<M: Numerics>(
        &self,
        math: &M,
        condition: &FlightCondition,
        throttle: F64,
        spool_n: F64,
        state: &CycleState,
        scale: F64,
        core: NozzleFlow,
        separation_risk: bool,
    ) -> AirOperatingPoint {
        let mdot_air = state.mdot_air_kg_s * scale;
        let fuel_flow = state.fuel_flow_kg_s * scale;
        let boost_fuel_flow = state.boost_fuel_flow_kg_s * scale;
        let fuel_ab_flow = state.fuel_ab_flow_kg_s * scale;
        let core_flow = state.nozzle_flow_kg_s * scale;
        let mdot_fan = (state.mdot_air_kg_s - state.mdot_core_kg_s) * scale;
        let fan = convergent_nozzle(
            math,
            mdot_fan,
            state.fan_total_temp_k,
            state.fan_total_pressure_pa,
            self.exit_area_fan_m2,
            air_gamma(),
            whole(287),
            condition.ambient_pa,
        );
        let thrust_n = core.thrust_gross_n + fan.thrust_gross_n - mdot_air * condition.airspeed_mps;
        let fuel_bulk = fuel_flow + fuel_ab_flow;
        let fuel_total = fuel_bulk + boost_fuel_flow;
        AirOperatingPoint {
            thrust_n,
            fuel_flow_kg_s: fuel_total,
            bulk_fuel_flow_kg_s: fuel_bulk,
            boost_fuel_flow_kg_s: boost_fuel_flow,
            air_flow_kg_s: mdot_air,
            exhaust_temp_k: core.exit_temp_k,
            exhaust_velocity_mps: if core_flow > zero() {
                core.thrust_gross_n / core_flow
            } else {
                zero()
            },
            exit_pressure_pa: core.exit_pressure_pa,
            exit_mach: core.exit_mach,
            isp_s: thrust_n / (fuel_total * standard_gravity_mps2()),
            compressor_inlet_total_temp_k: state.compressor_inlet_total_temp_k,
            precooler_heat_flow_w: state.precooler_heat_flow_w * scale,
            precooler_wall_heat_flow_w: state.precooler_wall_heat_flow_w * scale,
            spool_n,
            lit: fuel_total > zero(),
            air_limited: state.air_starved,
            oxygen_limited: state.oxygen_limited,
            drive_limited: false,
            combustion_thermal_limited: state.combustion_thermal_limited,
            scramjet_limited: state.scramjet_limited,
            nozzle_limited: scale < whole(1),
            separation_risk,
            suction_assisted: self.suction_assisted(condition, spool_n, mdot_air),
            reheat_active: self.reheats(throttle) && fuel_ab_flow > zero(),
            reheat_limited: state.reheat_limited,
        }
    }

    /// The point of a burning core at its matched flow.
    #[verifier::when_used_as_spec(burning_point_spec)]
    pub fn burning_point<M: Numerics>(
        &self,
        math: &M,
        condition: &FlightCondition,
        throttle: F64,
        spool_n: F64,
        state: &CycleState,
        scale: F64,
        core: NozzleFlow,
        separation_risk: bool,
    ) -> (r: AirOperatingPoint)
        ensures
            repeatable(math) ==> r == self.burning_point(math, condition, throttle, spool_n, state, scale, core, separation_risk),
    {
        let mdot_air = state.mdot_air_kg_s * scale;
        let fuel_flow = state.fuel_flow_kg_s * scale;
        let boost_fuel_flow = state.boost_fuel_flow_kg_s * scale;
        let fuel_ab_flow = state.fuel_ab_flow_kg_s * scale;
        let core_flow = state.nozzle_flow_kg_s * scale;
        let mdot_fan = (state.mdot_air_kg_s - state.mdot_core_kg_s) * scale;
        let fan = convergent_nozzle(
            math,
            mdot_fan,
            state.fan_total_temp_k,
            state.fan_total_pressure_pa,
            self.exit_area_fan_m2,
            air_gamma(),
            whole(287),
            condition.ambient_pa,
        );
        let thrust_n = core.thrust_gross_n + fan.thrust_gross_n - mdot_air * condition.airspeed_mps;
        let fuel_bulk = fuel_flow + fuel_ab_flow;
        let fuel_total = fuel_bulk + boost_fuel_flow;
        AirOperatingPoint {
            thrust_n,
            fuel_flow_kg_s: fuel_total,
            bulk_fuel_flow_kg_s: fuel_bulk,
            boost_fuel_flow_kg_s: boost_fuel_flow,
            air_flow_kg_s: mdot_air,
            exhaust_temp_k: core.exit_temp_k,
            exhaust_velocity_mps: if core_flow > zero() {
                core.thrust_gross_n / core_flow
            } else {
                zero()
            },
            exit_pressure_pa: core.exit_pressure_pa,
            exit_mach: core.exit_mach,
            isp_s: thrust_n / (fuel_total * standard_gravity_mps2()),
            compressor_inlet_total_temp_k: state.compressor_inlet_total_temp_k,
            precooler_heat_flow_w: state.precooler_heat_flow_w * scale,
            precooler_wall_heat_flow_w: state.precooler_wall_heat_flow_w * scale,
            spool_n,
            lit: fuel_total > zero(),
            air_limited: state.air_starved,
            oxygen_limited: state.oxygen_limited,
            drive_limited: false,
            combustion_thermal_limited: state.combustion_thermal_limited,
            scramjet_limited: state.scramjet_limited,
            nozzle_limited: scale < whole(1),
            separation_risk,
            suction_assisted: self.suction_assisted(condition, spool_n, mdot_air),
            reheat_active: self.reheats(throttle) && fuel_ab_flow > zero(),
            reheat_limited: state.reheat_limited,
        }
    }

    /// [`Self::unfuelled`] in contracts.
    pub open spec fn unfuelled_spec(&self, state: &CycleState) -> bool {
        state.fuel_flow_kg_s + state.fuel_ab_flow_kg_s + state.boost_fuel_flow_kg_s <= zero()
    }

    /// Whether a cycle state burns no fuel at all.
    #[verifier::when_used_as_spec(unfuelled_spec)]
    pub fn unfuelled(&self, state: &CycleState) -> (r: bool)
        ensures
            r == self.unfuelled(state),
    {
        state.fuel_flow_kg_s + state.fuel_ab_flow_kg_s + state.boost_fuel_flow_kg_s <= zero()
    }

    /// The point of a cycle state, or what stops it.
    pub open spec fn point_of_state<M: Numerics>(
        &self,
        math: &M,
        condition: &FlightCondition,
        throttle: F64,
        spool_n: F64,
        state: &CycleState,
    ) -> Result<AirOperatingPoint, Fault> {
        if state.drive_limited || state.mdot_air_kg_s <= zero() {
            Ok(self.dead_point(condition, spool_n, state, zero(), state.mdot_air_kg_s <= zero() || state.air_starved))
        } else if self.unfuelled(state) {
            Ok(self.dead_point(condition, spool_n, state, state.mdot_air_kg_s, state.air_starved))
        } else {
            let scale = self.nozzle_scale(math, state);
            match self.core_flow(math, condition, state, state.nozzle_flow_kg_s * scale) {
                Err(fault) => Err(fault),
                Ok((core, separation_risk)) => Ok(
                    self.burning_point(math, condition, throttle, spool_n, state, scale, core, separation_risk),
                ),
            }
        }
    }

    fn point_from_state<M: Numerics>(
        &self,
        math: &M,
        condition: &FlightCondition,
        throttle: F64,
        spool_n: F64,
        state: &CycleState,
    ) -> (r: Result<AirOperatingPoint, PropulsionError>)
        ensures
            repeatable(math) ==> seen(r) == self.point_of_state(math, condition, throttle, spool_n, state),
    {
        if state.drive_limited || state.mdot_air_kg_s <= zero() {
            return Ok(
                self.dead_point(condition, spool_n, state, zero(), state.mdot_air_kg_s <= zero() || state.air_starved),
            );
        }
        if self.unfuelled(state) {
            // Flameout with airflow: the airflow is real and stays reported.
            return Ok(self.dead_point(condition, spool_n, state, state.mdot_air_kg_s, state.air_starved));
        }
        let scale: F64 = self.nozzle_scale(math, state);
        let (core, separation_risk): (NozzleFlow, bool) = self.run_core_nozzle(
            math,
            condition,
            state,
            state.nozzle_flow_kg_s * scale,
        )?;
        Ok(self.burning_point(math, condition, throttle, spool_n, state, scale, core, separation_risk))
    }

    /// What is wrong with an evaluation, if anything.
    pub open spec fn evaluation_fault(
        &self,
        condition: &FlightCondition,
        throttle: F64,
        spool_n: F64,
    ) -> Option<Fault> {
        checks()
            .part(condition.fault())
            .part(throttle_fault(throttle))
            .refuse(!in_unit_interval(spool_n), bad_command("spool must be finite in [0, 1]"))
            .fault
    }

    /// The point and shaft balance at an explicit spool speed, or what stops them.
    pub open spec fn at_spool<M: Numerics>(
        &self,
        math: &M,
        condition: &FlightCondition,
        throttle: F64,
        spool_n: F64,
        ignition: bool,
        power_takeoff_w: F64,
        conditioning: Option<AirCycleConditioning>,
    ) -> Result<(AirOperatingPoint, ShaftBalance), Fault> {
        match self.evaluation_fault(condition, throttle, spool_n) {
            Some(fault) => Err(fault),
            None => match self.settled_state(
                math,
                condition,
                throttle,
                self.drive(spool_n, ignition, power_takeoff_w, conditioning),
            ) {
                Err(fault) => Err(fault),
                Ok(state) => match self.point_of_state(math, condition, throttle, spool_n, &state) {
                    Err(fault) => Err(fault),
                    Ok(point) => Ok((point, self.balance_from_state(math, &state, spool_n, ignition))),
                },
            },
        }
    }

    fn operating_point_at_spool_internal<M: Numerics>(
        &self,
        math: &M,
        condition: &FlightCondition,
        throttle: F64,
        spool_n: F64,
        ignition: bool,
        power_takeoff_w: F64,
        conditioning: Option<AirCycleConditioning>,
    ) -> (r: Result<(AirOperatingPoint, ShaftBalance), PropulsionError>)
        ensures
            repeatable(math) ==> seen(r) == self.at_spool(
                math,
                condition,
                throttle,
                spool_n,
                ignition,
                power_takeoff_w,
                conditioning,
            ),
            self.evaluation_fault(condition, throttle, spool_n) is Some ==> seen(r) == Err::<
                (AirOperatingPoint, ShaftBalance),
                Fault,
            >(self.evaluation_fault(condition, throttle, spool_n)->0),
    {
        condition.validate()?;
        if !in_unit_interval(throttle) {
            return Err(invalid_command("throttle must be finite in [0, 1]"));
        }
        if !in_unit_interval(spool_n) {
            return Err(invalid_command("spool must be finite in [0, 1]"));
        }
        let drive: CycleDriveInput = self.drive(spool_n, ignition, power_takeoff_w, conditioning);
        let state: CycleState = self.settle_state(math, condition, throttle, drive)?;
        let balance: ShaftBalance = self.balance_from_state(math, &state, spool_n, ignition);
        let point: AirOperatingPoint = self.point_from_state(math, condition, throttle, spool_n, &state)?;
        Ok((point, balance))
    }

    /// Evaluates the air path at an explicit spool speed instead of solving for
    /// equilibrium. `ignition` gates the fuel schedule: false is windmilling or
    /// shutdown (airflow only). Gives the operating point and the shaft power
    /// balance at this spool speed.
    pub fn operating_point_at_spool<M: Numerics>(
        &self,
        math: &M,
        condition: &FlightCondition,
        throttle: F64,
        spool_n: F64,
        ignition: bool,
    ) -> (r: Result<(AirOperatingPoint, ShaftBalance), PropulsionError>)
        ensures
            repeatable(math) ==> seen(r) == self.at_spool(math, condition, throttle, spool_n, ignition, zero(), None),
            self.evaluation_fault(condition, throttle, spool_n) is Some ==> seen(r) == Err::<
                (AirOperatingPoint, ShaftBalance),
                Fault,
            >(self.evaluation_fault(condition, throttle, spool_n)->0),
    {
        self.operating_point_at_spool_internal(math, condition, throttle, spool_n, ignition, zero(), None)
    }

    /// [`Self::operating_point_at_spool`] with mechanical power extracted by a
    /// downstream power turbine. The load is checked against the configured heat
    /// budget and the available gas enthalpy.
    pub fn operating_point_at_spool_loaded<M: Numerics>(
        &self,
        math: &M,
        condition: &FlightCondition,
        throttle: F64,
        spool_n: F64,
        ignition: bool,
        power_takeoff_w: F64,
    ) -> (r: Result<(AirOperatingPoint, ShaftBalance), PropulsionError>)
        ensures
            repeatable(math) ==> seen(r) == self.at_spool(
                math,
                condition,
                throttle,
                spool_n,
                ignition,
                power_takeoff_w,
                None,
            ),
            self.evaluation_fault(condition, throttle, spool_n) is Some ==> seen(r) == Err::<
                (AirOperatingPoint, ShaftBalance),
                Fault,
            >(self.evaluation_fault(condition, throttle, spool_n)->0),
    {
        self.operating_point_at_spool_internal(math, condition, throttle, spool_n, ignition, power_takeoff_w, None)
    }

    /// [`Self::operating_point_at_spool`] with precooled air.
    pub fn operating_point_at_spool_conditioned<M: Numerics>(
        &self,
        math: &M,
        condition: &FlightCondition,
        throttle: F64,
        spool_n: F64,
        ignition: bool,
        conditioning: AirCycleConditioning,
    ) -> (r: Result<(AirOperatingPoint, ShaftBalance), PropulsionError>)
        ensures
            repeatable(math) ==> seen(r) == self.at_spool(
                math,
                condition,
                throttle,
                spool_n,
                ignition,
                zero(),
                Some(conditioning),
            ),
    {
        self.operating_point_at_spool_internal(math, condition, throttle, spool_n, ignition, zero(), Some(conditioning))
    }

    /// Net shaft power of the burning, unloaded core at a spool speed, or what stops it.
    pub open spec fn net_at<M: Numerics>(
        &self,
        math: &M,
        condition: &FlightCondition,
        throttle: F64,
        spool_n: F64,
    ) -> Result<F64, Fault> {
        match self.cycle_at(math, condition, throttle, &self.drive(spool_n, true, zero(), None)) {
            Err(fault) => Err(fault),
            Ok(state) => Ok(self.balance_from_state(math, &state, spool_n, true).net_w()),
        }
    }

    fn lean_net_w<M: Numerics>(&self, math: &M, condition: &FlightCondition, throttle: F64, spool_n: F64) -> (r: Result<
        F64,
        PropulsionError,
    >)
        ensures
            repeatable(math) ==> seen(r) == self.net_at(math, condition, throttle, spool_n),
    {
        let state: CycleState = self.run_at(math, condition, throttle, &self.drive(spool_n, true, zero(), None))?;
        Ok(self.balance_from_state(math, &state, spool_n, true).net_w())
    }

    /// The spool bracket after `n` more halvings towards the equilibrium.
    pub open spec fn spool_bracket<M: Numerics>(
        &self,
        math: &M,
        condition: &FlightCondition,
        throttle: F64,
        span: (F64, F64),
        n: nat,
    ) -> Result<(F64, F64), Fault>
        decreases n,
    {
        if n == 0 {
            Ok(span)
        } else {
            let mid = dec(5, 1) * (span.0 + span.1);
            match self.net_at(math, condition, throttle, mid) {
                Err(fault) => Err(fault),
                Ok(net) => self.spool_bracket(
                    math,
                    condition,
                    throttle,
                    if net > zero() {
                        (mid, span.1)
                    } else {
                        (span.0, mid)
                    },
                    (n - 1) as nat,
                ),
            }
        }
    }

    /// Steady spool equilibrium at a commanded throttle: zero where the core cannot
    /// sustain itself at light-off speed, one where net power is still not negative
    /// at redline, and otherwise where net power changes sign.
    pub open spec fn steady_spool<M: Numerics>(
        &self,
        math: &M,
        condition: &FlightCondition,
        throttle: F64,
    ) -> Result<F64, Fault> {
        match self.net_at(math, condition, throttle, self.shaft.light_off_n) {
            Err(fault) => Err(fault),
            Ok(low_net) => if !(low_net > zero()) {
                Ok(zero())
            } else {
                match self.net_at(math, condition, throttle, whole(1)) {
                    Err(fault) => Err(fault),
                    Ok(high_net) => if !(high_net < zero()) {
                        Ok(whole(1))
                    } else {
                        match self.spool_bracket(math, condition, throttle, (self.shaft.light_off_n, whole(1)), 40) {
                            Err(fault) => Err(fault),
                            Ok(span) => Ok(dec(5, 1) * (span.0 + span.1)),
                        }
                    },
                }
            },
        }
    }

    fn solve_steady_spool<M: Numerics>(&self, math: &M, condition: &FlightCondition, throttle: F64) -> (r: Result<
        F64,
        PropulsionError,
    >)
        ensures
            repeatable(math) ==> seen(r) == self.steady_spool(math, condition, throttle),
    {
        let low_net: F64 = self.lean_net_w(math, condition, throttle, self.shaft.light_off_n)?;
        if !(low_net > zero()) {
            return Ok(zero());
        }
        let high_net: F64 = self.lean_net_w(math, condition, throttle, whole(1))?;
        if !(high_net < zero()) {
            return Ok(whole(1));
        }
        let span: (F64, F64) = self.bisect_spool(math, condition, throttle)?;
        Ok(dec(5, 1) * (span.0 + span.1))
    }

    fn bisect_spool<M: Numerics>(&self, math: &M, condition: &FlightCondition, throttle: F64) -> (r: Result<
        (F64, F64),
        PropulsionError,
    >)
        ensures
            repeatable(math) ==> seen(r) == self.spool_bracket(
                math,
                condition,
                throttle,
                (self.shaft.light_off_n, whole(1)),
                40,
            ),
    {
        let start: (F64, F64) = (self.shaft.light_off_n, whole(1));
        let mut span: (F64, F64) = start;
        let mut n: u32 = 40;
        while n > 0
            invariant
                n <= 40,
                start == (self.shaft.light_off_n, whole(1)),
                repeatable(math) ==> self.spool_bracket(math, condition, throttle, start, 40) == self.spool_bracket(
                    math,
                    condition,
                    throttle,
                    span,
                    n as nat,
                ),
            decreases n,
        {
            let mid: F64 = dec(5, 1) * (span.0 + span.1);
            let net: F64 = self.lean_net_w(math, condition, throttle, mid)?;
            span = if net > zero() {
                (mid, span.1)
            } else {
                (span.0, mid)
            };
            n = n - 1;
        }
        Ok(span)
    }

    /// [`Self::shut_down_point`] in contracts.
    pub open spec fn shut_down_point_spec(&self, condition: &FlightCondition) -> AirOperatingPoint {
        let off = off_point(condition, zero());
        let scramjet_limited = match self.cycle {
            AirCycle::Scramjet => condition.mach <= whole(1),
            _ => false,
        };
        AirOperatingPoint { scramjet_limited, ..off }
    }

    /// The point at zero throttle.
    #[verifier::when_used_as_spec(shut_down_point_spec)]
    pub fn shut_down_point(&self, condition: &FlightCondition) -> (r: AirOperatingPoint)
        ensures
            r == self.shut_down_point(condition),
    {
        let off = off_point(condition, zero());
        let scramjet_limited = match self.cycle {
            AirCycle::Scramjet => condition.mach <= whole(1),
            _ => false,
        };
        AirOperatingPoint { scramjet_limited, ..off }
    }

    /// Steady operating point at a flight condition and throttle, or what stops it.
    pub open spec fn steady<M: Numerics>(
        &self,
        math: &M,
        condition: &FlightCondition,
        throttle: F64,
    ) -> Result<AirOperatingPoint, Fault> {
        match checks().part(condition.fault()).part(throttle_fault(throttle)).fault {
            Some(fault) => Err(fault),
            None => if throttle.same(zero()) {
                Ok(self.shut_down_point(condition))
            } else {
                let solved = if self.cycle.has_shaft() {
                    self.steady_spool(math, condition, throttle)
                } else {
                    Ok(whole(1))
                };
                match solved {
                    Err(fault) => Err(fault),
                    Ok(spool_n) => {
                        let tried = if spool_n > zero() {
                            spool_n
                        } else {
                            whole(1)
                        };
                        match self.at_spool(math, condition, throttle, tried, true, zero(), None) {
                            Err(fault) => Err(fault),
                            Ok((point, _)) => Ok(AirOperatingPoint { spool_n, ..point }),
                        }
                    },
                }
            },
        }
    }

    /// Steady operating point at a flight condition and effective throttle: solves
    /// the sustainable shaft equilibrium first, then evaluates the cycle there.
    /// Passive cycles evaluate directly at the full-flow schedule. Where no
    /// equilibrium exists, the point is evaluated at full spool so that failure
    /// flags stay reportable, while `spool_n` reports the stopped shaft.
    pub fn operating_point<M: Numerics>(&self, math: &M, condition: &FlightCondition, throttle: F64) -> (r: Result<
        AirOperatingPoint,
        PropulsionError,
    >)
        ensures
            repeatable(math) ==> seen(r) == self.steady(math, condition, throttle),
            condition.fault() is Some || throttle_fault(throttle) is Some || throttle.same(zero()) ==> seen(r) == self.steady(
                math,
                condition,
                throttle,
            ),
    {
        condition.validate()?;
        if !in_unit_interval(throttle) {
            return Err(invalid_command("throttle must be finite in [0, 1]"));
        }
        if throttle.same(zero()) {
            return Ok(self.shut_down_point(condition));
        }
        let solved: F64 = if self.cycle.has_shaft() {
            self.solve_steady_spool(math, condition, throttle)?
        } else {
            whole(1)
        };
        let tried: F64 = if solved > zero() {
            solved
        } else {
            whole(1)
        };
        let (mut point, _balance): (AirOperatingPoint, ShaftBalance) = self.operating_point_at_spool(
            math,
            condition,
            throttle,
            tried,
            true,
        )?;
        point.spool_n = solved;
        Ok(point)
    }

    /// A copy of the engine.
    pub fn duplicate(&self) -> (r: CompiledAirbreather)
        ensures
            r == *self,
    {
        CompiledAirbreather { name: copied(&self.name), ..*self }
    }
}

/// One analyzer row: thrust and Isp over altitude and Mach.
#[derive(Debug, Clone, Copy, PartialEq)]
pub struct AirAltitudePoint {
    pub altitude_m: F64,
    pub mach: F64,
    pub ambient_pa: F64,
    pub thrust_n: F64,
    pub isp_s: F64,
    pub fuel_flow_kg_s: F64,
    pub air_limited: bool,
    pub oxygen_limited: bool,
    pub drive_limited: bool,
    pub combustion_thermal_limited: bool,
    pub scramjet_limited: bool,
    pub nozzle_limited: bool,
    pub separation_risk: bool,
    /// True wherever the suction floor is active.
    pub suction_assisted: bool,
    /// Steady spool speed solved for this row (0 where it is not self-sustaining).
    pub spool_n: F64,
}

/// [`air_row`] in contracts.
pub open spec fn air_row_spec(
    altitude_m: F64,
    mach: F64,
    ambient_pa: F64,
    point: AirOperatingPoint,
) -> AirAltitudePoint {
    AirAltitudePoint {
        altitude_m,
        mach,
        ambient_pa,
        thrust_n: point.thrust_n,
        isp_s: point.isp_s,
        fuel_flow_kg_s: point.fuel_flow_kg_s,
        air_limited: point.air_limited,
        oxygen_limited: point.oxygen_limited,
        drive_limited: point.drive_limited,
        combustion_thermal_limited: point.combustion_thermal_limited,
        scramjet_limited: point.scramjet_limited,
        nozzle_limited: point.nozzle_limited,
        separation_risk: point.separation_risk,
        suction_assisted: point.suction_assisted,
        spool_n: point.spool_n,
    }
}

/// The row of an operating point.
#[verifier::when_used_as_spec(air_row_spec)]
pub fn air_row(altitude_m: F64, mach: F64, ambient_pa: F64, point: AirOperatingPoint) -> (r: AirAltitudePoint)
    ensures
        r == air_row(altitude_m, mach, ambient_pa, point),
{
    AirAltitudePoint {
        altitude_m,
        mach,
        ambient_pa,
        thrust_n: point.thrust_n,
        isp_s: point.isp_s,
        fuel_flow_kg_s: point.fuel_flow_kg_s,
        air_limited: point.air_limited,
        oxygen_limited: point.oxygen_limited,
        drive_limited: point.drive_limited,
        combustion_thermal_limited: point.combustion_thermal_limited,
        scramjet_limited: point.scramjet_limited,
        nozzle_limited: point.nozzle_limited,
        separation_risk: point.separation_risk,
        suction_assisted: point.suction_assisted,
        spool_n: point.spool_n,
    }
}

/// The Mach number that a sample gave for the `j`th Mach number of an analysis.
pub open spec fn solved_at(solved_machs: Seq<Option<F64>>, j: int) -> Option<F64> {
    if 0 <= j < solved_machs.len() {
        solved_machs[j]
    } else {
        None
    }
}

pub fn find_solved(solved_machs: &Vec<Option<F64>>, j: usize) -> (r: Option<F64>)
    ensures
        r == solved_at(solved_machs@, j as int),
{
    if j < solved_machs.len() {
        solved_machs[j]
    } else {
        None
    }
}

/// The flight condition of a grid cell, or what stops it.
pub open spec fn cell_condition(
    sample: AtmosphereSample,
    solved_machs: Seq<Option<F64>>,
    mach: F64,
    j: int,
    bad_mach: &str,
) -> Result<
    FlightCondition,
    Fault,
> {
    if !mach.is_finite() || mach < zero() {
        Err(bad_spec(bad_mach))
    } else {
        condition_of(sample, mach * sample.speed_of_sound_mps, solved_at(solved_machs, j))
    }
}

pub fn find_cell_condition(
    sample: &AtmosphereSample,
    solved_machs: &Vec<Option<F64>>,
    mach: F64,
    j: usize,
    bad_mach: &str,
) -> (r: Result<
    FlightCondition,
    PropulsionError,
>)
    ensures
        seen(r) == cell_condition(*sample, solved_machs@, mach, j as int, bad_mach),
{
    if !mach.is_finite() || mach < zero() {
        return Err(invalid_spec(bad_mach));
    }
    flight_condition(sample, mach * sample.speed_of_sound_mps, find_solved(solved_machs, j))
}

/// The sample of an altitude, or why there is none.
pub open spec fn sample_at(row: SampledAltitude, bad_altitude: &str) -> Result<AtmosphereSample, Fault> {
    if !row.altitude_m.is_finite() {
        Err(bad_spec(bad_altitude))
    } else {
        match row.sample {
            Err(reason) => Err(Fault::InvalidSpec("atmosphere sample: "@ + reason@)),
            Ok(sample) => Ok(sample),
        }
    }
}

pub fn find_sample(row: &SampledAltitude, bad_altitude: &str) -> (r: Result<AtmosphereSample, PropulsionError>)
    ensures
        seen(r) == sample_at(*row, bad_altitude),
{
    if !row.altitude_m.is_finite() {
        return Err(invalid_spec(bad_altitude));
    }
    match &row.sample {
        Ok(sample) => Ok(*sample),
        Err(reason) => Err(PropulsionError::InvalidSpec(join("atmosphere sample: ", reason.as_str()))),
    }
}

/// The rows of one altitude from its `j`th Mach number on, after `done`.
pub open spec fn air_rows_at<M: Numerics>(
    math: &M,
    engine: &CompiledAirbreather,
    row: SampledAltitude,
    sample: AtmosphereSample,
    machs: Seq<F64>,
    throttle: F64,
    j: int,
    done: Seq<AirAltitudePoint>,
) -> Result<Seq<AirAltitudePoint>, Fault>
    decreases machs.len() - j,
{
    if j < 0 || j >= machs.len() {
        Ok(done)
    } else {
        match cell_condition(sample, row.solved_machs@, machs[j], j, "Mach numbers must be finite and >= 0") {
            Err(fault) => Err(fault),
            Ok(condition) => match engine.steady(math, &condition, throttle) {
                Err(fault) => Err(fault),
                Ok(point) => air_rows_at(
                    math,
                    engine,
                    row,
                    sample,
                    machs,
                    throttle,
                    j + 1,
                    done.push(air_row(row.altitude_m, machs[j], sample.pressure_pa, point)),
                ),
            },
        }
    }
}

/// The rows of the altitudes from the `i`th on, after `done`.
pub open spec fn air_rows_from<M: Numerics>(
    math: &M,
    engine: &CompiledAirbreather,
    altitudes: Seq<SampledAltitude>,
    machs: Seq<F64>,
    throttle: F64,
    i: int,
    done: Seq<AirAltitudePoint>,
) -> Result<Seq<AirAltitudePoint>, Fault>
    decreases altitudes.len() - i,
{
    if i < 0 || i >= altitudes.len() {
        Ok(done)
    } else {
        match sample_at(altitudes[i], "altitudes must be finite") {
            Err(fault) => Err(fault),
            Ok(sample) => match air_rows_at(math, engine, altitudes[i], sample, machs, throttle, 0, done) {
                Err(fault) => Err(fault),
                Ok(rows) => air_rows_from(math, engine, altitudes, machs, throttle, i + 1, rows),
            },
        }
    }
}

/// Thrust and Isp grid over altitudes and Mach numbers at fixed throttle; species
/// ride the sampled composition.
pub fn analyze_airbreathing<M: Numerics>(
    math: &M,
    engine: &CompiledAirbreather,
    altitudes: &Vec<SampledAltitude>,
    machs: &Vec<F64>,
    throttle: F64,
) -> (r: Result<Vec<AirAltitudePoint>, PropulsionError>)
    ensures
        altitudes@.len() == 0 || machs@.len() == 0 ==> seen(r) == Err::<Vec<AirAltitudePoint>, Fault>(
            bad_spec("analyzer needs altitudes and Mach numbers"),
        ),
        repeatable(math) && altitudes@.len() > 0 && machs@.len() > 0 ==> match air_rows_from(
            math,
            engine,
            altitudes@,
            machs@,
            throttle,
            0,
            Seq::empty(),
        ) {
            Err(fault) => seen(r) == Err::<Vec<AirAltitudePoint>, Fault>(fault),
            Ok(rows) => r is Ok && r->Ok_0@ == rows,
        },
{
    if altitudes.len() == 0 || machs.len() == 0 {
        return Err(invalid_spec("analyzer needs altitudes and Mach numbers"));
    }
    let mut rows: Vec<AirAltitudePoint> = Vec::new();
    assert(rows@ =~= Seq::empty());
    let mut i: usize = 0;
    while i < altitudes.len()
        invariant
            i <= altitudes@.len(),
            altitudes@.len() > 0 && machs@.len() > 0,
            repeatable(math) ==> air_rows_from(math, engine, altitudes@, machs@, throttle, 0, Seq::empty())
                == air_rows_from(math, engine, altitudes@, machs@, throttle, i as int, rows@),
        decreases altitudes@.len() - i,
    {
        let row: &SampledAltitude = &altitudes[i];
        let sample: AtmosphereSample = find_sample(row, "altitudes must be finite")?;
        let ghost before = rows@;
        let mut j: usize = 0;
        while j < machs.len()
            invariant
                j <= machs@.len(),
                i < altitudes@.len(),
                altitudes@.len() > 0 && machs@.len() > 0,
                *row == altitudes@[i as int],
                sample_at(*row, "altitudes must be finite") == Ok::<AtmosphereSample, Fault>(sample),
                repeatable(math) ==> air_rows_from(math, engine, altitudes@, machs@, throttle, 0, Seq::empty())
                    == air_rows_from(math, engine, altitudes@, machs@, throttle, i as int, before),
                repeatable(math) ==> air_rows_at(math, engine, *row, sample, machs@, throttle, 0, before) == air_rows_at(
                    math,
                    engine,
                    *row,
                    sample,
                    machs@,
                    throttle,
                    j as int,
                    rows@,
                ),
            decreases machs@.len() - j,
        {
            let mach: F64 = machs[j];
            let condition: FlightCondition = find_cell_condition(
                &sample,
                &row.solved_machs,
                mach,
                j,
                "Mach numbers must be finite and >= 0",
            )?;
            let point: AirOperatingPoint = engine.operating_point(math, &condition, throttle)?;
            rows.push(air_row(row.altitude_m, mach, sample.pressure_pa, point));
            j = j + 1;
        }
        i = i + 1;
    }
    Ok(rows)
}

/// The lagged throttle, or what stops it.
pub open spec fn lagged<M: Numerics>(
    math: &M,
    current_effective: F64,
    target: F64,
    dt_s: F64,
    tau_s: F64,
) -> Result<F64, Fault> {
    if !current_effective.is_finite() || !in_unit_interval(target) {
        Err(bad_command("spool throttle must be finite, target in [0, 1]"))
    } else if !dt_s.is_finite() || dt_s < zero() || !tau_s.is_finite() || tau_s <= zero() {
        Err(bad_command("spool dt/tau must be finite, dt >= 0, tau > 0"))
    } else {
        Ok(approach(math, current_effective.clamp_unit(), target, dt_s, tau_s).clamp_unit())
    }
}

/// First-order throttle lag for jet spools: effective throttle approaches the
/// target with time constant `tau_s`. Command-side scheduling only.
pub fn advance_jet_spool<M: Numerics>(
    math: &M,
    current_effective: F64,
    target: F64,
    dt_s: F64,
    tau_s: F64,
) -> (r: Result<
    F64,
    PropulsionError,
>)
    ensures
        repeatable(math) ==> seen(r) == lagged(math, current_effective, target, dt_s, tau_s),
        r is Err ==> seen(r) == lagged(math, current_effective, target, dt_s, tau_s),
        r is Err <==> lagged(math, current_effective, target, dt_s, tau_s) is Err,
{
    if !current_effective.is_finite() || !in_unit_interval(target) {
        return Err(invalid_command("spool throttle must be finite, target in [0, 1]"));
    }
    if !dt_s.is_finite() || dt_s < zero() || !tau_s.is_finite() || tau_s <= zero() {
        return Err(invalid_command("spool dt/tau must be finite, dt >= 0, tau > 0"));
    }
    let current: F64 = current_effective.clamp_unit();
    Ok(approach(math, current, target, dt_s, tau_s).clamp_unit())
}

} // verus!
