//! Continuous and pulsed fusion propulsion.
//!
//! The continuous torch converts charged fusion-product energy through a magnetic
//! nozzle into a selected working mass flow. The pulsed engine is a separate
//! event-driven model of pellets and an energy buffer: it returns impulse per
//! shot rather than disguising pulses as a steady engine.
use crate::constants::standard_gravity_mps2;
use crate::electric::{
    avogadro_per_mol, coil_volume_m3, copper_density_kg_m3, elementary_charge_c, radiated_w,
    require_active_efficiency, thermal_chamber_volume, ElectricPropellant,
};
use crate::error::{
    bad_command, bad_spec, checks, invalid_command, invalid_spec, outcome, require_non_negative, require_positive,
    require_unit_interval, seen, Fault, PropulsionError,
};
use crate::float::{all_finite, all_finite_in, big, dec, whole, zero, F64};
use crate::numerics::{repeatable, Numerics};
use crate::text::{blank, is_blank};
use crate::vector::Vector;
use vstd::prelude::*;

verus! {

/// [`mev_to_j`] in contracts.
pub open spec fn mev_to_j_spec() -> F64 {
    big(1, 6) * elementary_charge_c()
}

/// Joules in a mega-electronvolt.
#[verifier::when_used_as_spec(mev_to_j_spec)]
pub fn mev_to_j() -> (r: F64)
    ensures
        r == mev_to_j(),
{
    big(1, 6) * elementary_charge_c()
}

/// [`epsilon`] in contracts.
pub open spec fn epsilon_spec() -> F64 {
    dec(2_220_446_049_250_313, 31)
}

/// The gap between one and the next double.
#[verifier::when_used_as_spec(epsilon_spec)]
pub fn epsilon() -> (r: F64)
    ensures
        r == epsilon(),
{
    dec(2_220_446_049_250_313, 31)
}

/// Fuel reactions with their nuclear energy release and charged-product energy
/// share, per primary reaction event.
#[derive(Debug, Clone, Copy, PartialEq, Eq, Hash, Structural)]
pub enum FusionReaction {
    DeuteriumTritium,
    /// Equal-weight branches `D+D -> T+p` and `D+D -> He3+n`.
    DeuteriumDeuterium,
    DeuteriumHelium3,
    ProtonBoron11,
}

/// Nuclear data of a reaction.
#[derive(Debug, Clone, Copy, PartialEq)]
pub struct FusionReactionData {
    pub fuel_molar_mass_kg_mol: F64,
    pub q_mev: F64,
    pub charged_energy_fraction: F64,
}

impl FusionReaction {
    /// [`Self::data`] in contracts.
    pub open spec fn data_spec(self) -> FusionReactionData {
        match self {
            FusionReaction::DeuteriumTritium => FusionReactionData {
                fuel_molar_mass_kg_mol: dec(503_015, 8),
                q_mev: dec(176, 1),
                charged_energy_fraction: dec(35, 1) / dec(176, 1),
            },
            FusionReaction::DeuteriumDeuterium => FusionReactionData {
                fuel_molar_mass_kg_mol: dec(402_820, 8),
                q_mev: dec(365, 2),
                charged_energy_fraction: dec(2_425, 3) / dec(365, 2),
            },
            FusionReaction::DeuteriumHelium3 => FusionReactionData {
                fuel_molar_mass_kg_mol: dec(503_015, 8),
                q_mev: dec(183, 1),
                charged_energy_fraction: whole(1),
            },
            FusionReaction::ProtonBoron11 => FusionReactionData {
                fuel_molar_mass_kg_mol: dec(120_125, 7),
                q_mev: dec(868, 2),
                charged_energy_fraction: whole(1),
            },
        }
    }

    #[verifier::when_used_as_spec(data_spec)]
    pub fn data(self) -> (r: FusionReactionData)
        ensures
            r == self.data(),
    {
        match self {
            FusionReaction::DeuteriumTritium => FusionReactionData {
                fuel_molar_mass_kg_mol: dec(503_015, 8),
                q_mev: dec(176, 1),
                charged_energy_fraction: dec(35, 1) / dec(176, 1),
            },
            FusionReaction::DeuteriumDeuterium => FusionReactionData {
                fuel_molar_mass_kg_mol: dec(402_820, 8),
                q_mev: dec(365, 2),
                charged_energy_fraction: dec(2_425, 3) / dec(365, 2),
            },
            FusionReaction::DeuteriumHelium3 => FusionReactionData {
                fuel_molar_mass_kg_mol: dec(503_015, 8),
                q_mev: dec(183, 1),
                charged_energy_fraction: whole(1),
            },
            FusionReaction::ProtonBoron11 => FusionReactionData {
                fuel_molar_mass_kg_mol: dec(120_125, 7),
                q_mev: dec(868, 2),
                charged_energy_fraction: whole(1),
            },
        }
    }

    /// [`Self::energy_release_j_kg`] in contracts.
    pub open spec fn energy_release_j_kg_spec(self) -> F64 {
        let data = self.data();
        data.q_mev * mev_to_j() * avogadro_per_mol() / data.fuel_molar_mass_kg_mol
    }

    /// Nuclear energy released per kilogram of reacting fuel mixture (J/kg).
    #[verifier::when_used_as_spec(energy_release_j_kg_spec)]
    pub fn energy_release_j_kg(self) -> (r: F64)
        ensures
            r == self.energy_release_j_kg(),
    {
        let data = self.data();
        data.q_mev * mev_to_j() * avogadro_per_mol() / data.fuel_molar_mass_kg_mol
    }

    /// [`Self::charged_energy_fraction`] in contracts.
    pub open spec fn charged_energy_fraction_spec(self) -> F64 {
        self.data().charged_energy_fraction
    }

    /// Fraction of reaction energy initially carried by charged products.
    #[verifier::when_used_as_spec(charged_energy_fraction_spec)]
    pub fn charged_energy_fraction(self) -> (r: F64)
        ensures
            r == self.charged_energy_fraction(),
    {
        self.data().charged_energy_fraction
    }
}

/// Geometry, reaction, and power and heat limits of a continuous fusion torch.
#[derive(Debug, Clone, PartialEq)]
pub struct FusionTorchSpec {
    pub name: String,
    pub reaction: FusionReaction,
    pub working_fluid: ElectricPropellant,
    pub maximum_fusion_power_w: F64,
    /// Fusion energy released over external driver power at the operating point.
    pub fusion_gain: F64,
    pub maximum_working_flow_kg_s: F64,
    pub reactor_specific_power_w_kg: F64,
    pub plasma_coupling_efficiency: F64,
    pub magnetic_nozzle_efficiency: F64,
    pub nozzle_radius_m: F64,
    pub nozzle_length_m: F64,
    pub magnetic_field_t: F64,
    pub coil_current_density_a_m2: F64,
    pub structure_density_kg_m3: F64,
    pub structure_thickness_m: F64,
    pub radiator_area_m2: F64,
    pub radiator_temperature_k: F64,
    pub radiator_emissivity: F64,
    pub radiator_areal_density_kg_m2: F64,
}

/// Compiled continuous fusion torch.
#[derive(Debug, Clone, Copy, PartialEq)]
pub struct CompiledFusionTorch {
    pub reaction: FusionReaction,
    pub working_fluid: ElectricPropellant,
    pub maximum_fusion_power_w: F64,
    pub fusion_gain: F64,
    pub maximum_working_flow_kg_s: F64,
    pub charged_energy_fraction: F64,
    pub plasma_coupling_efficiency: F64,
    pub magnetic_nozzle_efficiency: F64,
    pub radiator_heat_rejection_w: F64,
    pub dry_mass_kg: F64,
}

/// What is wrong with a radiator, if anything: it must reject heat above the
/// cosmic background.
pub open spec fn radiator_fault<M: Numerics>(
    math: &M,
    area_m2: F64,
    temperature_k: F64,
    emissivity: F64,
    areal_density_kg_m2: F64,
) -> Option<Fault> {
    let capacity_w = radiated_w(math, area_m2, temperature_k, emissivity);
    checks()
        .positive(area_m2, "radiator area")
        .positive(temperature_k, "radiator temperature")
        .active_efficiency(emissivity, "radiator emissivity")
        .positive(areal_density_kg_m2, "radiator areal density")
        .refuse(
            !capacity_w.is_finite() || capacity_w <= zero(),
            bad_spec("radiator heat rejection must be finite and above the cosmic background"),
        )
        .fault
}

pub fn validate_radiator<M: Numerics>(
    math: &M,
    area_m2: F64,
    temperature_k: F64,
    emissivity: F64,
    areal_density_kg_m2: F64,
) -> (r: Result<
    (),
    PropulsionError,
>)
    ensures
        repeatable(math) ==> seen(r) == outcome(
            radiator_fault(math, area_m2, temperature_k, emissivity, areal_density_kg_m2),
        ),
{
    require_positive(area_m2, "radiator area")?;
    require_positive(temperature_k, "radiator temperature")?;
    require_active_efficiency(emissivity, "radiator emissivity")?;
    require_positive(areal_density_kg_m2, "radiator areal density")?;
    let capacity_w: F64 = radiated_w(math, area_m2, temperature_k, emissivity);
    if !capacity_w.is_finite() || capacity_w <= zero() {
        return Err(invalid_spec("radiator heat rejection must be finite and above the cosmic background"));
    }
    Ok(())
}

impl FusionTorchSpec {
    /// What is wrong with the authoring values before the radiator is asked.
    pub open spec fn value_fault(&self) -> Option<Fault> {
        checks()
            .refuse(blank(self.name@), bad_spec("fusion torch name must not be empty"))
            .refuse(
                !all_finite_in(
                    seq![
                        self.maximum_fusion_power_w,
                        self.fusion_gain,
                        self.maximum_working_flow_kg_s,
                        self.reactor_specific_power_w_kg,
                        self.plasma_coupling_efficiency,
                        self.magnetic_nozzle_efficiency,
                        self.nozzle_radius_m,
                        self.nozzle_length_m,
                        self.magnetic_field_t,
                        self.coil_current_density_a_m2,
                        self.structure_density_kg_m3,
                        self.structure_thickness_m,
                        self.radiator_area_m2,
                        self.radiator_temperature_k,
                        self.radiator_emissivity,
                        self.radiator_areal_density_kg_m2,
                    ],
                ),
                bad_spec("fusion torch authoring values must be finite"),
            )
            .positive(self.maximum_fusion_power_w, "fusion torch rated power")
            .refuse(self.fusion_gain <= whole(1), bad_spec("continuous fusion gain must exceed one"))
            .positive(self.maximum_working_flow_kg_s, "fusion working-fluid flow")
            .positive(self.reactor_specific_power_w_kg, "fusion reactor specific power")
            .unit_interval(self.plasma_coupling_efficiency, "plasma coupling efficiency")
            .unit_interval(self.magnetic_nozzle_efficiency, "magnetic nozzle efficiency")
            .refuse(
                self.plasma_coupling_efficiency.same(zero()) || self.magnetic_nozzle_efficiency.same(zero()),
                bad_spec("fusion coupling and nozzle efficiencies must be in (0, 1]"),
            )
            .positive(self.nozzle_radius_m, "fusion nozzle radius")
            .positive(self.nozzle_length_m, "fusion nozzle length")
            .positive(self.magnetic_field_t, "fusion nozzle field")
            .positive(self.coil_current_density_a_m2, "fusion coil current density")
            .positive(self.structure_density_kg_m3, "fusion structure density")
            .positive(self.structure_thickness_m, "fusion structure thickness")
            .fault
    }

    fn check_values(&self) -> (r: Result<(), PropulsionError>)
        ensures
            seen(r) == outcome(self.value_fault()),
    {
        if is_blank(self.name.as_str()) {
            return Err(invalid_spec("fusion torch name must not be empty"));
        }
        if !all_finite(
            &vec![
                self.maximum_fusion_power_w,
                self.fusion_gain,
                self.maximum_working_flow_kg_s,
                self.reactor_specific_power_w_kg,
                self.plasma_coupling_efficiency,
                self.magnetic_nozzle_efficiency,
                self.nozzle_radius_m,
                self.nozzle_length_m,
                self.magnetic_field_t,
                self.coil_current_density_a_m2,
                self.structure_density_kg_m3,
                self.structure_thickness_m,
                self.radiator_area_m2,
                self.radiator_temperature_k,
                self.radiator_emissivity,
                self.radiator_areal_density_kg_m2,
            ],
        ) {
            return Err(invalid_spec("fusion torch authoring values must be finite"));
        }
        require_positive(self.maximum_fusion_power_w, "fusion torch rated power")?;
        if self.fusion_gain <= whole(1) {
            return Err(invalid_spec("continuous fusion gain must exceed one"));
        }
        require_positive(self.maximum_working_flow_kg_s, "fusion working-fluid flow")?;
        require_positive(self.reactor_specific_power_w_kg, "fusion reactor specific power")?;
        require_unit_interval(self.plasma_coupling_efficiency, "plasma coupling efficiency")?;
        require_unit_interval(self.magnetic_nozzle_efficiency, "magnetic nozzle efficiency")?;
        if self.plasma_coupling_efficiency.same(zero()) || self.magnetic_nozzle_efficiency.same(zero()) {
            return Err(invalid_spec("fusion coupling and nozzle efficiencies must be in (0, 1]"));
        }
        require_positive(self.nozzle_radius_m, "fusion nozzle radius")?;
        require_positive(self.nozzle_length_m, "fusion nozzle length")?;
        require_positive(self.magnetic_field_t, "fusion nozzle field")?;
        require_positive(self.coil_current_density_a_m2, "fusion coil current density")?;
        require_positive(self.structure_density_kg_m3, "fusion structure density")?;
        require_positive(self.structure_thickness_m, "fusion structure thickness")?;
        Ok(())
    }

    /// [`Self::sized`] in contracts.
    pub open spec fn sized_spec<M: Numerics>(&self, math: &M) -> CompiledFusionTorch {
        let wall_volume_m3 = thermal_chamber_volume(
            math,
            self.nozzle_radius_m,
            self.nozzle_length_m,
            self.structure_thickness_m,
        );
        let coil_m3 = coil_volume_m3(
            self.magnetic_field_t,
            self.nozzle_length_m,
            self.coil_current_density_a_m2,
            self.nozzle_radius_m,
        );
        CompiledFusionTorch {
            reaction: self.reaction,
            working_fluid: self.working_fluid,
            maximum_fusion_power_w: self.maximum_fusion_power_w,
            fusion_gain: self.fusion_gain,
            maximum_working_flow_kg_s: self.maximum_working_flow_kg_s,
            charged_energy_fraction: self.reaction.charged_energy_fraction(),
            plasma_coupling_efficiency: self.plasma_coupling_efficiency,
            magnetic_nozzle_efficiency: self.magnetic_nozzle_efficiency,
            radiator_heat_rejection_w: radiated_w(
                math,
                self.radiator_area_m2,
                self.radiator_temperature_k,
                self.radiator_emissivity,
            ),
            dry_mass_kg: self.maximum_fusion_power_w / self.reactor_specific_power_w_kg + wall_volume_m3
                * self.structure_density_kg_m3 + coil_m3 * copper_density_kg_m3() + self.radiator_area_m2
                * self.radiator_areal_density_kg_m2,
        }
    }

    /// The torch sized on reactor, nozzle wall, coil and radiator.
    #[verifier::when_used_as_spec(sized_spec)]
    pub fn sized<M: Numerics>(&self, math: &M) -> (r: CompiledFusionTorch)
        ensures
            repeatable(math) ==> r == self.sized(math),
    {
        let wall_volume_m3 = thermal_chamber_volume(
            math,
            self.nozzle_radius_m,
            self.nozzle_length_m,
            self.structure_thickness_m,
        );
        let coil_m3 = coil_volume_m3(
            self.magnetic_field_t,
            self.nozzle_length_m,
            self.coil_current_density_a_m2,
            self.nozzle_radius_m,
        );
        CompiledFusionTorch {
            reaction: self.reaction,
            working_fluid: self.working_fluid,
            maximum_fusion_power_w: self.maximum_fusion_power_w,
            fusion_gain: self.fusion_gain,
            maximum_working_flow_kg_s: self.maximum_working_flow_kg_s,
            charged_energy_fraction: self.reaction.charged_energy_fraction(),
            plasma_coupling_efficiency: self.plasma_coupling_efficiency,
            magnetic_nozzle_efficiency: self.magnetic_nozzle_efficiency,
            radiator_heat_rejection_w: radiated_w(
                math,
                self.radiator_area_m2,
                self.radiator_temperature_k,
                self.radiator_emissivity,
            ),
            dry_mass_kg: self.maximum_fusion_power_w / self.reactor_specific_power_w_kg + wall_volume_m3
                * self.structure_density_kg_m3 + coil_m3 * copper_density_kg_m3() + self.radiator_area_m2
                * self.radiator_areal_density_kg_m2,
        }
    }

    /// The compiled torch, or what stops it.
    pub open spec fn compiled<M: Numerics>(self, math: &M) -> Result<CompiledFusionTorch, Fault> {
        let engine = self.sized(math);
        match checks().part(self.value_fault()).part(
            radiator_fault(
                math,
                self.radiator_area_m2,
                self.radiator_temperature_k,
                self.radiator_emissivity,
                self.radiator_areal_density_kg_m2,
            ),
        ).fault {
            Some(fault) => Err(fault),
            None => if !engine.dry_mass_kg.is_finite() || engine.dry_mass_kg <= zero() {
                Err(bad_spec("fusion torch mass sizing overflowed"))
            } else {
                Ok(engine)
            },
        }
    }

    /// Compiles the torch.
    pub fn compile<M: Numerics>(self, math: &M) -> (r: Result<CompiledFusionTorch, PropulsionError>)
        ensures
            repeatable(math) ==> seen(r) == self.compiled(math),
            self.value_fault() is Some ==> seen(r) == self.compiled(math),
    {
        self.check_values()?;
        validate_radiator(
            math,
            self.radiator_area_m2,
            self.radiator_temperature_k,
            self.radiator_emissivity,
            self.radiator_areal_density_kg_m2,
        )?;
        let engine: CompiledFusionTorch = self.sized(math);
        if !engine.dry_mass_kg.is_finite() || engine.dry_mass_kg <= zero() {
            return Err(invalid_spec("fusion torch mass sizing overflowed"));
        }
        Ok(engine)
    }
}

/// Continuous torch command: available driver power and working-fluid flow.
#[derive(Debug, Clone, Copy, PartialEq)]
pub struct FusionTorchCommand {
    pub available_driver_power_w: F64,
    pub requested_working_flow_kg_s: F64,
}

/// Continuous torch operating point with energy and limit telemetry.
#[derive(Debug, Clone, Copy, PartialEq)]
pub struct FusionTorchOperatingPoint {
    pub thrust_n: F64,
    pub exhaust_velocity_mps: F64,
    pub isp_s: F64,
    pub fusion_power_w: F64,
    pub driver_power_w: F64,
    pub fusion_fuel_flow_kg_s: F64,
    pub working_flow_kg_s: F64,
    pub total_exhaust_flow_kg_s: F64,
    pub jet_kinetic_power_w: F64,
    pub exhaust_internal_power_w: F64,
    pub waste_heat_w: F64,
    pub radiator_capacity_w: F64,
    pub power_limited: bool,
    pub flow_limited: bool,
    pub thermal_limited: bool,
}

impl FusionTorchOperatingPoint {
    /// The values that must be finite for the point to stand.
    pub open spec fn numbers(&self) -> Seq<F64> {
        seq![
            self.thrust_n,
            self.exhaust_velocity_mps,
            self.isp_s,
            self.fusion_power_w,
            self.driver_power_w,
            self.fusion_fuel_flow_kg_s,
            self.working_flow_kg_s,
            self.total_exhaust_flow_kg_s,
            self.jet_kinetic_power_w,
            self.exhaust_internal_power_w,
            self.waste_heat_w,
        ]
    }
}

impl CompiledFusionTorch {
    /// [`Self::balance`] in contracts.
    pub open spec fn balance_spec(&self, command: FusionTorchCommand) -> FusionTorchOperatingPoint {
        let charged = self.charged_energy_fraction;
        let local_heat_per_fusion_w = whole(1) / self.fusion_gain + (whole(1) - charged) + charged * (whole(1)
            - self.plasma_coupling_efficiency);
        let thermal_fusion_limit_w = self.radiator_heat_rejection_w / local_heat_per_fusion_w;
        let requested_fusion_power_w = command.available_driver_power_w * self.fusion_gain;
        let fusion_power_w = requested_fusion_power_w.min(self.maximum_fusion_power_w).min(thermal_fusion_limit_w);
        let driver_power_w = fusion_power_w / self.fusion_gain;
        let fusion_fuel_flow_kg_s = fusion_power_w / self.reaction.energy_release_j_kg();
        let working_flow_kg_s = command.requested_working_flow_kg_s.min(self.maximum_working_flow_kg_s);
        let total_exhaust_flow_kg_s = fusion_fuel_flow_kg_s + working_flow_kg_s;
        let useful_fraction = charged * self.plasma_coupling_efficiency * self.magnetic_nozzle_efficiency;
        let jet_kinetic_power_w = fusion_power_w * useful_fraction;
        let exhaust_internal_power_w = fusion_power_w * charged * self.plasma_coupling_efficiency * (whole(1)
            - self.magnetic_nozzle_efficiency);
        let waste_heat_w = driver_power_w + fusion_power_w * (whole(1) - charged) + fusion_power_w * charged * (whole(1)
            - self.plasma_coupling_efficiency);
        let thrust_n = if total_exhaust_flow_kg_s > zero() {
            (whole(2) * jet_kinetic_power_w * total_exhaust_flow_kg_s).sqrt()
        } else {
            zero()
        };
        let exhaust_velocity_mps = if total_exhaust_flow_kg_s > zero() {
            thrust_n / total_exhaust_flow_kg_s
        } else {
            zero()
        };
        FusionTorchOperatingPoint {
            thrust_n,
            exhaust_velocity_mps,
            isp_s: exhaust_velocity_mps / standard_gravity_mps2(),
            fusion_power_w,
            driver_power_w,
            fusion_fuel_flow_kg_s,
            working_flow_kg_s,
            total_exhaust_flow_kg_s,
            jet_kinetic_power_w,
            exhaust_internal_power_w,
            waste_heat_w,
            radiator_capacity_w: self.radiator_heat_rejection_w,
            power_limited: requested_fusion_power_w > self.maximum_fusion_power_w,
            flow_limited: command.requested_working_flow_kg_s > self.maximum_working_flow_kg_s,
            thermal_limited: thermal_fusion_limit_w < requested_fusion_power_w.min(self.maximum_fusion_power_w),
        }
    }

    /// The energy balance at a command.
    #[verifier::when_used_as_spec(balance_spec)]
    pub fn balance(&self, command: FusionTorchCommand) -> (r: FusionTorchOperatingPoint)
        ensures
            r == self.balance(command),
    {
        let charged = self.charged_energy_fraction;
        let local_heat_per_fusion_w = whole(1) / self.fusion_gain + (whole(1) - charged) + charged * (whole(1)
            - self.plasma_coupling_efficiency);
        let thermal_fusion_limit_w = self.radiator_heat_rejection_w / local_heat_per_fusion_w;
        let requested_fusion_power_w = command.available_driver_power_w * self.fusion_gain;
        let fusion_power_w = requested_fusion_power_w.min(self.maximum_fusion_power_w).min(thermal_fusion_limit_w);
        let driver_power_w = fusion_power_w / self.fusion_gain;
        let fusion_fuel_flow_kg_s = fusion_power_w / self.reaction.energy_release_j_kg();
        let working_flow_kg_s = command.requested_working_flow_kg_s.min(self.maximum_working_flow_kg_s);
        let total_exhaust_flow_kg_s = fusion_fuel_flow_kg_s + working_flow_kg_s;
        let useful_fraction = charged * self.plasma_coupling_efficiency * self.magnetic_nozzle_efficiency;
        let jet_kinetic_power_w = fusion_power_w * useful_fraction;
        let exhaust_internal_power_w = fusion_power_w * charged * self.plasma_coupling_efficiency * (whole(1)
            - self.magnetic_nozzle_efficiency);
        let waste_heat_w = driver_power_w + fusion_power_w * (whole(1) - charged) + fusion_power_w * charged * (whole(1)
            - self.plasma_coupling_efficiency);
        let thrust_n = if total_exhaust_flow_kg_s > zero() {
            (whole(2) * jet_kinetic_power_w * total_exhaust_flow_kg_s).sqrt()
        } else {
            zero()
        };
        let exhaust_velocity_mps = if total_exhaust_flow_kg_s > zero() {
            thrust_n / total_exhaust_flow_kg_s
        } else {
            zero()
        };
        FusionTorchOperatingPoint {
            thrust_n,
            exhaust_velocity_mps,
            isp_s: exhaust_velocity_mps / standard_gravity_mps2(),
            fusion_power_w,
            driver_power_w,
            fusion_fuel_flow_kg_s,
            working_flow_kg_s,
            total_exhaust_flow_kg_s,
            jet_kinetic_power_w,
            exhaust_internal_power_w,
            waste_heat_w,
            radiator_capacity_w: self.radiator_heat_rejection_w,
            power_limited: requested_fusion_power_w > self.maximum_fusion_power_w,
            flow_limited: command.requested_working_flow_kg_s > self.maximum_working_flow_kg_s,
            thermal_limited: thermal_fusion_limit_w < requested_fusion_power_w.min(self.maximum_fusion_power_w),
        }
    }

    /// The operating point at a command, or what stops it.
    pub open spec fn point(&self, command: FusionTorchCommand) -> Result<FusionTorchOperatingPoint, Fault> {
        if !command.available_driver_power_w.is_finite() || command.available_driver_power_w < zero() {
            Err(bad_command("available fusion driver power must be finite and >= 0"))
        } else if !command.requested_working_flow_kg_s.is_finite() || command.requested_working_flow_kg_s < zero() {
            Err(bad_command("fusion working-fluid flow must be finite and >= 0"))
        } else if !all_finite_in(self.balance(command).numbers()) {
            Err(bad_command("fusion torch operating point overflowed"))
        } else {
            Ok(self.balance(command))
        }
    }

    /// Evaluates the operating point at a command.
    pub fn operating_point(
        &self,
        command: FusionTorchCommand,
    ) -> (r: Result<FusionTorchOperatingPoint, PropulsionError>)
        ensures
            seen(r) == self.point(command),
    {
        if !command.available_driver_power_w.is_finite() || command.available_driver_power_w < zero() {
            return Err(invalid_command("available fusion driver power must be finite and >= 0"));
        }
        if !command.requested_working_flow_kg_s.is_finite() || command.requested_working_flow_kg_s < zero() {
            return Err(invalid_command("fusion working-fluid flow must be finite and >= 0"));
        }
        let point: FusionTorchOperatingPoint = self.balance(command);
        if !all_finite(
            &vec![
                point.thrust_n,
                point.exhaust_velocity_mps,
                point.isp_s,
                point.fusion_power_w,
                point.driver_power_w,
                point.fusion_fuel_flow_kg_s,
                point.working_flow_kg_s,
                point.total_exhaust_flow_kg_s,
                point.jet_kinetic_power_w,
                point.exhaust_internal_power_w,
                point.waste_heat_w,
            ],
        ) {
            return Err(invalid_command("fusion torch operating point overflowed"));
        }
        Ok(point)
    }
}

/// What is wrong with a mount frame, if anything.
pub open spec fn frame_fault(name: Seq<char>, position_body_m: Vector, thrust_axis_body: Vector) -> Option<Fault> {
    checks()
        .refuse(blank(name), bad_spec("fusion mount needs a name"))
        .refuse(
            !position_body_m.is_finite() || !thrust_axis_body.is_finite(),
            bad_spec("fusion mount frame must be finite"),
        )
        .refuse(!thrust_axis_body.is_unit(), bad_spec("fusion mount thrust axis must be unit length"))
        .fault
}

fn validate_mount_frame(
    name: &str,
    position_body_m: Vector,
    thrust_axis_body: Vector,
) -> (r: Result<(), PropulsionError>)
    ensures
        seen(r) == outcome(frame_fault(name@, position_body_m, thrust_axis_body)),
{
    if is_blank(name) {
        return Err(invalid_spec("fusion mount needs a name"));
    }
    if !position_body_m.is_finite() || !thrust_axis_body.is_finite() {
        return Err(invalid_spec("fusion mount frame must be finite"));
    }
    if !thrust_axis_body.is_unit() {
        return Err(invalid_spec("fusion mount thrust axis must be unit length"));
    }
    Ok(())
}

/// One installed continuous fusion torch.
#[derive(Debug, Clone, PartialEq)]
pub struct FusionTorchMount {
    pub name: String,
    pub engine: CompiledFusionTorch,
    pub position_body_m: Vector,
    pub thrust_axis_body: Vector,
}

impl FusionTorchMount {
    pub fn validate(&self) -> (r: Result<(), PropulsionError>)
        ensures
            seen(r) == outcome(frame_fault(self.name@, self.position_body_m, self.thrust_axis_body)),
    {
        validate_mount_frame(self.name.as_str(), self.position_body_m, self.thrust_axis_body)
    }

    pub fn operating_point(
        &self,
        command: FusionTorchCommand,
    ) -> (r: Result<FusionTorchOperatingPoint, PropulsionError>)
        ensures
            seen(r) == self.engine.point(command),
    {
        self.engine.operating_point(command)
    }
}

/// Authoring data of a discrete pellet fusion engine.
#[derive(Debug, Clone, PartialEq)]
pub struct PulsedFusionSpec {
    pub name: String,
    pub reaction: FusionReaction,
    pub working_fluid: ElectricPropellant,
    pub fuel_mass_per_pulse_kg: F64,
    pub working_fluid_mass_per_pulse_kg: F64,
    pub fusion_gain: F64,
    pub plasma_coupling_efficiency: F64,
    pub magnetic_nozzle_efficiency: F64,
    pub maximum_pulse_frequency_hz: F64,
    pub pulse_duration_s: F64,
    pub maximum_charge_power_w: F64,
    pub energy_buffer_capacity_pulses: u8,
    pub energy_buffer_specific_energy_j_kg: F64,
    pub pulse_system_specific_power_w_kg: F64,
    pub chamber_radius_m: F64,
    pub chamber_length_m: F64,
    pub magnetic_field_t: F64,
    pub coil_current_density_a_m2: F64,
    pub structure_density_kg_m3: F64,
    pub structure_thickness_m: F64,
    pub radiator_area_m2: F64,
    pub radiator_temperature_k: F64,
    pub radiator_emissivity: F64,
    pub radiator_areal_density_kg_m2: F64,
}

/// Compiled pulsed fusion system. Driver storage and pulse cadence are separate
/// from the continuous torch.
#[derive(Debug, Clone, Copy, PartialEq)]
pub struct CompiledPulsedFusion {
    pub reaction: FusionReaction,
    pub working_fluid: ElectricPropellant,
    pub fuel_mass_per_pulse_kg: F64,
    pub working_fluid_mass_per_pulse_kg: F64,
    pub fusion_energy_per_pulse_j: F64,
    pub peak_fusion_power_w: F64,
    pub driver_energy_per_pulse_j: F64,
    pub jet_energy_per_pulse_j: F64,
    pub exhaust_internal_energy_per_pulse_j: F64,
    pub waste_heat_per_pulse_j: F64,
    pub rated_pulse_interval_s: F64,
    pub pulse_interval_s: F64,
    pub thermal_pulse_interval_s: F64,
    pub maximum_charge_power_w: F64,
    pub buffer_capacity_j: F64,
    pub radiator_heat_rejection_w: F64,
    pub dry_mass_kg: F64,
}

impl PulsedFusionSpec {
    /// What is wrong with the authoring values before the radiator is asked.
    pub open spec fn value_fault(&self) -> Option<Fault> {
        checks()
            .refuse(blank(self.name@), bad_spec("pulsed fusion name must not be empty"))
            .refuse(
                !all_finite_in(
                    seq![
                        self.fuel_mass_per_pulse_kg,
                        self.working_fluid_mass_per_pulse_kg,
                        self.fusion_gain,
                        self.plasma_coupling_efficiency,
                        self.magnetic_nozzle_efficiency,
                        self.maximum_pulse_frequency_hz,
                        self.pulse_duration_s,
                        self.maximum_charge_power_w,
                        self.energy_buffer_specific_energy_j_kg,
                        self.pulse_system_specific_power_w_kg,
                        self.chamber_radius_m,
                        self.chamber_length_m,
                        self.magnetic_field_t,
                        self.coil_current_density_a_m2,
                        self.structure_density_kg_m3,
                        self.structure_thickness_m,
                        self.radiator_area_m2,
                        self.radiator_temperature_k,
                        self.radiator_emissivity,
                        self.radiator_areal_density_kg_m2,
                    ],
                ),
                bad_spec("pulsed fusion authoring values must be finite"),
            )
            .positive(self.fuel_mass_per_pulse_kg, "fusion fuel mass per pulse")
            .non_negative(self.working_fluid_mass_per_pulse_kg, "working-fluid mass per pulse")
            .refuse(self.fusion_gain <= whole(1), bad_spec("pulsed fusion gain must exceed one"))
            .unit_interval(self.plasma_coupling_efficiency, "pulse plasma coupling")
            .unit_interval(self.magnetic_nozzle_efficiency, "pulse nozzle efficiency")
            .refuse(
                self.plasma_coupling_efficiency.same(zero()) || self.magnetic_nozzle_efficiency.same(zero()),
                bad_spec("pulse coupling and nozzle efficiencies must be in (0, 1]"),
            )
            .positive(self.maximum_pulse_frequency_hz, "maximum pulse frequency")
            .positive(self.pulse_duration_s, "fusion pulse duration")
            .refuse(
                self.maximum_pulse_frequency_hz * self.pulse_duration_s > whole(1),
                bad_spec("pulse duration must fit within the rated pulse interval"),
            )
            .positive(self.maximum_charge_power_w, "fusion driver charge power")
            .refuse(
                !(1 <= self.energy_buffer_capacity_pulses <= 16),
                bad_spec("fusion buffer capacity must be in 1..=16 pulse energies"),
            )
            .positive(self.energy_buffer_specific_energy_j_kg, "fusion energy-buffer specific energy")
            .positive(self.pulse_system_specific_power_w_kg, "fusion pulse-system specific power")
            .positive(self.chamber_radius_m, "fusion pulse chamber radius")
            .positive(self.chamber_length_m, "fusion pulse chamber length")
            .positive(self.magnetic_field_t, "pulsed fusion field")
            .positive(self.coil_current_density_a_m2, "pulsed fusion coil current density")
            .positive(self.structure_density_kg_m3, "pulsed fusion structure density")
            .positive(self.structure_thickness_m, "pulsed fusion wall thickness")
            .fault
    }

    fn check_values(&self) -> (r: Result<(), PropulsionError>)
        ensures
            seen(r) == outcome(self.value_fault()),
    {
        if is_blank(self.name.as_str()) {
            return Err(invalid_spec("pulsed fusion name must not be empty"));
        }
        if !all_finite(
            &vec![
                self.fuel_mass_per_pulse_kg,
                self.working_fluid_mass_per_pulse_kg,
                self.fusion_gain,
                self.plasma_coupling_efficiency,
                self.magnetic_nozzle_efficiency,
                self.maximum_pulse_frequency_hz,
                self.pulse_duration_s,
                self.maximum_charge_power_w,
                self.energy_buffer_specific_energy_j_kg,
                self.pulse_system_specific_power_w_kg,
                self.chamber_radius_m,
                self.chamber_length_m,
                self.magnetic_field_t,
                self.coil_current_density_a_m2,
                self.structure_density_kg_m3,
                self.structure_thickness_m,
                self.radiator_area_m2,
                self.radiator_temperature_k,
                self.radiator_emissivity,
                self.radiator_areal_density_kg_m2,
            ],
        ) {
            return Err(invalid_spec("pulsed fusion authoring values must be finite"));
        }
        require_positive(self.fuel_mass_per_pulse_kg, "fusion fuel mass per pulse")?;
        require_non_negative(self.working_fluid_mass_per_pulse_kg, "working-fluid mass per pulse")?;
        if self.fusion_gain <= whole(1) {
            return Err(invalid_spec("pulsed fusion gain must exceed one"));
        }
        require_unit_interval(self.plasma_coupling_efficiency, "pulse plasma coupling")?;
        require_unit_interval(self.magnetic_nozzle_efficiency, "pulse nozzle efficiency")?;
        if self.plasma_coupling_efficiency.same(zero()) || self.magnetic_nozzle_efficiency.same(zero()) {
            return Err(invalid_spec("pulse coupling and nozzle efficiencies must be in (0, 1]"));
        }
        require_positive(self.maximum_pulse_frequency_hz, "maximum pulse frequency")?;
        require_positive(self.pulse_duration_s, "fusion pulse duration")?;
        if self.maximum_pulse_frequency_hz * self.pulse_duration_s > whole(1) {
            return Err(invalid_spec("pulse duration must fit within the rated pulse interval"));
        }
        require_positive(self.maximum_charge_power_w, "fusion driver charge power")?;
        if self.energy_buffer_capacity_pulses < 1 || self.energy_buffer_capacity_pulses > 16 {
            return Err(invalid_spec("fusion buffer capacity must be in 1..=16 pulse energies"));
        }
        require_positive(self.energy_buffer_specific_energy_j_kg, "fusion energy-buffer specific energy")?;
        require_positive(self.pulse_system_specific_power_w_kg, "fusion pulse-system specific power")?;
        require_positive(self.chamber_radius_m, "fusion pulse chamber radius")?;
        require_positive(self.chamber_length_m, "fusion pulse chamber length")?;
        require_positive(self.magnetic_field_t, "pulsed fusion field")?;
        require_positive(self.coil_current_density_a_m2, "pulsed fusion coil current density")?;
        require_positive(self.structure_density_kg_m3, "pulsed fusion structure density")?;
        require_positive(self.structure_thickness_m, "pulsed fusion wall thickness")?;
        Ok(())
    }

    /// [`Self::sized`] in contracts.
    pub open spec fn sized_spec<M: Numerics>(&self, math: &M) -> CompiledPulsedFusion {
        let fusion_energy_per_pulse_j = self.fuel_mass_per_pulse_kg * self.reaction.energy_release_j_kg();
        let driver_energy_per_pulse_j = fusion_energy_per_pulse_j / self.fusion_gain;
        let charged = self.reaction.data().charged_energy_fraction;
        let coupled_nozzle_fraction = self.plasma_coupling_efficiency * self.magnetic_nozzle_efficiency;
        let jet_energy_per_pulse_j = fusion_energy_per_pulse_j * charged * coupled_nozzle_fraction;
        let exhaust_internal_energy_per_pulse_j = fusion_energy_per_pulse_j * charged * self.plasma_coupling_efficiency * (
        whole(1) - self.magnetic_nozzle_efficiency);
        let waste_heat_per_pulse_j = driver_energy_per_pulse_j + fusion_energy_per_pulse_j * (whole(1) - charged)
            + fusion_energy_per_pulse_j * charged * (whole(1) - self.plasma_coupling_efficiency);
        let rated_pulse_interval_s = whole(1) / self.maximum_pulse_frequency_hz;
        let radiator_heat_rejection_w = radiated_w(
            math,
            self.radiator_area_m2,
            self.radiator_temperature_k,
            self.radiator_emissivity,
        );
        let thermal_pulse_interval_s = if waste_heat_per_pulse_j > zero() {
            waste_heat_per_pulse_j / radiator_heat_rejection_w
        } else {
            zero()
        };
        let pulse_interval_s = rated_pulse_interval_s.max(thermal_pulse_interval_s).max(self.pulse_duration_s);
        let peak_fusion_power_w = fusion_energy_per_pulse_j / self.pulse_duration_s;
        let buffer_capacity_j = driver_energy_per_pulse_j * whole(self.energy_buffer_capacity_pulses as u64);
        let wall_volume_m3 = thermal_chamber_volume(
            math,
            self.chamber_radius_m,
            self.chamber_length_m,
            self.structure_thickness_m,
        );
        let coil_m3 = coil_volume_m3(
            self.magnetic_field_t,
            self.chamber_length_m,
            self.coil_current_density_a_m2,
            self.chamber_radius_m,
        );
        CompiledPulsedFusion {
            reaction: self.reaction,
            working_fluid: self.working_fluid,
            fuel_mass_per_pulse_kg: self.fuel_mass_per_pulse_kg,
            working_fluid_mass_per_pulse_kg: self.working_fluid_mass_per_pulse_kg,
            fusion_energy_per_pulse_j,
            peak_fusion_power_w,
            driver_energy_per_pulse_j,
            jet_energy_per_pulse_j,
            exhaust_internal_energy_per_pulse_j,
            waste_heat_per_pulse_j,
            rated_pulse_interval_s,
            pulse_interval_s,
            thermal_pulse_interval_s,
            maximum_charge_power_w: self.maximum_charge_power_w,
            buffer_capacity_j,
            radiator_heat_rejection_w,
            dry_mass_kg: peak_fusion_power_w / self.pulse_system_specific_power_w_kg + buffer_capacity_j
                / self.energy_buffer_specific_energy_j_kg + self.maximum_charge_power_w
                / self.pulse_system_specific_power_w_kg + wall_volume_m3 * self.structure_density_kg_m3 + coil_m3
                * copper_density_kg_m3() + self.radiator_area_m2 * self.radiator_areal_density_kg_m2,
        }
    }

    /// The system sized on pulse energies, buffer, chamber and radiator. The
    /// buffer is lossless: driver energy is charged into storage and later
    /// released to the pellet system without hidden heat.
    #[verifier::when_used_as_spec(sized_spec)]
    pub fn sized<M: Numerics>(&self, math: &M) -> (r: CompiledPulsedFusion)
        ensures
            repeatable(math) ==> r == self.sized(math),
    {
        let fusion_energy_per_pulse_j = self.fuel_mass_per_pulse_kg * self.reaction.energy_release_j_kg();
        let driver_energy_per_pulse_j = fusion_energy_per_pulse_j / self.fusion_gain;
        let charged = self.reaction.data().charged_energy_fraction;
        let coupled_nozzle_fraction = self.plasma_coupling_efficiency * self.magnetic_nozzle_efficiency;
        let jet_energy_per_pulse_j = fusion_energy_per_pulse_j * charged * coupled_nozzle_fraction;
        let exhaust_internal_energy_per_pulse_j = fusion_energy_per_pulse_j * charged * self.plasma_coupling_efficiency * (
        whole(1) - self.magnetic_nozzle_efficiency);
        let waste_heat_per_pulse_j = driver_energy_per_pulse_j + fusion_energy_per_pulse_j * (whole(1) - charged)
            + fusion_energy_per_pulse_j * charged * (whole(1) - self.plasma_coupling_efficiency);
        let rated_pulse_interval_s = whole(1) / self.maximum_pulse_frequency_hz;
        let radiator_heat_rejection_w = radiated_w(
            math,
            self.radiator_area_m2,
            self.radiator_temperature_k,
            self.radiator_emissivity,
        );
        let thermal_pulse_interval_s = if waste_heat_per_pulse_j > zero() {
            waste_heat_per_pulse_j / radiator_heat_rejection_w
        } else {
            zero()
        };
        let pulse_interval_s = rated_pulse_interval_s.max(thermal_pulse_interval_s).max(self.pulse_duration_s);
        let peak_fusion_power_w = fusion_energy_per_pulse_j / self.pulse_duration_s;
        let buffer_capacity_j = driver_energy_per_pulse_j * whole(self.energy_buffer_capacity_pulses as u64);
        let wall_volume_m3 = thermal_chamber_volume(
            math,
            self.chamber_radius_m,
            self.chamber_length_m,
            self.structure_thickness_m,
        );
        let coil_m3 = coil_volume_m3(
            self.magnetic_field_t,
            self.chamber_length_m,
            self.coil_current_density_a_m2,
            self.chamber_radius_m,
        );
        CompiledPulsedFusion {
            reaction: self.reaction,
            working_fluid: self.working_fluid,
            fuel_mass_per_pulse_kg: self.fuel_mass_per_pulse_kg,
            working_fluid_mass_per_pulse_kg: self.working_fluid_mass_per_pulse_kg,
            fusion_energy_per_pulse_j,
            peak_fusion_power_w,
            driver_energy_per_pulse_j,
            jet_energy_per_pulse_j,
            exhaust_internal_energy_per_pulse_j,
            waste_heat_per_pulse_j,
            rated_pulse_interval_s,
            pulse_interval_s,
            thermal_pulse_interval_s,
            maximum_charge_power_w: self.maximum_charge_power_w,
            buffer_capacity_j,
            radiator_heat_rejection_w,
            dry_mass_kg: peak_fusion_power_w / self.pulse_system_specific_power_w_kg + buffer_capacity_j
                / self.energy_buffer_specific_energy_j_kg + self.maximum_charge_power_w
                / self.pulse_system_specific_power_w_kg + wall_volume_m3 * self.structure_density_kg_m3 + coil_m3
                * copper_density_kg_m3() + self.radiator_area_m2 * self.radiator_areal_density_kg_m2,
        }
    }

    /// The compiled system, or what stops it.
    pub open spec fn compiled<M: Numerics>(self, math: &M) -> Result<CompiledPulsedFusion, Fault> {
        let engine = self.sized(math);
        match checks().part(self.value_fault()).part(
            radiator_fault(
                math,
                self.radiator_area_m2,
                self.radiator_temperature_k,
                self.radiator_emissivity,
                self.radiator_areal_density_kg_m2,
            ),
        ).fault {
            Some(fault) => Err(fault),
            None => if !engine.is_sound() {
                Err(bad_spec("pulsed fusion mass/energy sizing overflowed"))
            } else {
                Ok(engine)
            },
        }
    }

    /// Compiles the system.
    pub fn compile<M: Numerics>(self, math: &M) -> (r: Result<CompiledPulsedFusion, PropulsionError>)
        ensures
            repeatable(math) ==> seen(r) == self.compiled(math),
            self.value_fault() is Some ==> seen(r) == self.compiled(math),
            r is Ok ==> r->Ok_0.is_sound(),
    {
        self.check_values()?;
        validate_radiator(
            math,
            self.radiator_area_m2,
            self.radiator_temperature_k,
            self.radiator_emissivity,
            self.radiator_areal_density_kg_m2,
        )?;
        let engine: CompiledPulsedFusion = self.sized(math);
        if !engine.is_sound() {
            return Err(invalid_spec("pulsed fusion mass/energy sizing overflowed"));
        }
        Ok(engine)
    }
}

/// Persistent state of a pulsed fusion drive.
#[derive(Debug, Clone, Copy, PartialEq)]
pub struct PulsedFusionState {
    /// Elapsed time since the last shot, paused while the system is disarmed.
    pub pulse_phase_s: F64,
    /// Charged driver energy currently held by the finite pulse buffer (J).
    pub stored_driver_energy_j: F64,
    pub cumulative_shots: u64,
}

impl Default for PulsedFusionState {
    fn default() -> (r: PulsedFusionState)
        ensures
            r == (PulsedFusionState { pulse_phase_s: zero(), stored_driver_energy_j: zero(), cumulative_shots: 0 }),
    {
        PulsedFusionState { pulse_phase_s: zero(), stored_driver_energy_j: zero(), cumulative_shots: 0 }
    }
}

/// Bus and arming command of a pulsed fusion engine.
#[derive(Debug, Clone, Copy, PartialEq)]
pub struct PulsedFusionCommand {
    pub available_charge_power_w: F64,
    pub armed: bool,
}

/// Step result of a pulsed fusion engine. Impulse is accumulated over the step.
#[derive(Debug, Clone, Copy, PartialEq)]
pub struct PulsedFusionOperatingPoint {
    pub pulses_fired: u32,
    pub impulse_ns: F64,
    pub average_thrust_n: F64,
    pub fuel_mass_flow_kg_s: F64,
    pub working_flow_kg_s: F64,
    pub total_exhaust_flow_kg_s: F64,
    pub effective_exhaust_velocity_mps: F64,
    pub effective_isp_s: F64,
    pub fusion_power_w: F64,
    pub charged_driver_power_w: F64,
    pub driver_energy_consumed_j: F64,
    pub bus_energy_input_j: F64,
    pub buffer_energy_delta_j: F64,
    pub fusion_energy_j: F64,
    pub jet_kinetic_energy_j: F64,
    pub exhaust_internal_energy_j: F64,
    pub waste_heat_j: F64,
    pub waste_heat_w: F64,
    pub radiator_capacity_w: F64,
    pub stored_driver_energy_j: F64,
    pub power_limited: bool,
    pub thermal_limited: bool,
}

impl PulsedFusionOperatingPoint {
    /// The values that must be finite for the point to stand.
    pub open spec fn numbers(&self) -> Seq<F64> {
        seq![
            self.impulse_ns,
            self.average_thrust_n,
            self.fuel_mass_flow_kg_s,
            self.working_flow_kg_s,
            self.total_exhaust_flow_kg_s,
            self.effective_exhaust_velocity_mps,
            self.effective_isp_s,
            self.fusion_power_w,
            self.charged_driver_power_w,
            self.bus_energy_input_j,
            self.buffer_energy_delta_j,
            self.fusion_energy_j,
            self.jet_kinetic_energy_j,
            self.exhaust_internal_energy_j,
            self.waste_heat_j,
            self.waste_heat_w,
            self.stored_driver_energy_j,
        ]
    }
}

/// How far a step has come.
#[derive(Debug, Clone, Copy, PartialEq)]
pub struct PulseRun {
    pub stored_j: F64,
    pub phase_s: F64,
    pub remaining_s: F64,
    pub bus_energy_input_j: F64,
    pub pulses_fired: u32,
}

/// The tolerances of a step.
#[derive(Debug, Clone, Copy, PartialEq)]
pub struct PulseTolerance {
    pub time_s: F64,
    pub energy_j: F64,
}

/// The most events that one step may hold.
pub const MAX_PULSE_EVENTS: u32 = 1_000_000;

/// What becomes of a run at an event.
pub enum PulseEvent {
    /// The step ends here.
    Done(PulseRun),
    /// The step goes on.
    Continue(PulseRun),
}

impl CompiledPulsedFusion {
    /// [`Self::is_sound`] in contracts.
    pub open spec fn is_sound_spec(&self) -> bool {
        self.buffer_capacity_j.is_finite() && self.pulse_interval_s.is_finite() && self.thermal_pulse_interval_s.is_finite()
            && self.fusion_energy_per_pulse_j.is_finite() && !(self.fusion_energy_per_pulse_j <= zero())
            && self.driver_energy_per_pulse_j.is_finite() && !(self.driver_energy_per_pulse_j <= zero())
            && self.jet_energy_per_pulse_j.is_finite() && !(self.jet_energy_per_pulse_j <= zero())
            && self.exhaust_internal_energy_per_pulse_j.is_finite() && self.waste_heat_per_pulse_j.is_finite()
            && self.peak_fusion_power_w.is_finite() && !(self.peak_fusion_power_w <= zero()) && !(self.buffer_capacity_j
            <= zero()) && self.dry_mass_kg.is_finite() && !(self.dry_mass_kg <= zero())
    }

    /// Whether every energy, interval and mass of the system is finite, and those
    /// that are divided by or drawn from are positive.
    #[verifier::when_used_as_spec(is_sound_spec)]
    pub fn is_sound(&self) -> (r: bool)
        ensures
            r == self.is_sound(),
    {
        self.buffer_capacity_j.is_finite() && self.pulse_interval_s.is_finite() && self.thermal_pulse_interval_s.is_finite()
            && self.fusion_energy_per_pulse_j.is_finite() && !(self.fusion_energy_per_pulse_j <= zero())
            && self.driver_energy_per_pulse_j.is_finite() && !(self.driver_energy_per_pulse_j <= zero())
            && self.jet_energy_per_pulse_j.is_finite() && !(self.jet_energy_per_pulse_j <= zero())
            && self.exhaust_internal_energy_per_pulse_j.is_finite() && self.waste_heat_per_pulse_j.is_finite()
            && self.peak_fusion_power_w.is_finite() && !(self.peak_fusion_power_w <= zero()) && !(self.buffer_capacity_j
            <= zero()) && self.dry_mass_kg.is_finite() && !(self.dry_mass_kg <= zero())
    }

    /// [`Self::charge`] in contracts.
    pub open spec fn charge_spec(&self, run: PulseRun, power_w: F64, elapsed_s: F64) -> PulseRun {
        let added_j = (self.buffer_capacity_j - run.stored_j).max(zero()).min(power_w * elapsed_s);
        PulseRun {
            stored_j: (run.stored_j + added_j).min(self.buffer_capacity_j),
            bus_energy_input_j: run.bus_energy_input_j + added_j,
            ..run
        }
    }

    /// Charges the buffer for a while: it takes what fits, and the bus pays that.
    #[verifier::when_used_as_spec(charge_spec)]
    pub fn charge(&self, run: PulseRun, power_w: F64, elapsed_s: F64) -> (r: PulseRun)
        ensures
            r == self.charge(run, power_w, elapsed_s),
    {
        let added_j = (self.buffer_capacity_j - run.stored_j).max(zero()).min(power_w * elapsed_s);
        PulseRun {
            stored_j: (run.stored_j + added_j).min(self.buffer_capacity_j),
            bus_energy_input_j: run.bus_energy_input_j + added_j,
            ..run
        }
    }

    /// [`Self::event_wait_s`] in contracts.
    pub open spec fn event_wait_s_spec(&self, run: PulseRun, power_w: F64, tolerance: PulseTolerance) -> F64 {
        let time_to_pulse_s = (self.pulse_interval_s - run.phase_s).max(zero());
        let time_to_charge_s = if run.stored_j + tolerance.energy_j >= self.driver_energy_per_pulse_j {
            zero()
        } else if power_w > zero() {
            (self.driver_energy_per_pulse_j - run.stored_j) / power_w
        } else {
            F64::infinity()
        };
        time_to_pulse_s.max(time_to_charge_s)
    }

    /// Time until the next shot could be both due and paid for.
    #[verifier::when_used_as_spec(event_wait_s_spec)]
    pub fn event_wait_s(&self, run: PulseRun, power_w: F64, tolerance: PulseTolerance) -> (r: F64)
        ensures
            r == self.event_wait_s(run, power_w, tolerance),
    {
        let time_to_pulse_s = (self.pulse_interval_s - run.phase_s).max(zero());
        let time_to_charge_s = if run.stored_j + tolerance.energy_j >= self.driver_energy_per_pulse_j {
            zero()
        } else if power_w > zero() {
            (self.driver_energy_per_pulse_j - run.stored_j) / power_w
        } else {
            F64::infinity()
        };
        time_to_pulse_s.max(time_to_charge_s)
    }

    /// One event of a step: wait for the next shot, and fire it if it is due and
    /// paid for; or run out the step when it comes later.
    pub open spec fn event(&self, run: PulseRun, power_w: F64, tolerance: PulseTolerance) -> PulseEvent {
        let wait_s = self.event_wait_s(run, power_w, tolerance);
        if !wait_s.is_finite() || wait_s > run.remaining_s {
            PulseEvent::Done(
                PulseRun {
                    phase_s: (run.phase_s + run.remaining_s).min(self.pulse_interval_s),
                    ..self.charge(run, power_w, run.remaining_s)
                },
            )
        } else {
            let waited = PulseRun {
                phase_s: (run.phase_s + wait_s).min(self.pulse_interval_s),
                remaining_s: run.remaining_s - wait_s,
                ..self.charge(run, power_w, wait_s)
            };
            if waited.phase_s + tolerance.time_s >= self.pulse_interval_s && waited.stored_j + tolerance.energy_j
                >= self.driver_energy_per_pulse_j {
                PulseEvent::Continue(
                    PulseRun {
                        stored_j: (waited.stored_j - self.driver_energy_per_pulse_j).max(zero()),
                        phase_s: zero(),
                        pulses_fired: (run.pulses_fired + 1) as u32,
                        ..waited
                    },
                )
            } else if wait_s <= tolerance.time_s {
                PulseEvent::Done(waited)
            } else {
                PulseEvent::Continue(waited)
            }
        }
    }

    /// The rest of a step after `events` events.
    pub open spec fn run_on(
        &self,
        run: PulseRun,
        power_w: F64,
        tolerance: PulseTolerance,
        events: nat,
    ) -> Result<PulseRun, Fault>
        decreases MAX_PULSE_EVENTS - events,
    {
        if !(run.remaining_s > tolerance.time_s) {
            Ok(run)
        } else if events >= MAX_PULSE_EVENTS {
            Err(bad_command("pulsed fusion cadence exceeded the bounded step event count"))
        } else {
            match self.event(run, power_w, tolerance) {
                PulseEvent::Done(last) => Ok(last),
                PulseEvent::Continue(next) => self.run_on(next, power_w, tolerance, events + 1),
            }
        }
    }

    fn run_events(
        &self,
        start: PulseRun,
        power_w: F64,
        tolerance: PulseTolerance,
    ) -> (r: Result<PulseRun, PropulsionError>)
        requires
            start.pulses_fired == 0,
        ensures
            seen(r) == self.run_on(start, power_w, tolerance, 0),
    {
        let mut run: PulseRun = start;
        let mut events: u32 = 0;
        while run.remaining_s > tolerance.time_s
            invariant
                events <= MAX_PULSE_EVENTS,
                run.pulses_fired <= events,
                self.run_on(start, power_w, tolerance, 0) == self.run_on(run, power_w, tolerance, events as nat),
            decreases MAX_PULSE_EVENTS - events,
        {
            if events >= MAX_PULSE_EVENTS {
                return Err(invalid_command("pulsed fusion cadence exceeded the bounded step event count"));
            }
            let before: PulseRun = run;
            let wait_s: F64 = self.event_wait_s(run, power_w, tolerance);
            if !wait_s.is_finite() || wait_s > run.remaining_s {
                let phase_s: F64 = (run.phase_s + run.remaining_s).min(self.pulse_interval_s);
                run = self.charge(run, power_w, run.remaining_s);
                run.phase_s = phase_s;
                assert(self.event(before, power_w, tolerance) == PulseEvent::Done(run));
                return Ok(run);
            }
            let phase_s: F64 = (run.phase_s + wait_s).min(self.pulse_interval_s);
            let remaining_s: F64 = run.remaining_s - wait_s;
            run = self.charge(run, power_w, wait_s);
            run.phase_s = phase_s;
            run.remaining_s = remaining_s;
            if run.phase_s + tolerance.time_s >= self.pulse_interval_s && run.stored_j + tolerance.energy_j
                >= self.driver_energy_per_pulse_j {
                run.stored_j = (run.stored_j - self.driver_energy_per_pulse_j).max(zero());
                run.phase_s = zero();
                run.pulses_fired = run.pulses_fired + 1;
            } else if wait_s <= tolerance.time_s {
                assert(self.event(before, power_w, tolerance) == PulseEvent::Done(run));
                return Ok(run);
            }
            assert(self.event(before, power_w, tolerance) == PulseEvent::Continue(run));
            events = events + 1;
        }
        Ok(run)
    }

    /// [`Self::ledger`] in contracts.
    pub open spec fn ledger_spec(
        &self,
        state: PulsedFusionState,
        command: PulsedFusionCommand,
        dt_s: F64,
        run: PulseRun,
    ) -> PulsedFusionOperatingPoint {
        let rated_charge_power_w = command.available_charge_power_w.min(self.maximum_charge_power_w);
        let pulses = whole(run.pulses_fired as u64);
        let fusion_energy_j = pulses * self.fusion_energy_per_pulse_j;
        let waste_heat_j = pulses * self.waste_heat_per_pulse_j;
        let impulse_per_pulse_ns = (whole(2) * self.jet_energy_per_pulse_j * (self.fuel_mass_per_pulse_kg
            + self.working_fluid_mass_per_pulse_kg)).sqrt();
        let impulse_ns = pulses * impulse_per_pulse_ns;
        let total_mass = pulses * (self.fuel_mass_per_pulse_kg + self.working_fluid_mass_per_pulse_kg);
        let effective_exhaust_velocity_mps = if total_mass > zero() {
            impulse_ns / total_mass
        } else {
            zero()
        };
        PulsedFusionOperatingPoint {
            pulses_fired: run.pulses_fired,
            impulse_ns,
            average_thrust_n: impulse_ns / dt_s,
            fuel_mass_flow_kg_s: pulses * self.fuel_mass_per_pulse_kg / dt_s,
            working_flow_kg_s: pulses * self.working_fluid_mass_per_pulse_kg / dt_s,
            total_exhaust_flow_kg_s: total_mass / dt_s,
            effective_exhaust_velocity_mps,
            effective_isp_s: effective_exhaust_velocity_mps / standard_gravity_mps2(),
            fusion_power_w: fusion_energy_j / dt_s,
            charged_driver_power_w: pulses * self.driver_energy_per_pulse_j / dt_s,
            driver_energy_consumed_j: pulses * self.driver_energy_per_pulse_j,
            bus_energy_input_j: run.bus_energy_input_j,
            buffer_energy_delta_j: run.stored_j - state.stored_driver_energy_j,
            fusion_energy_j,
            jet_kinetic_energy_j: pulses * self.jet_energy_per_pulse_j,
            exhaust_internal_energy_j: pulses * self.exhaust_internal_energy_per_pulse_j,
            waste_heat_j,
            waste_heat_w: waste_heat_j / dt_s,
            radiator_capacity_w: self.radiator_heat_rejection_w,
            stored_driver_energy_j: run.stored_j,
            power_limited: command.armed && rated_charge_power_w * self.pulse_interval_s < self.driver_energy_per_pulse_j,
            thermal_limited: self.thermal_pulse_interval_s > self.rated_pulse_interval_s,
        }
    }

    /// The ledger of a step that ended in `run`.
    #[verifier::when_used_as_spec(ledger_spec)]
    pub fn ledger(
        &self,
        state: PulsedFusionState,
        command: PulsedFusionCommand,
        dt_s: F64,
        run: PulseRun,
    ) -> (r: PulsedFusionOperatingPoint)
        ensures
            r == self.ledger(state, command, dt_s, run),
    {
        let rated_charge_power_w = command.available_charge_power_w.min(self.maximum_charge_power_w);
        let pulses = whole(run.pulses_fired as u64);
        let fusion_energy_j = pulses * self.fusion_energy_per_pulse_j;
        let waste_heat_j = pulses * self.waste_heat_per_pulse_j;
        let impulse_per_pulse_ns = (whole(2) * self.jet_energy_per_pulse_j * (self.fuel_mass_per_pulse_kg
            + self.working_fluid_mass_per_pulse_kg)).sqrt();
        let impulse_ns = pulses * impulse_per_pulse_ns;
        let total_mass = pulses * (self.fuel_mass_per_pulse_kg + self.working_fluid_mass_per_pulse_kg);
        let effective_exhaust_velocity_mps = if total_mass > zero() {
            impulse_ns / total_mass
        } else {
            zero()
        };
        PulsedFusionOperatingPoint {
            pulses_fired: run.pulses_fired,
            impulse_ns,
            average_thrust_n: impulse_ns / dt_s,
            fuel_mass_flow_kg_s: pulses * self.fuel_mass_per_pulse_kg / dt_s,
            working_flow_kg_s: pulses * self.working_fluid_mass_per_pulse_kg / dt_s,
            total_exhaust_flow_kg_s: total_mass / dt_s,
            effective_exhaust_velocity_mps,
            effective_isp_s: effective_exhaust_velocity_mps / standard_gravity_mps2(),
            fusion_power_w: fusion_energy_j / dt_s,
            charged_driver_power_w: pulses * self.driver_energy_per_pulse_j / dt_s,
            driver_energy_consumed_j: pulses * self.driver_energy_per_pulse_j,
            bus_energy_input_j: run.bus_energy_input_j,
            buffer_energy_delta_j: run.stored_j - state.stored_driver_energy_j,
            fusion_energy_j,
            jet_kinetic_energy_j: pulses * self.jet_energy_per_pulse_j,
            exhaust_internal_energy_j: pulses * self.exhaust_internal_energy_per_pulse_j,
            waste_heat_j,
            waste_heat_w: waste_heat_j / dt_s,
            radiator_capacity_w: self.radiator_heat_rejection_w,
            stored_driver_energy_j: run.stored_j,
            power_limited: command.armed && rated_charge_power_w * self.pulse_interval_s < self.driver_energy_per_pulse_j,
            thermal_limited: self.thermal_pulse_interval_s > self.rated_pulse_interval_s,
        }
    }

    /// What is wrong with a step, if anything.
    pub open spec fn step_fault(
        &self,
        state: PulsedFusionState,
        command: PulsedFusionCommand,
        dt_s: F64,
    ) -> Option<Fault> {
        checks()
            .refuse(
                !dt_s.is_finite() || dt_s <= zero(),
                bad_command("pulsed fusion step must be finite and > 0 seconds"),
            )
            .refuse(
                !command.available_charge_power_w.is_finite() || command.available_charge_power_w < zero(),
                bad_command("fusion buffer charge power must be finite and >= 0"),
            )
            .refuse(
                !self.admits(state),
                bad_command("pulsed fusion state is outside its finite energy/phase bounds"),
            )
            .fault
    }

    /// [`Self::admits`] in contracts.
    pub open spec fn admits_spec(&self, state: PulsedFusionState) -> bool {
        state.pulse_phase_s.is_finite() && !(state.pulse_phase_s < zero()) && state.stored_driver_energy_j.is_finite()
            && !(state.stored_driver_energy_j < zero()) && !(state.stored_driver_energy_j > self.buffer_capacity_j)
    }

    /// Whether a state is within its energy and phase bounds.
    #[verifier::when_used_as_spec(admits_spec)]
    pub fn admits(&self, state: PulsedFusionState) -> (r: bool)
        ensures
            r == self.admits(state),
    {
        state.pulse_phase_s.is_finite() && !(state.pulse_phase_s < zero()) && state.stored_driver_energy_j.is_finite()
            && !(state.stored_driver_energy_j < zero()) && !(state.stored_driver_energy_j > self.buffer_capacity_j)
    }

    /// [`Self::run_start`] in contracts.
    pub open spec fn run_start_spec(&self, state: PulsedFusionState, dt_s: F64) -> PulseRun {
        PulseRun {
            stored_j: state.stored_driver_energy_j,
            phase_s: state.pulse_phase_s.min(self.pulse_interval_s),
            remaining_s: dt_s,
            bus_energy_input_j: zero(),
            pulses_fired: 0u32,
        }
    }

    /// The state of a step before anything happens.
    #[verifier::when_used_as_spec(run_start_spec)]
    pub fn run_start(&self, state: PulsedFusionState, dt_s: F64) -> (r: PulseRun)
        ensures
            r == self.run_start(state, dt_s),
    {
        PulseRun {
            stored_j: state.stored_driver_energy_j,
            phase_s: state.pulse_phase_s.min(self.pulse_interval_s),
            remaining_s: dt_s,
            bus_energy_input_j: zero(),
            pulses_fired: 0u32,
        }
    }

    /// [`Self::tolerance`] in contracts.
    pub open spec fn tolerance_spec(&self, dt_s: F64) -> PulseTolerance {
        PulseTolerance {
            time_s: dt_s * whole(16) * epsilon(),
            energy_j: self.driver_energy_per_pulse_j * whole(16) * epsilon(),
        }
    }

    /// The tolerances of a step.
    #[verifier::when_used_as_spec(tolerance_spec)]
    pub fn tolerance(&self, dt_s: F64) -> (r: PulseTolerance)
        ensures
            r == self.tolerance(dt_s),
    {
        PulseTolerance {
            time_s: dt_s * whole(16) * epsilon(),
            energy_j: self.driver_energy_per_pulse_j * whole(16) * epsilon(),
        }
    }

    /// The run of a step: a disarmed system charges and does nothing else.
    pub open spec fn run(
        &self,
        state: PulsedFusionState,
        command: PulsedFusionCommand,
        dt_s: F64,
    ) -> Result<PulseRun, Fault> {
        let power_w = command.available_charge_power_w.min(self.maximum_charge_power_w);
        let start = self.run_start(state, dt_s);
        if command.armed {
            self.run_on(start, power_w, self.tolerance(dt_s), 0)
        } else {
            self.run_on(
                PulseRun { remaining_s: zero(), ..self.charge(start, power_w, dt_s) },
                power_w,
                self.tolerance(dt_s),
                0,
            )
        }
    }

    /// The next state and the step result, or what stops the step.
    pub open spec fn advanced(&self, state: PulsedFusionState, command: PulsedFusionCommand, dt_s: F64) -> Result<
        (PulsedFusionState, PulsedFusionOperatingPoint),
        Fault,
    > {
        match self.step_fault(state, command, dt_s) {
            Some(fault) => Err(fault),
            None => match self.run(state, command, dt_s) {
                Err(fault) => Err(fault),
                Ok(run) => {
                    let point = self.ledger(state, command, dt_s, run);
                    if state.cumulative_shots + run.pulses_fired > u64::MAX {
                        Err(bad_command("pulsed fusion shot counter overflowed"))
                    } else if !all_finite_in(point.numbers()) {
                        Err(bad_command("pulsed fusion operating point overflowed"))
                    } else {
                        Ok(
                            (
                                PulsedFusionState {
                                    pulse_phase_s: run.phase_s,
                                    stored_driver_energy_j: run.stored_j,
                                    cumulative_shots: (state.cumulative_shots + run.pulses_fired) as u64,
                                },
                                point,
                            ),
                        )
                    }
                },
            },
        }
    }

    /// Advances the engine by one step; the returned state must be stored for the
    /// next step.
    pub fn advance(&self, state: PulsedFusionState, command: PulsedFusionCommand, dt_s: F64) -> (r: Result<
        (PulsedFusionState, PulsedFusionOperatingPoint),
        PropulsionError,
    >)
        ensures
            seen(r) == self.advanced(state, command, dt_s),
    {
        if !dt_s.is_finite() || dt_s <= zero() {
            return Err(invalid_command("pulsed fusion step must be finite and > 0 seconds"));
        }
        if !command.available_charge_power_w.is_finite() || command.available_charge_power_w < zero() {
            return Err(invalid_command("fusion buffer charge power must be finite and >= 0"));
        }
        if !self.admits(state) {
            return Err(invalid_command("pulsed fusion state is outside its finite energy/phase bounds"));
        }
        let power_w: F64 = command.available_charge_power_w.min(self.maximum_charge_power_w);
        let mut start: PulseRun = self.run_start(state, dt_s);
        if !command.armed {
            start = self.charge(start, power_w, dt_s);
            start.remaining_s = zero();
        }
        let run: PulseRun = self.run_events(start, power_w, self.tolerance(dt_s))?;
        let point: PulsedFusionOperatingPoint = self.ledger(state, command, dt_s, run);
        let cumulative_shots: u64 = match state.cumulative_shots.checked_add(run.pulses_fired as u64) {
            Some(shots) => shots,
            None => {
                return Err(invalid_command("pulsed fusion shot counter overflowed"));
            },
        };
        if !all_finite(
            &vec![
                point.impulse_ns,
                point.average_thrust_n,
                point.fuel_mass_flow_kg_s,
                point.working_flow_kg_s,
                point.total_exhaust_flow_kg_s,
                point.effective_exhaust_velocity_mps,
                point.effective_isp_s,
                point.fusion_power_w,
                point.charged_driver_power_w,
                point.bus_energy_input_j,
                point.buffer_energy_delta_j,
                point.fusion_energy_j,
                point.jet_kinetic_energy_j,
                point.exhaust_internal_energy_j,
                point.waste_heat_j,
                point.waste_heat_w,
                point.stored_driver_energy_j,
            ],
        ) {
            return Err(invalid_command("pulsed fusion operating point overflowed"));
        }
        Ok(
            (
                PulsedFusionState { pulse_phase_s: run.phase_s, stored_driver_energy_j: run.stored_j, cumulative_shots },
                point,
            ),
        )
    }
}

/// One installed pulsed fusion system.
#[derive(Debug, Clone, PartialEq)]
pub struct PulsedFusionMount {
    pub name: String,
    pub engine: CompiledPulsedFusion,
    pub position_body_m: Vector,
    pub thrust_axis_body: Vector,
}

impl PulsedFusionMount {
    pub fn validate(&self) -> (r: Result<(), PropulsionError>)
        ensures
            seen(r) == outcome(frame_fault(self.name@, self.position_body_m, self.thrust_axis_body)),
    {
        validate_mount_frame(self.name.as_str(), self.position_body_m, self.thrust_axis_body)
    }
}

} // verus!
