//! Steady electric spacecraft thrusters.
//!
//! The model couples requested electrical power and propellant flow to the
//! acceleration mechanism, then limits operation by current, rated flow, and
//! radiative heat rejection. It covers singly charged gridded-ion and Hall
//! accelerators, self-field magnetoplasmadynamic (MPD) acceleration, and
//! electrothermal resistojet and arcjet nozzles.
use crate::constants::standard_gravity_mps2;
use crate::error::{
    bad_command, bad_spec, checks, invalid_command, invalid_spec, outcome, require_positive, require_unit_interval,
    seen, Checks, Fault, PropulsionError,
};
use crate::float::{all_finite, all_finite_in, big, dec, pi, tau, whole, zero, F64};
use crate::numerics::{ln, powi, repeatable, Numerics};
use crate::text::{blank, is_blank, join};
use crate::vector::Vector;
use vstd::prelude::*;

verus! {

/// [`avogadro_per_mol`] in contracts.
pub open spec fn avogadro_per_mol_spec() -> F64 {
    big(602_214_076, 15)
}

/// Avogadro constant (1/mol).
#[verifier::when_used_as_spec(avogadro_per_mol_spec)]
pub fn avogadro_per_mol() -> (r: F64)
    ensures
        r == avogadro_per_mol(),
{
    big(602_214_076, 15)
}

/// [`elementary_charge_c`] in contracts.
pub open spec fn elementary_charge_c_spec() -> F64 {
    dec(1_602_176_634, 28)
}

/// Elementary charge (C).
#[verifier::when_used_as_spec(elementary_charge_c_spec)]
pub fn elementary_charge_c() -> (r: F64)
    ensures
        r == elementary_charge_c(),
{
    dec(1_602_176_634, 28)
}

/// [`molar_gas_constant_j_mol_k`] in contracts.
pub open spec fn molar_gas_constant_j_mol_k_spec() -> F64 {
    dec(831_446_261_815_324, 14)
}

/// Molar gas constant (J/mol/K).
#[verifier::when_used_as_spec(molar_gas_constant_j_mol_k_spec)]
pub fn molar_gas_constant_j_mol_k() -> (r: F64)
    ensures
        r == molar_gas_constant_j_mol_k(),
{
    dec(831_446_261_815_324, 14)
}

/// [`stefan_boltzmann_w_m2_k4`] in contracts.
pub open spec fn stefan_boltzmann_w_m2_k4_spec() -> F64 {
    dec(5_670_374_419, 17)
}

/// Stefan-Boltzmann constant (W/m^2/K^4).
#[verifier::when_used_as_spec(stefan_boltzmann_w_m2_k4_spec)]
pub fn stefan_boltzmann_w_m2_k4() -> (r: F64)
    ensures
        r == stefan_boltzmann_w_m2_k4(),
{
    dec(5_670_374_419, 17)
}

/// [`cosmic_background_temp_k`] in contracts.
pub open spec fn cosmic_background_temp_k_spec() -> F64 {
    dec(2_725, 3)
}

/// Temperature of the cosmic background (K).
#[verifier::when_used_as_spec(cosmic_background_temp_k_spec)]
pub fn cosmic_background_temp_k() -> (r: F64)
    ensures
        r == cosmic_background_temp_k(),
{
    dec(2_725, 3)
}

/// [`vacuum_permeability_h_m`] in contracts.
pub open spec fn vacuum_permeability_h_m_spec() -> F64 {
    dec(4, 7) * pi()
}

/// Vacuum permeability (H/m).
#[verifier::when_used_as_spec(vacuum_permeability_h_m_spec)]
pub fn vacuum_permeability_h_m() -> (r: F64)
    ensures
        r == vacuum_permeability_h_m(),
{
    dec(4, 7) * pi()
}

/// [`copper_density_kg_m3`] in contracts.
pub open spec fn copper_density_kg_m3_spec() -> F64 {
    whole(8_960)
}

/// Density of copper (kg/m^3).
#[verifier::when_used_as_spec(copper_density_kg_m3_spec)]
pub fn copper_density_kg_m3() -> (r: F64)
    ensures
        r == copper_density_kg_m3(),
{
    whole(8_960)
}

/// [`radiated_w`] in contracts.
pub open spec fn radiated_w_spec<M: Numerics>(math: &M, area_m2: F64, temperature_k: F64, emissivity: F64) -> F64 {
    emissivity * stefan_boltzmann_w_m2_k4() * area_m2 * (powi(math, temperature_k, 4) - powi(
        math,
        cosmic_background_temp_k(),
        4,
    ))
}

/// Heat that a radiator rejects above the cosmic background (W).
#[verifier::when_used_as_spec(radiated_w_spec)]
pub fn radiated_w<M: Numerics>(math: &M, area_m2: F64, temperature_k: F64, emissivity: F64) -> (r: F64)
    ensures
        repeatable(math) ==> r == radiated_w(math, area_m2, temperature_k, emissivity),
{
    emissivity * stefan_boltzmann_w_m2_k4() * area_m2 * (powi(math, temperature_k, 4) - powi(
        math,
        cosmic_background_temp_k(),
        4,
    ))
}

/// [`coil_volume_m3`] in contracts.
pub open spec fn coil_volume_m3_spec(field_t: F64, length_m: F64, current_density_a_m2: F64, radius_m: F64) -> F64 {
    field_t * length_m / (vacuum_permeability_h_m() * current_density_a_m2) * tau() * radius_m
}

/// Conductor volume of a field coil round a channel (m^3).
#[verifier::when_used_as_spec(coil_volume_m3_spec)]
pub fn coil_volume_m3(field_t: F64, length_m: F64, current_density_a_m2: F64, radius_m: F64) -> (r: F64)
    ensures
        r == coil_volume_m3(field_t, length_m, current_density_a_m2, radius_m),
{
    field_t * length_m / (vacuum_permeability_h_m() * current_density_a_m2) * tau() * radius_m
}

/// [`thermal_chamber_volume`] in contracts.
pub open spec fn thermal_chamber_volume_spec<M: Numerics>(
    math: &M,
    radius_m: F64,
    length_m: F64,
    thickness_m: F64,
) -> F64 {
    whole(2) * pi() * radius_m * length_m * thickness_m + pi() * powi(math, radius_m, 2) * thickness_m
}

/// Wall volume of a chamber closed at one end (m^3).
#[verifier::when_used_as_spec(thermal_chamber_volume_spec)]
pub fn thermal_chamber_volume<M: Numerics>(math: &M, radius_m: F64, length_m: F64, thickness_m: F64) -> (r: F64)
    ensures
        repeatable(math) ==> r == thermal_chamber_volume(math, radius_m, length_m, thickness_m),
{
    whole(2) * pi() * radius_m * length_m * thickness_m + pi() * powi(math, radius_m, 2) * thickness_m
}

/// Working species with molecular properties. Ionization energies are
/// first-ionization reference values; heat capacity uses a constant gamma.
#[derive(Debug, Clone, Copy, PartialEq, Eq, Hash, Structural)]
pub enum ElectricPropellant {
    Xenon,
    Krypton,
    Argon,
    Iodine,
    Nitrogen,
    Hydrogen,
    Ammonia,
    Water,
}

/// Molecular properties of a species.
#[derive(Debug, Clone, Copy, PartialEq)]
pub struct SpeciesProperties {
    pub molar_mass_kg_mol: F64,
    pub gamma: F64,
    pub first_ionization_ev: F64,
}

impl ElectricPropellant {
    /// [`Self::properties`] in contracts.
    pub open spec fn properties_spec(self) -> SpeciesProperties {
        let monatomic = whole(5) / whole(3);
        match self {
            ElectricPropellant::Xenon => SpeciesProperties {
                molar_mass_kg_mol: dec(131_293, 6),
                gamma: monatomic,
                first_ionization_ev: dec(121_298, 4),
            },
            ElectricPropellant::Krypton => SpeciesProperties {
                molar_mass_kg_mol: dec(83_798, 6),
                gamma: monatomic,
                first_ionization_ev: dec(139_996, 4),
            },
            ElectricPropellant::Argon => SpeciesProperties {
                molar_mass_kg_mol: dec(39_948, 6),
                gamma: monatomic,
                first_ionization_ev: dec(157_596, 4),
            },
            ElectricPropellant::Iodine => SpeciesProperties {
                molar_mass_kg_mol: dec(12_690_447, 8),
                gamma: monatomic,
                first_ionization_ev: dec(104_513, 4),
            },
            ElectricPropellant::Nitrogen => SpeciesProperties {
                molar_mass_kg_mol: dec(280_134, 7),
                gamma: dec(14, 1),
                first_ionization_ev: dec(15_581, 3),
            },
            ElectricPropellant::Hydrogen => SpeciesProperties {
                molar_mass_kg_mol: dec(201_588, 8),
                gamma: dec(14, 1),
                first_ionization_ev: dec(15_426, 3),
            },
            ElectricPropellant::Ammonia => SpeciesProperties {
                molar_mass_kg_mol: dec(170_305, 7),
                gamma: dec(131, 2),
                first_ionization_ev: dec(1_018, 2),
            },
            ElectricPropellant::Water => SpeciesProperties {
                molar_mass_kg_mol: dec(1_801_528, 8),
                gamma: dec(133, 2),
                first_ionization_ev: dec(12_621, 3),
            },
        }
    }

    #[verifier::when_used_as_spec(properties_spec)]
    pub fn properties(self) -> (r: SpeciesProperties)
        ensures
            r == self.properties(),
    {
        let monatomic = whole(5) / whole(3);
        match self {
            ElectricPropellant::Xenon => SpeciesProperties {
                molar_mass_kg_mol: dec(131_293, 6),
                gamma: monatomic,
                first_ionization_ev: dec(121_298, 4),
            },
            ElectricPropellant::Krypton => SpeciesProperties {
                molar_mass_kg_mol: dec(83_798, 6),
                gamma: monatomic,
                first_ionization_ev: dec(139_996, 4),
            },
            ElectricPropellant::Argon => SpeciesProperties {
                molar_mass_kg_mol: dec(39_948, 6),
                gamma: monatomic,
                first_ionization_ev: dec(157_596, 4),
            },
            ElectricPropellant::Iodine => SpeciesProperties {
                molar_mass_kg_mol: dec(12_690_447, 8),
                gamma: monatomic,
                first_ionization_ev: dec(104_513, 4),
            },
            ElectricPropellant::Nitrogen => SpeciesProperties {
                molar_mass_kg_mol: dec(280_134, 7),
                gamma: dec(14, 1),
                first_ionization_ev: dec(15_581, 3),
            },
            ElectricPropellant::Hydrogen => SpeciesProperties {
                molar_mass_kg_mol: dec(201_588, 8),
                gamma: dec(14, 1),
                first_ionization_ev: dec(15_426, 3),
            },
            ElectricPropellant::Ammonia => SpeciesProperties {
                molar_mass_kg_mol: dec(170_305, 7),
                gamma: dec(131, 2),
                first_ionization_ev: dec(1_018, 2),
            },
            ElectricPropellant::Water => SpeciesProperties {
                molar_mass_kg_mol: dec(1_801_528, 8),
                gamma: dec(133, 2),
                first_ionization_ev: dec(12_621, 3),
            },
        }
    }

    /// [`Self::ionization_energy_j_kg`] in contracts.
    pub open spec fn ionization_energy_j_kg_spec(self) -> F64 {
        let properties = self.properties();
        properties.first_ionization_ev * elementary_charge_c() * avogadro_per_mol() / properties.molar_mass_kg_mol
    }

    /// Energy to ionize a kilogram (J/kg).
    #[verifier::when_used_as_spec(ionization_energy_j_kg_spec)]
    pub fn ionization_energy_j_kg(self) -> (r: F64)
        ensures
            r == self.ionization_energy_j_kg(),
    {
        let properties = self.properties();
        properties.first_ionization_ev * elementary_charge_c() * avogadro_per_mol() / properties.molar_mass_kg_mol
    }

    /// [`Self::specific_heat_j_kg_k`] in contracts.
    pub open spec fn specific_heat_j_kg_k_spec(self) -> F64 {
        let properties = self.properties();
        properties.gamma / (properties.gamma - whole(1)) * molar_gas_constant_j_mol_k() / properties.molar_mass_kg_mol
    }

    /// Specific heat at constant pressure (J/kg/K).
    #[verifier::when_used_as_spec(specific_heat_j_kg_k_spec)]
    pub fn specific_heat_j_kg_k(self) -> (r: F64)
        ensures
            r == self.specific_heat_j_kg_k(),
    {
        let properties = self.properties();
        properties.gamma / (properties.gamma - whole(1)) * molar_gas_constant_j_mol_k() / properties.molar_mass_kg_mol
    }
}

/// Acceleration hardware and limits of a thruster family.
#[derive(Debug, Clone, Copy, PartialEq)]
pub enum ElectricThrusterDesign {
    /// Perforated two-grid accelerator; singly charged ions leave at the energy
    /// set by `accelerator_voltage_v`.
    GriddedIon {
        accelerator_voltage_v: F64,
        grid_diameter_m: F64,
        grid_gap_m: F64,
        max_beam_current_density_a_m2: F64,
        propellant_utilization: F64,
        accelerator_efficiency: F64,
    },
    /// Annular crossed-field discharge with an electrostatic ion exit.
    HallEffect {
        accelerator_voltage_v: F64,
        channel_inner_radius_m: F64,
        channel_outer_radius_m: F64,
        channel_length_m: F64,
        magnetic_field_t: F64,
        coil_current_density_a_m2: F64,
        max_discharge_current_a: F64,
        propellant_utilization: F64,
        accelerator_efficiency: F64,
    },
    /// Self-field Lorentz acceleration. `ln(anode/cathode)` is the radial
    /// current-path term in the reduced Maecker thrust relation.
    Magnetoplasmadynamic {
        arc_voltage_v: F64,
        cathode_radius_m: F64,
        anode_radius_m: F64,
        electrode_length_m: F64,
        max_current_a: F64,
        jet_power_efficiency: F64,
    },
    /// Electrically heated gas expanded through an idealized nozzle.
    Resistojet {
        chamber_radius_m: F64,
        chamber_length_m: F64,
        max_exhaust_temp_k: F64,
        heater_efficiency: F64,
        nozzle_efficiency: F64,
    },
    /// Arc-heated electrothermal thruster; the arc-current rating is an
    /// electrical limit, while the same energy balance sets thrust.
    Arcjet {
        chamber_radius_m: F64,
        chamber_length_m: F64,
        max_exhaust_temp_k: F64,
        arc_voltage_v: F64,
        max_arc_current_a: F64,
        heater_efficiency: F64,
        nozzle_efficiency: F64,
    },
}

/// Authoring data of an electrically powered spacecraft thruster.
#[derive(Debug, Clone, PartialEq)]
pub struct ElectricThrusterSpec {
    pub name: String,
    pub propellant: ElectricPropellant,
    pub design: ElectricThrusterDesign,
    /// Continuous electrical bus power rating (W).
    pub maximum_power_w: F64,
    /// Continuous feed-system mass-flow rating (kg/s).
    pub maximum_mass_flow_kg_s: F64,
    /// Power-processing unit specific power (W/kg).
    pub power_processor_specific_power_w_kg: F64,
    /// Structure material density for grids, channel, electrodes, or chamber.
    pub structure_density_kg_m3: F64,
    /// Effective wall or plate thickness used by the mass estimate (m).
    pub structure_thickness_m: F64,
    /// Radiator emitting area (m^2): both faces are not counted.
    pub radiator_area_m2: F64,
    pub radiator_temperature_k: F64,
    pub radiator_emissivity: F64,
    pub radiator_areal_density_kg_m2: F64,
    /// Plasma electrical energy converted to first ionization energy.
    pub ionization_efficiency: F64,
    /// Neutral propellant inlet temperature for electrothermal designs (K).
    pub inlet_temperature_k: F64,
}

/// Compiled electric thruster with geometry-derived hardware mass.
#[derive(Debug, Clone, Copy, PartialEq)]
pub struct CompiledElectricThruster {
    pub propellant: ElectricPropellant,
    pub design: ElectricThrusterDesign,
    pub maximum_power_w: F64,
    pub maximum_mass_flow_kg_s: F64,
    pub ionization_efficiency: F64,
    pub inlet_temperature_k: F64,
    pub radiator_heat_rejection_w: F64,
    pub dry_mass_kg: F64,
}

/// One command: available bus power and requested propellant flow. Ratings and
/// thermal rejection may reduce either at runtime.
#[derive(Debug, Clone, Copy, PartialEq)]
pub struct ElectricThrusterCommand {
    pub available_power_w: F64,
    pub requested_mass_flow_kg_s: F64,
}

/// Operating telemetry of an electric thruster.
#[derive(Debug, Clone, Copy, PartialEq)]
pub struct ElectricThrusterPoint {
    pub thrust_n: F64,
    pub exhaust_velocity_mps: F64,
    pub isp_s: F64,
    /// Actual propellant flow through the thruster (kg/s).
    pub mass_flow_kg_s: F64,
    pub electrical_power_w: F64,
    pub jet_kinetic_power_w: F64,
    /// Residual exhaust enthalpy and ionization potential carried away by the
    /// propellant rather than rejected by the radiator (W).
    pub exhaust_internal_power_w: F64,
    pub waste_heat_w: F64,
    pub radiator_capacity_w: F64,
    pub discharge_current_a: F64,
    pub power_limited: bool,
    pub flow_limited: bool,
    pub current_limited: bool,
    pub thermal_limited: bool,
}

impl Checks {
    /// `value` must be an efficiency above zero. A zero efficiency would divide
    /// by zero in the energy balance.
    pub open spec fn active_efficiency(self, value: F64, name: &str) -> Checks {
        self.unit_interval(value, name).refuse(value.same(zero()), Fault::InvalidSpec(name@ + " must be in (0, 1]"@))
    }
}

/// Hands back an efficiency above zero.
pub fn require_active_efficiency(value: F64, name: &str) -> (r: Result<F64, PropulsionError>)
    ensures
        r is Ok ==> r->Ok_0 == value,
        seen(r) is Ok ==> checks().active_efficiency(value, name).fault is None,
        seen(r) is Err ==> checks().active_efficiency(value, name).fault == Some(seen(r)->Err_0),
{
    require_unit_interval(value, name)?;
    if value.same(zero()) {
        return Err(PropulsionError::InvalidSpec(join(name, " must be in (0, 1]")));
    }
    Ok(value)
}

/// What is wrong with an electrothermal chamber, if anything.
pub open spec fn thermal_fault(
    radius_m: F64,
    length_m: F64,
    max_temperature_k: F64,
    inlet_temperature_k: F64,
    heater_efficiency: F64,
    nozzle_efficiency: F64,
) -> Option<Fault> {
    checks()
        .positive(radius_m, "electrothermal chamber radius")
        .positive(length_m, "electrothermal chamber length")
        .positive(max_temperature_k, "electrothermal exhaust temperature")
        .refuse(
            max_temperature_k <= inlet_temperature_k,
            bad_spec("electrothermal exhaust temperature must exceed propellant inlet temperature"),
        )
        .unit_interval(heater_efficiency, "electric heater efficiency")
        .unit_interval(nozzle_efficiency, "electrothermal nozzle efficiency")
        .refuse(
            heater_efficiency.same(zero()) || nozzle_efficiency.same(zero()),
            bad_spec("heater and nozzle efficiencies must be in (0, 1]"),
        )
        .fault
}

pub fn validate_thermal_design(
    radius_m: F64,
    length_m: F64,
    max_temperature_k: F64,
    inlet_temperature_k: F64,
    heater_efficiency: F64,
    nozzle_efficiency: F64,
) -> (r: Result<(), PropulsionError>)
    ensures
        seen(r) == outcome(
            thermal_fault(radius_m, length_m, max_temperature_k, inlet_temperature_k, heater_efficiency, nozzle_efficiency),
        ),
{
    require_positive(radius_m, "electrothermal chamber radius")?;
    require_positive(length_m, "electrothermal chamber length")?;
    require_positive(max_temperature_k, "electrothermal exhaust temperature")?;
    if max_temperature_k <= inlet_temperature_k {
        return Err(invalid_spec("electrothermal exhaust temperature must exceed propellant inlet temperature"));
    }
    require_unit_interval(heater_efficiency, "electric heater efficiency")?;
    require_unit_interval(nozzle_efficiency, "electrothermal nozzle efficiency")?;
    if heater_efficiency.same(zero()) || nozzle_efficiency.same(zero()) {
        return Err(invalid_spec("heater and nozzle efficiencies must be in (0, 1]"));
    }
    Ok(())
}

impl ElectricThrusterDesign {
    /// Every number of the design.
    pub open spec fn numbers(self) -> Seq<F64> {
        match self {
            ElectricThrusterDesign::GriddedIon {
                accelerator_voltage_v,
                grid_diameter_m,
                grid_gap_m,
                max_beam_current_density_a_m2,
                propellant_utilization,
                accelerator_efficiency,
            } => seq![
                accelerator_voltage_v,
                grid_diameter_m,
                grid_gap_m,
                max_beam_current_density_a_m2,
                propellant_utilization,
                accelerator_efficiency,
            ],
            ElectricThrusterDesign::HallEffect {
                accelerator_voltage_v,
                channel_inner_radius_m,
                channel_outer_radius_m,
                channel_length_m,
                magnetic_field_t,
                coil_current_density_a_m2,
                max_discharge_current_a,
                propellant_utilization,
                accelerator_efficiency,
            } => seq![
                accelerator_voltage_v,
                channel_inner_radius_m,
                channel_outer_radius_m,
                channel_length_m,
                magnetic_field_t,
                coil_current_density_a_m2,
                max_discharge_current_a,
                propellant_utilization,
                accelerator_efficiency,
            ],
            ElectricThrusterDesign::Magnetoplasmadynamic {
                arc_voltage_v,
                cathode_radius_m,
                anode_radius_m,
                electrode_length_m,
                max_current_a,
                jet_power_efficiency,
            } => seq![
                arc_voltage_v,
                cathode_radius_m,
                anode_radius_m,
                electrode_length_m,
                max_current_a,
                jet_power_efficiency,
            ],
            ElectricThrusterDesign::Resistojet {
                chamber_radius_m,
                chamber_length_m,
                max_exhaust_temp_k,
                heater_efficiency,
                nozzle_efficiency,
            } => seq![chamber_radius_m, chamber_length_m, max_exhaust_temp_k, heater_efficiency, nozzle_efficiency],
            ElectricThrusterDesign::Arcjet {
                chamber_radius_m,
                chamber_length_m,
                max_exhaust_temp_k,
                arc_voltage_v,
                max_arc_current_a,
                heater_efficiency,
                nozzle_efficiency,
            } => seq![
                chamber_radius_m,
                chamber_length_m,
                max_exhaust_temp_k,
                arc_voltage_v,
                max_arc_current_a,
                heater_efficiency,
                nozzle_efficiency,
            ],
        }
    }

    fn is_finite(self) -> (r: bool)
        ensures
            r == all_finite_in(self.numbers()),
    {
        match self {
            ElectricThrusterDesign::GriddedIon {
                accelerator_voltage_v,
                grid_diameter_m,
                grid_gap_m,
                max_beam_current_density_a_m2,
                propellant_utilization,
                accelerator_efficiency,
            } => all_finite(
                &vec![
                    accelerator_voltage_v,
                    grid_diameter_m,
                    grid_gap_m,
                    max_beam_current_density_a_m2,
                    propellant_utilization,
                    accelerator_efficiency,
                ],
            ),
            ElectricThrusterDesign::HallEffect {
                accelerator_voltage_v,
                channel_inner_radius_m,
                channel_outer_radius_m,
                channel_length_m,
                magnetic_field_t,
                coil_current_density_a_m2,
                max_discharge_current_a,
                propellant_utilization,
                accelerator_efficiency,
            } => all_finite(
                &vec![
                    accelerator_voltage_v,
                    channel_inner_radius_m,
                    channel_outer_radius_m,
                    channel_length_m,
                    magnetic_field_t,
                    coil_current_density_a_m2,
                    max_discharge_current_a,
                    propellant_utilization,
                    accelerator_efficiency,
                ],
            ),
            ElectricThrusterDesign::Magnetoplasmadynamic {
                arc_voltage_v,
                cathode_radius_m,
                anode_radius_m,
                electrode_length_m,
                max_current_a,
                jet_power_efficiency,
            } => all_finite(
                &vec![
                    arc_voltage_v,
                    cathode_radius_m,
                    anode_radius_m,
                    electrode_length_m,
                    max_current_a,
                    jet_power_efficiency,
                ],
            ),
            ElectricThrusterDesign::Resistojet {
                chamber_radius_m,
                chamber_length_m,
                max_exhaust_temp_k,
                heater_efficiency,
                nozzle_efficiency,
            } => all_finite(
                &vec![chamber_radius_m, chamber_length_m, max_exhaust_temp_k, heater_efficiency, nozzle_efficiency],
            ),
            ElectricThrusterDesign::Arcjet {
                chamber_radius_m,
                chamber_length_m,
                max_exhaust_temp_k,
                arc_voltage_v,
                max_arc_current_a,
                heater_efficiency,
                nozzle_efficiency,
            } => all_finite(
                &vec![
                    chamber_radius_m,
                    chamber_length_m,
                    max_exhaust_temp_k,
                    arc_voltage_v,
                    max_arc_current_a,
                    heater_efficiency,
                    nozzle_efficiency,
                ],
            ),
        }
    }

    /// What is wrong with the design, if anything.
    pub open spec fn fault(self, inlet_temperature_k: F64) -> Option<Fault> {
        match self {
            ElectricThrusterDesign::GriddedIon {
                accelerator_voltage_v,
                grid_diameter_m,
                grid_gap_m,
                max_beam_current_density_a_m2,
                propellant_utilization,
                accelerator_efficiency,
            } => checks()
                .positive(accelerator_voltage_v, "ion accelerator voltage")
                .positive(grid_diameter_m, "ion grid diameter")
                .positive(grid_gap_m, "ion grid gap")
                .positive(max_beam_current_density_a_m2, "ion beam current density")
                .active_efficiency(propellant_utilization, "ion propellant utilization")
                .active_efficiency(accelerator_efficiency, "ion accelerator efficiency")
                .fault,
            ElectricThrusterDesign::HallEffect {
                accelerator_voltage_v,
                channel_inner_radius_m,
                channel_outer_radius_m,
                channel_length_m,
                magnetic_field_t,
                coil_current_density_a_m2,
                max_discharge_current_a,
                propellant_utilization,
                accelerator_efficiency,
            } => checks()
                .positive(accelerator_voltage_v, "Hall accelerator voltage")
                .positive(channel_inner_radius_m, "Hall channel inner radius")
                .positive(channel_outer_radius_m, "Hall channel outer radius")
                .refuse(
                    channel_inner_radius_m >= channel_outer_radius_m,
                    bad_spec("Hall channel outer radius must exceed inner radius"),
                )
                .positive(channel_length_m, "Hall channel length")
                .positive(magnetic_field_t, "Hall magnetic field")
                .positive(coil_current_density_a_m2, "Hall coil current density")
                .positive(max_discharge_current_a, "Hall discharge current")
                .active_efficiency(propellant_utilization, "Hall propellant utilization")
                .active_efficiency(accelerator_efficiency, "Hall accelerator efficiency")
                .fault,
            ElectricThrusterDesign::Magnetoplasmadynamic {
                arc_voltage_v,
                cathode_radius_m,
                anode_radius_m,
                electrode_length_m,
                max_current_a,
                jet_power_efficiency,
            } => checks()
                .positive(arc_voltage_v, "MPD arc voltage")
                .positive(cathode_radius_m, "MPD cathode radius")
                .positive(anode_radius_m, "MPD anode radius")
                .refuse(cathode_radius_m >= anode_radius_m, bad_spec("MPD anode radius must exceed cathode radius"))
                .positive(electrode_length_m, "MPD electrode length")
                .positive(max_current_a, "MPD current rating")
                .active_efficiency(jet_power_efficiency, "MPD jet-power efficiency")
                .fault,
            ElectricThrusterDesign::Resistojet {
                chamber_radius_m,
                chamber_length_m,
                max_exhaust_temp_k,
                heater_efficiency,
                nozzle_efficiency,
            } => thermal_fault(
                chamber_radius_m,
                chamber_length_m,
                max_exhaust_temp_k,
                inlet_temperature_k,
                heater_efficiency,
                nozzle_efficiency,
            ),
            ElectricThrusterDesign::Arcjet {
                chamber_radius_m,
                chamber_length_m,
                max_exhaust_temp_k,
                arc_voltage_v,
                max_arc_current_a,
                heater_efficiency,
                nozzle_efficiency,
            } => checks()
                .part(
                    thermal_fault(
                        chamber_radius_m,
                        chamber_length_m,
                        max_exhaust_temp_k,
                        inlet_temperature_k,
                        heater_efficiency,
                        nozzle_efficiency,
                    ),
                )
                .positive(arc_voltage_v, "arcjet voltage")
                .positive(max_arc_current_a, "arcjet current rating")
                .fault,
        }
    }

    pub fn validate(self, inlet_temperature_k: F64) -> (r: Result<(), PropulsionError>)
        ensures
            seen(r) == outcome(self.fault(inlet_temperature_k)),
    {
        match self {
            ElectricThrusterDesign::GriddedIon {
                accelerator_voltage_v,
                grid_diameter_m,
                grid_gap_m,
                max_beam_current_density_a_m2,
                propellant_utilization,
                accelerator_efficiency,
            } => {
                require_positive(accelerator_voltage_v, "ion accelerator voltage")?;
                require_positive(grid_diameter_m, "ion grid diameter")?;
                require_positive(grid_gap_m, "ion grid gap")?;
                require_positive(max_beam_current_density_a_m2, "ion beam current density")?;
                require_active_efficiency(propellant_utilization, "ion propellant utilization")?;
                require_active_efficiency(accelerator_efficiency, "ion accelerator efficiency")?;
                Ok(())
            },
            ElectricThrusterDesign::HallEffect {
                accelerator_voltage_v,
                channel_inner_radius_m,
                channel_outer_radius_m,
                channel_length_m,
                magnetic_field_t,
                coil_current_density_a_m2,
                max_discharge_current_a,
                propellant_utilization,
                accelerator_efficiency,
            } => {
                require_positive(accelerator_voltage_v, "Hall accelerator voltage")?;
                require_positive(channel_inner_radius_m, "Hall channel inner radius")?;
                require_positive(channel_outer_radius_m, "Hall channel outer radius")?;
                if channel_inner_radius_m >= channel_outer_radius_m {
                    return Err(invalid_spec("Hall channel outer radius must exceed inner radius"));
                }
                require_positive(channel_length_m, "Hall channel length")?;
                require_positive(magnetic_field_t, "Hall magnetic field")?;
                require_positive(coil_current_density_a_m2, "Hall coil current density")?;
                require_positive(max_discharge_current_a, "Hall discharge current")?;
                require_active_efficiency(propellant_utilization, "Hall propellant utilization")?;
                require_active_efficiency(accelerator_efficiency, "Hall accelerator efficiency")?;
                Ok(())
            },
            ElectricThrusterDesign::Magnetoplasmadynamic {
                arc_voltage_v,
                cathode_radius_m,
                anode_radius_m,
                electrode_length_m,
                max_current_a,
                jet_power_efficiency,
            } => {
                require_positive(arc_voltage_v, "MPD arc voltage")?;
                require_positive(cathode_radius_m, "MPD cathode radius")?;
                require_positive(anode_radius_m, "MPD anode radius")?;
                if cathode_radius_m >= anode_radius_m {
                    return Err(invalid_spec("MPD anode radius must exceed cathode radius"));
                }
                require_positive(electrode_length_m, "MPD electrode length")?;
                require_positive(max_current_a, "MPD current rating")?;
                require_active_efficiency(jet_power_efficiency, "MPD jet-power efficiency")?;
                Ok(())
            },
            ElectricThrusterDesign::Resistojet {
                chamber_radius_m,
                chamber_length_m,
                max_exhaust_temp_k,
                heater_efficiency,
                nozzle_efficiency,
            } => validate_thermal_design(
                chamber_radius_m,
                chamber_length_m,
                max_exhaust_temp_k,
                inlet_temperature_k,
                heater_efficiency,
                nozzle_efficiency,
            ),
            ElectricThrusterDesign::Arcjet {
                chamber_radius_m,
                chamber_length_m,
                max_exhaust_temp_k,
                arc_voltage_v,
                max_arc_current_a,
                heater_efficiency,
                nozzle_efficiency,
            } => {
                validate_thermal_design(
                    chamber_radius_m,
                    chamber_length_m,
                    max_exhaust_temp_k,
                    inlet_temperature_k,
                    heater_efficiency,
                    nozzle_efficiency,
                )?;
                require_positive(arc_voltage_v, "arcjet voltage")?;
                require_positive(max_arc_current_a, "arcjet current rating")?;
                Ok(())
            },
        }
    }

    /// [`Self::geometry_volume_m3`] in contracts.
    pub open spec fn geometry_volume_m3_spec<M: Numerics>(self, math: &M, thickness_m: F64) -> F64 {
        match self {
            ElectricThrusterDesign::GriddedIon { grid_diameter_m, grid_gap_m, .. } => {
                let area = pi() * powi(math, grid_diameter_m, 2) / whole(4);
                let rim_area = pi() * grid_diameter_m * grid_gap_m;
                whole(2) * area * thickness_m + rim_area * thickness_m
            },
            ElectricThrusterDesign::HallEffect { channel_inner_radius_m, channel_outer_radius_m, channel_length_m, .. } => {
                let annular_area = pi() * (powi(math, channel_outer_radius_m, 2) - powi(math, channel_inner_radius_m, 2));
                whole(2) * pi() * (channel_outer_radius_m + channel_inner_radius_m) * channel_length_m * thickness_m + whole(2)
                    * annular_area * thickness_m
            },
            ElectricThrusterDesign::Magnetoplasmadynamic { cathode_radius_m, anode_radius_m, electrode_length_m, .. } => pi() * (
            powi(math, cathode_radius_m, 2) + powi(math, anode_radius_m, 2)) * electrode_length_m,
            ElectricThrusterDesign::Resistojet { chamber_radius_m, chamber_length_m, .. } => thermal_chamber_volume(
                math,
                chamber_radius_m,
                chamber_length_m,
                thickness_m,
            ),
            ElectricThrusterDesign::Arcjet { chamber_radius_m, chamber_length_m, .. } => thermal_chamber_volume(
                math,
                chamber_radius_m,
                chamber_length_m,
                thickness_m,
            ),
        }
    }

    /// Structure volume of the design (m^3).
    #[verifier::when_used_as_spec(geometry_volume_m3_spec)]
    pub fn geometry_volume_m3<M: Numerics>(self, math: &M, thickness_m: F64) -> (r: F64)
        ensures
            repeatable(math) ==> r == self.geometry_volume_m3(math, thickness_m),
    {
        match self {
            ElectricThrusterDesign::GriddedIon { grid_diameter_m, grid_gap_m, .. } => {
                let area = pi() * powi(math, grid_diameter_m, 2) / whole(4);
                let rim_area = pi() * grid_diameter_m * grid_gap_m;
                whole(2) * area * thickness_m + rim_area * thickness_m
            },
            ElectricThrusterDesign::HallEffect { channel_inner_radius_m, channel_outer_radius_m, channel_length_m, .. } => {
                let annular_area = pi() * (powi(math, channel_outer_radius_m, 2) - powi(math, channel_inner_radius_m, 2));
                whole(2) * pi() * (channel_outer_radius_m + channel_inner_radius_m) * channel_length_m * thickness_m + whole(2)
                    * annular_area * thickness_m
            },
            ElectricThrusterDesign::Magnetoplasmadynamic { cathode_radius_m, anode_radius_m, electrode_length_m, .. } => pi() * (
            powi(math, cathode_radius_m, 2) + powi(math, anode_radius_m, 2)) * electrode_length_m,
            ElectricThrusterDesign::Resistojet { chamber_radius_m, chamber_length_m, .. } => thermal_chamber_volume(
                math,
                chamber_radius_m,
                chamber_length_m,
                thickness_m,
            ),
            ElectricThrusterDesign::Arcjet { chamber_radius_m, chamber_length_m, .. } => thermal_chamber_volume(
                math,
                chamber_radius_m,
                chamber_length_m,
                thickness_m,
            ),
        }
    }

    /// [`Self::field_coil_volume_m3`] in contracts.
    pub open spec fn field_coil_volume_m3_spec(self) -> F64 {
        match self {
            ElectricThrusterDesign::HallEffect {
                channel_inner_radius_m,
                channel_outer_radius_m,
                channel_length_m,
                magnetic_field_t,
                coil_current_density_a_m2,
                ..
            } => {
                let mean_radius_m = dec(5, 1) * (channel_inner_radius_m + channel_outer_radius_m);
                coil_volume_m3(magnetic_field_t, channel_length_m, coil_current_density_a_m2, mean_radius_m)
            },
            _ => zero(),
        }
    }

    /// Conductor volume of the field coil (m^3, 0 without one).
    #[verifier::when_used_as_spec(field_coil_volume_m3_spec)]
    pub fn field_coil_volume_m3(self) -> (r: F64)
        ensures
            r == self.field_coil_volume_m3(),
    {
        match self {
            ElectricThrusterDesign::HallEffect {
                channel_inner_radius_m,
                channel_outer_radius_m,
                channel_length_m,
                magnetic_field_t,
                coil_current_density_a_m2,
                ..
            } => {
                let mean_radius_m = dec(5, 1) * (channel_inner_radius_m + channel_outer_radius_m);
                coil_volume_m3(magnetic_field_t, channel_length_m, coil_current_density_a_m2, mean_radius_m)
            },
            _ => zero(),
        }
    }
}

impl ElectricThrusterSpec {
    /// What is wrong with the authoring values, if anything.
    pub open spec fn fault(self) -> Option<Fault> {
        checks()
            .refuse(blank(self.name@), bad_spec("electric thruster name must not be empty"))
            .refuse(
                !all_finite_in(
                    seq![
                        self.maximum_power_w,
                        self.maximum_mass_flow_kg_s,
                        self.power_processor_specific_power_w_kg,
                        self.structure_density_kg_m3,
                        self.structure_thickness_m,
                        self.radiator_area_m2,
                        self.radiator_temperature_k,
                        self.radiator_emissivity,
                        self.radiator_areal_density_kg_m2,
                        self.ionization_efficiency,
                        self.inlet_temperature_k,
                    ],
                ) || !all_finite_in(self.design.numbers()),
                bad_spec("electric thruster authoring values must be finite"),
            )
            .positive(self.maximum_power_w, "electric thruster rated power")
            .positive(self.maximum_mass_flow_kg_s, "electric thruster rated mass flow")
            .positive(self.power_processor_specific_power_w_kg, "power processor specific power")
            .positive(self.structure_density_kg_m3, "thruster structure density")
            .positive(self.structure_thickness_m, "thruster structure thickness")
            .positive(self.radiator_area_m2, "electric thruster radiator area")
            .positive(self.radiator_temperature_k, "radiator temperature")
            .active_efficiency(self.radiator_emissivity, "radiator emissivity")
            .positive(self.radiator_areal_density_kg_m2, "radiator areal density")
            .active_efficiency(self.ionization_efficiency, "ionization efficiency")
            .positive(self.inlet_temperature_k, "propellant inlet temperature")
            .part(self.design.fault(self.inlet_temperature_k))
            .fault
    }

    fn validate(&self) -> (r: Result<(), PropulsionError>)
        ensures
            seen(r) == outcome(self.fault()),
    {
        if is_blank(self.name.as_str()) {
            return Err(invalid_spec("electric thruster name must not be empty"));
        }
        if !all_finite(
            &vec![
                self.maximum_power_w,
                self.maximum_mass_flow_kg_s,
                self.power_processor_specific_power_w_kg,
                self.structure_density_kg_m3,
                self.structure_thickness_m,
                self.radiator_area_m2,
                self.radiator_temperature_k,
                self.radiator_emissivity,
                self.radiator_areal_density_kg_m2,
                self.ionization_efficiency,
                self.inlet_temperature_k,
            ],
        ) || !self.design.is_finite() {
            return Err(invalid_spec("electric thruster authoring values must be finite"));
        }
        require_positive(self.maximum_power_w, "electric thruster rated power")?;
        require_positive(self.maximum_mass_flow_kg_s, "electric thruster rated mass flow")?;
        require_positive(self.power_processor_specific_power_w_kg, "power processor specific power")?;
        require_positive(self.structure_density_kg_m3, "thruster structure density")?;
        require_positive(self.structure_thickness_m, "thruster structure thickness")?;
        require_positive(self.radiator_area_m2, "electric thruster radiator area")?;
        require_positive(self.radiator_temperature_k, "radiator temperature")?;
        require_active_efficiency(self.radiator_emissivity, "radiator emissivity")?;
        require_positive(self.radiator_areal_density_kg_m2, "radiator areal density")?;
        require_active_efficiency(self.ionization_efficiency, "ionization efficiency")?;
        require_positive(self.inlet_temperature_k, "propellant inlet temperature")?;
        self.design.validate(self.inlet_temperature_k)
    }

    /// [`Self::sized`] in contracts.
    pub open spec fn sized_spec<M: Numerics>(&self, math: &M) -> CompiledElectricThruster {
        CompiledElectricThruster {
            propellant: self.propellant,
            design: self.design,
            maximum_power_w: self.maximum_power_w,
            maximum_mass_flow_kg_s: self.maximum_mass_flow_kg_s,
            ionization_efficiency: self.ionization_efficiency,
            inlet_temperature_k: self.inlet_temperature_k,
            radiator_heat_rejection_w: radiated_w(
                math,
                self.radiator_area_m2,
                self.radiator_temperature_k,
                self.radiator_emissivity,
            ),
            dry_mass_kg: self.maximum_power_w / self.power_processor_specific_power_w_kg + self.design.geometry_volume_m3(
                math,
                self.structure_thickness_m,
            ) * self.structure_density_kg_m3 + self.design.field_coil_volume_m3() * copper_density_kg_m3()
                + self.radiator_area_m2 * self.radiator_areal_density_kg_m2,
        }
    }

    /// The thruster sized on geometry, radiator and power processor.
    #[verifier::when_used_as_spec(sized_spec)]
    pub fn sized<M: Numerics>(&self, math: &M) -> (r: CompiledElectricThruster)
        ensures
            repeatable(math) ==> r == self.sized(math),
    {
        CompiledElectricThruster {
            propellant: self.propellant,
            design: self.design,
            maximum_power_w: self.maximum_power_w,
            maximum_mass_flow_kg_s: self.maximum_mass_flow_kg_s,
            ionization_efficiency: self.ionization_efficiency,
            inlet_temperature_k: self.inlet_temperature_k,
            radiator_heat_rejection_w: radiated_w(
                math,
                self.radiator_area_m2,
                self.radiator_temperature_k,
                self.radiator_emissivity,
            ),
            dry_mass_kg: self.maximum_power_w / self.power_processor_specific_power_w_kg + self.design.geometry_volume_m3(
                math,
                self.structure_thickness_m,
            ) * self.structure_density_kg_m3 + self.design.field_coil_volume_m3() * copper_density_kg_m3()
                + self.radiator_area_m2 * self.radiator_areal_density_kg_m2,
        }
    }

    /// The compiled thruster, or what stops it.
    pub open spec fn compiled<M: Numerics>(self, math: &M) -> Result<CompiledElectricThruster, Fault> {
        let engine = self.sized(math);
        match self.fault() {
            Some(fault) => Err(fault),
            None => if !engine.radiator_heat_rejection_w.is_finite() || engine.radiator_heat_rejection_w <= zero()
                || !engine.dry_mass_kg.is_finite() || engine.dry_mass_kg <= zero() {
                Err(bad_spec("electric thruster thermal or mass sizing overflowed"))
            } else {
                Ok(engine)
            },
        }
    }

    /// Compiles the thruster.
    pub fn compile<M: Numerics>(self, math: &M) -> (r: Result<CompiledElectricThruster, PropulsionError>)
        ensures
            repeatable(math) ==> seen(r) == self.compiled(math),
            self.fault() is Some ==> seen(r) == self.compiled(math),
    {
        self.validate()?;
        let engine: CompiledElectricThruster = self.sized(math);
        if !engine.radiator_heat_rejection_w.is_finite() || engine.radiator_heat_rejection_w <= zero()
            || !engine.dry_mass_kg.is_finite() || engine.dry_mass_kg <= zero() {
            return Err(invalid_spec("electric thruster thermal or mass sizing overflowed"));
        }
        Ok(engine)
    }
}

/// Which limits bind.
#[derive(Debug, Clone, Copy, PartialEq, Eq, Structural)]
pub struct ElectricLimits {
    pub power: bool,
    pub flow: bool,
    pub current: bool,
    pub thermal: bool,
}

/// [`make_electric_point`] in contracts.
pub open spec fn make_electric_point_spec(
    thrust_n: F64,
    mass_flow_kg_s: F64,
    electrical_power_w: F64,
    jet_kinetic_power_w: F64,
    waste_heat_w: F64,
    radiator_capacity_w: F64,
    discharge_current_a: F64,
    limits: ElectricLimits,
    exhaust_internal_power_w: F64,
) -> ElectricThrusterPoint {
    let exhaust_velocity_mps = if mass_flow_kg_s > zero() {
        thrust_n / mass_flow_kg_s
    } else {
        zero()
    };
    ElectricThrusterPoint {
        thrust_n,
        exhaust_velocity_mps,
        isp_s: exhaust_velocity_mps / standard_gravity_mps2(),
        mass_flow_kg_s,
        electrical_power_w,
        jet_kinetic_power_w,
        exhaust_internal_power_w,
        waste_heat_w,
        radiator_capacity_w,
        discharge_current_a,
        power_limited: limits.power,
        flow_limited: limits.flow,
        current_limited: limits.current,
        thermal_limited: limits.thermal,
    }
}

/// The telemetry of some energy flows; velocity and Isp follow from thrust and flow.
#[verifier::when_used_as_spec(make_electric_point_spec)]
pub fn make_electric_point(
    thrust_n: F64,
    mass_flow_kg_s: F64,
    electrical_power_w: F64,
    jet_kinetic_power_w: F64,
    waste_heat_w: F64,
    radiator_capacity_w: F64,
    discharge_current_a: F64,
    limits: ElectricLimits,
    exhaust_internal_power_w: F64,
) -> (r: ElectricThrusterPoint)
    ensures
        r == make_electric_point(thrust_n, mass_flow_kg_s, electrical_power_w, jet_kinetic_power_w, waste_heat_w, radiator_capacity_w, discharge_current_a, limits, exhaust_internal_power_w),
{
    let exhaust_velocity_mps = if mass_flow_kg_s > zero() {
        thrust_n / mass_flow_kg_s
    } else {
        zero()
    };
    ElectricThrusterPoint {
        thrust_n,
        exhaust_velocity_mps,
        isp_s: exhaust_velocity_mps / standard_gravity_mps2(),
        mass_flow_kg_s,
        electrical_power_w,
        jet_kinetic_power_w,
        exhaust_internal_power_w,
        waste_heat_w,
        radiator_capacity_w,
        discharge_current_a,
        power_limited: limits.power,
        flow_limited: limits.flow,
        current_limited: limits.current,
        thermal_limited: limits.thermal,
    }
}

/// [`binding`] in contracts.
pub open spec fn binding_spec(limit: F64, requested: F64, other: F64, another: F64) -> bool {
    limit < requested && limit <= other && limit <= another
}

/// Which of three flow limits binds a request: one that is below the request and
/// not above the other two.
#[verifier::when_used_as_spec(binding_spec)]
pub fn binding(limit: F64, requested: F64, other: F64, another: F64) -> (r: bool)
    ensures
        r == binding(limit, requested, other, another),
{
    limit < requested && limit <= other && limit <= another
}

/// Feed and electrodes of an MPD discharge.
#[derive(Debug, Clone, Copy, PartialEq)]
pub struct MpdDischarge {
    pub requested_flow: F64,
    pub arc_voltage_v: F64,
    pub max_current_a: F64,
    pub jet_power_efficiency: F64,
    /// Thrust per square of the current (N/A^2).
    pub maecker_n_a2: F64,
    /// Discharge energy per kilogram ionized (J/kg).
    pub ionization_specific_j_kg: F64,
    /// Charge carried per unit of ionized feed mass (A per kg/s).
    pub ion_current_per_feed_a: F64,
    pub flow_limited: bool,
}

impl MpdDischarge {
    /// [`Self::flow_by_ionization`] in contracts.
    pub open spec fn flow_by_ionization_spec(&self, power_w: F64) -> F64 {
        if self.ionization_specific_j_kg > zero() {
            power_w / self.ionization_specific_j_kg
        } else {
            zero()
        }
    }

    /// Flow that a power can ionize (kg/s).
    #[verifier::when_used_as_spec(flow_by_ionization_spec)]
    pub fn flow_by_ionization(&self, power_w: F64) -> (r: F64)
        ensures
            r == self.flow_by_ionization(power_w),
    {
        if self.ionization_specific_j_kg > zero() {
            power_w / self.ionization_specific_j_kg
        } else {
            zero()
        }
    }

    /// [`Self::flow_by_current`] in contracts.
    pub open spec fn flow_by_current_spec(&self) -> F64 {
        if self.ion_current_per_feed_a > zero() {
            self.max_current_a / self.ion_current_per_feed_a
        } else {
            zero()
        }
    }

    /// Flow that the current rating can carry (kg/s).
    #[verifier::when_used_as_spec(flow_by_current_spec)]
    pub fn flow_by_current(&self) -> (r: F64)
        ensures
            r == self.flow_by_current(),
    {
        if self.ion_current_per_feed_a > zero() {
            self.max_current_a / self.ion_current_per_feed_a
        } else {
            zero()
        }
    }

    /// [`Self::mass_flow_kg_s`] in contracts.
    pub open spec fn mass_flow_kg_s_spec(&self, power_w: F64) -> F64 {
        self.requested_flow.min(self.flow_by_ionization(power_w)).min(self.flow_by_current())
    }

    #[verifier::when_used_as_spec(mass_flow_kg_s_spec)]
    pub fn mass_flow_kg_s(&self, power_w: F64) -> (r: F64)
        ensures
            r == self.mass_flow_kg_s(power_w),
    {
        self.requested_flow.min(self.flow_by_ionization(power_w)).min(self.flow_by_current())
    }

    /// [`Self::energy_limited_current_a`] in contracts.
    pub open spec fn energy_limited_current_a_spec(&self, mass_flow_kg_s: F64, current_a: F64) -> F64 {
        let ionization_power_w = mass_flow_kg_s * self.ionization_specific_j_kg;
        let available_jet_power_w = (self.arc_voltage_v * current_a - ionization_power_w).max(zero())
            * self.jet_power_efficiency;
        let energy_limited_thrust_n = (whole(2) * mass_flow_kg_s * available_jet_power_w).sqrt();
        (energy_limited_thrust_n / self.maecker_n_a2).sqrt()
    }

    /// Current whose thrust the jet budget of a current can pay for (A). The
    /// budget is funded from the arc draw V*I, never from the full bus.
    #[verifier::when_used_as_spec(energy_limited_current_a_spec)]
    pub fn energy_limited_current_a(&self, mass_flow_kg_s: F64, current_a: F64) -> (r: F64)
        ensures
            r == self.energy_limited_current_a(mass_flow_kg_s, current_a),
    {
        let ionization_power_w = mass_flow_kg_s * self.ionization_specific_j_kg;
        let available_jet_power_w = (self.arc_voltage_v * current_a - ionization_power_w).max(zero())
            * self.jet_power_efficiency;
        let energy_limited_thrust_n = (whole(2) * mass_flow_kg_s * available_jet_power_w).sqrt();
        (energy_limited_thrust_n / self.maecker_n_a2).sqrt()
    }

    /// The discharge current after `n` rounds of the fixed-point iteration from its cap.
    pub open spec fn settled_current(&self, mass_flow_kg_s: F64, cap_a: F64, n: nat) -> F64
        decreases n,
    {
        if n == 0 {
            cap_a
        } else {
            cap_a.min(
                self.energy_limited_current_a(mass_flow_kg_s, self.settled_current(mass_flow_kg_s, cap_a, (n - 1) as nat)),
            )
        }
    }

    /// [`Self::settle_current`] in contracts.
    pub open spec fn settle_current_spec(&self, mass_flow_kg_s: F64, cap_a: F64) -> F64 {
        self.settled_current(mass_flow_kg_s, cap_a, 24)
    }

    /// The discharge current: a fixed point from its cap in 24 rounds.
    #[verifier::when_used_as_spec(settle_current_spec)]
    pub fn settle_current(&self, mass_flow_kg_s: F64, cap_a: F64) -> (r: F64)
        ensures
            r == self.settle_current(mass_flow_kg_s, cap_a),
    {
        let mut current_a: F64 = cap_a;
        let mut n: u32 = 0;
        while n < 24
            invariant
                n <= 24,
                current_a == self.settled_current(mass_flow_kg_s, cap_a, n as nat),
            decreases 24 - n,
        {
            current_a = cap_a.min(self.energy_limited_current_a(mass_flow_kg_s, current_a));
            n = n + 1;
        }
        current_a
    }
}

impl CompiledElectricThruster {
    /// What is wrong with the compiled data, if anything.
    pub open spec fn fault(&self) -> Option<Fault> {
        checks()
            .refuse(
                !all_finite_in(
                    seq![
                        self.maximum_power_w,
                        self.maximum_mass_flow_kg_s,
                        self.ionization_efficiency,
                        self.inlet_temperature_k,
                        self.radiator_heat_rejection_w,
                        self.dry_mass_kg,
                    ],
                ) || !all_finite_in(self.design.numbers()),
                bad_spec("compiled electric thruster values must be finite"),
            )
            .positive(self.maximum_power_w, "electric thruster rated power")
            .positive(self.maximum_mass_flow_kg_s, "electric thruster rated mass flow")
            .positive(self.inlet_temperature_k, "propellant inlet temperature")
            .positive(self.radiator_heat_rejection_w, "electric thruster heat rejection")
            .positive(self.dry_mass_kg, "electric thruster dry mass")
            .active_efficiency(self.ionization_efficiency, "ionization efficiency")
            .part(self.design.fault(self.inlet_temperature_k))
            .fault
    }

    /// Validates compiled engine data: the same domain check that compiling
    /// applies, re-run at use time so that an edited engine fails closed.
    pub fn validate(&self) -> (r: Result<(), PropulsionError>)
        ensures
            seen(r) == outcome(self.fault()),
    {
        if !all_finite(
            &vec![
                self.maximum_power_w,
                self.maximum_mass_flow_kg_s,
                self.ionization_efficiency,
                self.inlet_temperature_k,
                self.radiator_heat_rejection_w,
                self.dry_mass_kg,
            ],
        ) || !self.design.is_finite() {
            return Err(invalid_spec("compiled electric thruster values must be finite"));
        }
        require_positive(self.maximum_power_w, "electric thruster rated power")?;
        require_positive(self.maximum_mass_flow_kg_s, "electric thruster rated mass flow")?;
        require_positive(self.inlet_temperature_k, "propellant inlet temperature")?;
        require_positive(self.radiator_heat_rejection_w, "electric thruster heat rejection")?;
        require_positive(self.dry_mass_kg, "electric thruster dry mass")?;
        require_active_efficiency(self.ionization_efficiency, "ionization efficiency")?;
        self.design.validate(self.inlet_temperature_k)
    }

    /// [`Self::ion_operating_point`] in contracts.
    pub open spec fn ion_operating_point_spec(
        &self,
        available_power_w: F64,
        requested_flow: F64,
        current_limit_a: F64,
        accelerator_voltage_v: F64,
        propellant_utilization: F64,
        accelerator_efficiency: F64,
        flow_limited: bool,
    ) -> ElectricThrusterPoint {
        let species = self.propellant.properties();
        let particle_mass_kg = species.molar_mass_kg_mol / avogadro_per_mol();
        let ion_velocity_mps = (whole(2) * elementary_charge_c() * accelerator_voltage_v / particle_mass_kg).sqrt();
        let ionization_specific_j_kg = self.propellant.ionization_energy_j_kg();
        let acceleration_specific_j_kg = elementary_charge_c() * accelerator_voltage_v * avogadro_per_mol()
            / species.molar_mass_kg_mol;
        let input_energy_per_feed_kg_j = propellant_utilization * (ionization_specific_j_kg / self.ionization_efficiency
            + acceleration_specific_j_kg / accelerator_efficiency);
        let useful_kinetic_per_feed_kg_j = propellant_utilization * acceleration_specific_j_kg;
        let exhaust_internal_per_feed_kg_j = propellant_utilization * ionization_specific_j_kg;
        let heat_per_feed_kg_j = (input_energy_per_feed_kg_j - useful_kinetic_per_feed_kg_j
            - exhaust_internal_per_feed_kg_j).max(zero());
        let ion_current_per_feed_kg_s_a = propellant_utilization * elementary_charge_c() * avogadro_per_mol()
            / species.molar_mass_kg_mol;
        let flow_by_power = if input_energy_per_feed_kg_j > zero() {
            available_power_w / input_energy_per_feed_kg_j
        } else {
            zero()
        };
        let flow_by_radiator = if heat_per_feed_kg_j > zero() {
            self.radiator_heat_rejection_w / heat_per_feed_kg_j
        } else {
            F64::infinity()
        };
        let flow_by_current = if ion_current_per_feed_kg_s_a > zero() {
            current_limit_a / ion_current_per_feed_kg_s_a
        } else {
            zero()
        };
        let mass_flow_kg_s = requested_flow.min(flow_by_power).min(flow_by_radiator).min(flow_by_current);
        let electrical_power_w = mass_flow_kg_s * input_energy_per_feed_kg_j;
        let thrust_n = mass_flow_kg_s * propellant_utilization * ion_velocity_mps;
        let jet_kinetic_power_w = mass_flow_kg_s * useful_kinetic_per_feed_kg_j;
        let exhaust_internal_power_w = mass_flow_kg_s * exhaust_internal_per_feed_kg_j;
        let waste_heat_w = (electrical_power_w - jet_kinetic_power_w - exhaust_internal_power_w).max(zero());
        let discharge_current_a = mass_flow_kg_s * ion_current_per_feed_kg_s_a;
        make_electric_point(
            thrust_n,
            mass_flow_kg_s,
            electrical_power_w,
            jet_kinetic_power_w,
            waste_heat_w,
            self.radiator_heat_rejection_w,
            discharge_current_a,
            ElectricLimits {
                power: binding(flow_by_power, requested_flow, flow_by_current, flow_by_radiator),
                flow: flow_limited,
                current: binding(flow_by_current, requested_flow, flow_by_power, flow_by_radiator),
                thermal: binding(flow_by_radiator, requested_flow, flow_by_power, flow_by_current),
            },
            exhaust_internal_power_w,
        )
    }

    /// Operating point of an electrostatic accelerator.
    #[verifier::when_used_as_spec(ion_operating_point_spec)]
    pub fn ion_operating_point(
        &self,
        available_power_w: F64,
        requested_flow: F64,
        current_limit_a: F64,
        accelerator_voltage_v: F64,
        propellant_utilization: F64,
        accelerator_efficiency: F64,
        flow_limited: bool,
    ) -> (r: ElectricThrusterPoint)
        ensures
            r == self.ion_operating_point(available_power_w, requested_flow, current_limit_a, accelerator_voltage_v, propellant_utilization, accelerator_efficiency, flow_limited),
    {
        let species = self.propellant.properties();
        let particle_mass_kg = species.molar_mass_kg_mol / avogadro_per_mol();
        let ion_velocity_mps = (whole(2) * elementary_charge_c() * accelerator_voltage_v / particle_mass_kg).sqrt();
        let ionization_specific_j_kg = self.propellant.ionization_energy_j_kg();
        let acceleration_specific_j_kg = elementary_charge_c() * accelerator_voltage_v * avogadro_per_mol()
            / species.molar_mass_kg_mol;
        let input_energy_per_feed_kg_j = propellant_utilization * (ionization_specific_j_kg / self.ionization_efficiency
            + acceleration_specific_j_kg / accelerator_efficiency);
        let useful_kinetic_per_feed_kg_j = propellant_utilization * acceleration_specific_j_kg;
        let exhaust_internal_per_feed_kg_j = propellant_utilization * ionization_specific_j_kg;
        let heat_per_feed_kg_j = (input_energy_per_feed_kg_j - useful_kinetic_per_feed_kg_j
            - exhaust_internal_per_feed_kg_j).max(zero());
        let ion_current_per_feed_kg_s_a = propellant_utilization * elementary_charge_c() * avogadro_per_mol()
            / species.molar_mass_kg_mol;
        let flow_by_power = if input_energy_per_feed_kg_j > zero() {
            available_power_w / input_energy_per_feed_kg_j
        } else {
            zero()
        };
        let flow_by_radiator = if heat_per_feed_kg_j > zero() {
            self.radiator_heat_rejection_w / heat_per_feed_kg_j
        } else {
            F64::infinity()
        };
        let flow_by_current = if ion_current_per_feed_kg_s_a > zero() {
            current_limit_a / ion_current_per_feed_kg_s_a
        } else {
            zero()
        };
        let mass_flow_kg_s = requested_flow.min(flow_by_power).min(flow_by_radiator).min(flow_by_current);
        let electrical_power_w = mass_flow_kg_s * input_energy_per_feed_kg_j;
        let thrust_n = mass_flow_kg_s * propellant_utilization * ion_velocity_mps;
        let jet_kinetic_power_w = mass_flow_kg_s * useful_kinetic_per_feed_kg_j;
        let exhaust_internal_power_w = mass_flow_kg_s * exhaust_internal_per_feed_kg_j;
        let waste_heat_w = (electrical_power_w - jet_kinetic_power_w - exhaust_internal_power_w).max(zero());
        let discharge_current_a = mass_flow_kg_s * ion_current_per_feed_kg_s_a;
        make_electric_point(
            thrust_n,
            mass_flow_kg_s,
            electrical_power_w,
            jet_kinetic_power_w,
            waste_heat_w,
            self.radiator_heat_rejection_w,
            discharge_current_a,
            ElectricLimits {
                power: binding(flow_by_power, requested_flow, flow_by_current, flow_by_radiator),
                flow: flow_limited,
                current: binding(flow_by_current, requested_flow, flow_by_power, flow_by_radiator),
                thermal: binding(flow_by_radiator, requested_flow, flow_by_power, flow_by_current),
            },
            exhaust_internal_power_w,
        )
    }

    /// [`Self::thermal_operating_point`] in contracts.
    pub open spec fn thermal_operating_point_spec<M: Numerics>(
        &self,
        math: &M,
        available_power_w: F64,
        requested_flow: F64,
        exhaust_temp_k: F64,
        heater_efficiency: F64,
        nozzle_efficiency: F64,
        arc: Option<(F64, F64)>,
        flow_limited: bool,
    ) -> ElectricThrusterPoint {
        let cp_j_kg_k = self.propellant.specific_heat_j_kg_k();
        let specific_enthalpy_j_kg = cp_j_kg_k * (exhaust_temp_k - self.inlet_temperature_k);
        let exit_velocity_mps = (whole(2) * nozzle_efficiency * specific_enthalpy_j_kg).sqrt();
        let electrical_energy_per_kg_j = specific_enthalpy_j_kg / heater_efficiency;
        let kinetic_energy_per_kg_j = dec(5, 1) * powi(math, exit_velocity_mps, 2);
        let heat_per_kg_j = (electrical_energy_per_kg_j - specific_enthalpy_j_kg).max(zero());
        let flow_by_power = available_power_w / electrical_energy_per_kg_j;
        let flow_by_radiator = if heat_per_kg_j > zero() {
            self.radiator_heat_rejection_w / heat_per_kg_j
        } else {
            F64::infinity()
        };
        let flow_by_current = match arc {
            None => F64::infinity(),
            Some((voltage_v, max_current_a)) => max_current_a * voltage_v / electrical_energy_per_kg_j,
        };
        let mass_flow_kg_s = requested_flow.min(flow_by_power).min(flow_by_radiator).min(flow_by_current);
        let electrical_power_w = mass_flow_kg_s * electrical_energy_per_kg_j;
        let jet_kinetic_power_w = mass_flow_kg_s * kinetic_energy_per_kg_j;
        let exhaust_internal_power_w = mass_flow_kg_s * (specific_enthalpy_j_kg - kinetic_energy_per_kg_j).max(zero());
        let waste_heat_w = (electrical_power_w - jet_kinetic_power_w - exhaust_internal_power_w).max(zero());
        let discharge_current_a = match arc {
            None => zero(),
            Some((voltage_v, _)) => if voltage_v > zero() {
                electrical_power_w / voltage_v
            } else {
                zero()
            },
        };
        make_electric_point(
            mass_flow_kg_s * exit_velocity_mps,
            mass_flow_kg_s,
            electrical_power_w,
            jet_kinetic_power_w,
            waste_heat_w,
            self.radiator_heat_rejection_w,
            discharge_current_a,
            ElectricLimits {
                power: binding(flow_by_power, requested_flow, flow_by_current, flow_by_radiator),
                flow: flow_limited,
                current: binding(flow_by_current, requested_flow, flow_by_power, flow_by_radiator),
                thermal: binding(flow_by_radiator, requested_flow, flow_by_power, flow_by_current),
            },
            exhaust_internal_power_w,
        )
    }

    /// Operating point of an electrically heated nozzle; `arc` gives the voltage
    /// and current rating of an arc heater.
    #[verifier::when_used_as_spec(thermal_operating_point_spec)]
    pub fn thermal_operating_point<M: Numerics>(
        &self,
        math: &M,
        available_power_w: F64,
        requested_flow: F64,
        exhaust_temp_k: F64,
        heater_efficiency: F64,
        nozzle_efficiency: F64,
        arc: Option<(F64, F64)>,
        flow_limited: bool,
    ) -> (r: ElectricThrusterPoint)
        ensures
            repeatable(math) ==> r == self.thermal_operating_point(math, available_power_w, requested_flow, exhaust_temp_k, heater_efficiency, nozzle_efficiency, arc, flow_limited),
    {
        let cp_j_kg_k = self.propellant.specific_heat_j_kg_k();
        let specific_enthalpy_j_kg = cp_j_kg_k * (exhaust_temp_k - self.inlet_temperature_k);
        let exit_velocity_mps = (whole(2) * nozzle_efficiency * specific_enthalpy_j_kg).sqrt();
        let electrical_energy_per_kg_j = specific_enthalpy_j_kg / heater_efficiency;
        let kinetic_energy_per_kg_j = dec(5, 1) * powi(math, exit_velocity_mps, 2);
        let heat_per_kg_j = (electrical_energy_per_kg_j - specific_enthalpy_j_kg).max(zero());
        let flow_by_power = available_power_w / electrical_energy_per_kg_j;
        let flow_by_radiator = if heat_per_kg_j > zero() {
            self.radiator_heat_rejection_w / heat_per_kg_j
        } else {
            F64::infinity()
        };
        let flow_by_current = match arc {
            None => F64::infinity(),
            Some((voltage_v, max_current_a)) => max_current_a * voltage_v / electrical_energy_per_kg_j,
        };
        let mass_flow_kg_s = requested_flow.min(flow_by_power).min(flow_by_radiator).min(flow_by_current);
        let electrical_power_w = mass_flow_kg_s * electrical_energy_per_kg_j;
        let jet_kinetic_power_w = mass_flow_kg_s * kinetic_energy_per_kg_j;
        let exhaust_internal_power_w = mass_flow_kg_s * (specific_enthalpy_j_kg - kinetic_energy_per_kg_j).max(zero());
        let waste_heat_w = (electrical_power_w - jet_kinetic_power_w - exhaust_internal_power_w).max(zero());
        let discharge_current_a = match arc {
            None => zero(),
            Some((voltage_v, _)) => if voltage_v > zero() {
                electrical_power_w / voltage_v
            } else {
                zero()
            },
        };
        make_electric_point(
            mass_flow_kg_s * exit_velocity_mps,
            mass_flow_kg_s,
            electrical_power_w,
            jet_kinetic_power_w,
            waste_heat_w,
            self.radiator_heat_rejection_w,
            discharge_current_a,
            ElectricLimits {
                power: binding(flow_by_power, requested_flow, flow_by_current, flow_by_radiator),
                flow: flow_limited,
                current: binding(flow_by_current, requested_flow, flow_by_power, flow_by_radiator),
                thermal: binding(flow_by_radiator, requested_flow, flow_by_power, flow_by_current),
            },
            exhaust_internal_power_w,
        )
    }

    /// [`Self::mpd_idle`] in contracts.
    pub open spec fn mpd_idle_spec(&self, power_limited: bool, flow_limited: bool) -> ElectricThrusterPoint {
        make_electric_point(
            zero(),
            zero(),
            zero(),
            zero(),
            zero(),
            self.radiator_heat_rejection_w,
            zero(),
            ElectricLimits { power: power_limited, flow: flow_limited, current: false, thermal: false },
            zero(),
        )
    }

    /// An MPD point that draws nothing.
    #[verifier::when_used_as_spec(mpd_idle_spec)]
    pub fn mpd_idle(&self, power_limited: bool, flow_limited: bool) -> (r: ElectricThrusterPoint)
        ensures
            r == self.mpd_idle(power_limited, flow_limited),
    {
        make_electric_point(
            zero(),
            zero(),
            zero(),
            zero(),
            zero(),
            self.radiator_heat_rejection_w,
            zero(),
            ElectricLimits { power: power_limited, flow: flow_limited, current: false, thermal: false },
            zero(),
        )
    }

    /// [`Self::mpd_at_power`] in contracts.
    pub open spec fn mpd_at_power_spec<M: Numerics>(
        &self,
        math: &M,
        discharge: &MpdDischarge,
        power_w: F64,
    ) -> ElectricThrusterPoint {
        let mass_flow_kg_s = discharge.mass_flow_kg_s(power_w);
        let current_from_bus_a = power_w / discharge.arc_voltage_v;
        let current_a = discharge.settle_current(mass_flow_kg_s, current_from_bus_a.min(discharge.max_current_a));
        if mass_flow_kg_s <= zero() || power_w <= zero() {
            self.mpd_idle(false, discharge.flow_limited)
        } else if !current_a.is_finite() || current_a <= zero() {
            // Ionizing this feed would consume at least the whole budget: no
            // self-consistent drawing point exists, so the point is a finite idle.
            self.mpd_idle(true, discharge.flow_limited)
        } else {
            let electrical_power_w = (discharge.arc_voltage_v * current_a).min(power_w);
            let thrust_n = discharge.maecker_n_a2 * powi(math, current_a, 2);
            let jet_kinetic_power_w = powi(math, thrust_n, 2) / (whole(2) * mass_flow_kg_s);
            let exhaust_internal_power_w = mass_flow_kg_s * self.propellant.ionization_energy_j_kg();
            let waste_heat_w = (electrical_power_w - jet_kinetic_power_w - exhaust_internal_power_w).max(zero());
            let energy_limited_current_a = discharge.energy_limited_current_a(mass_flow_kg_s, current_a);
            let flow_by_ionization = discharge.flow_by_ionization(power_w);
            make_electric_point(
                thrust_n,
                mass_flow_kg_s,
                electrical_power_w,
                jet_kinetic_power_w,
                waste_heat_w,
                self.radiator_heat_rejection_w,
                current_a,
                ElectricLimits {
                    power: (flow_by_ionization < discharge.requested_flow && flow_by_ionization <= discharge.flow_by_current())
                        || (current_from_bus_a <= discharge.max_current_a && current_from_bus_a <= energy_limited_current_a),
                    flow: discharge.flow_limited,
                    current: discharge.max_current_a <= current_from_bus_a && discharge.max_current_a
                        <= energy_limited_current_a,
                    thermal: false,
                },
                exhaust_internal_power_w,
            )
        }
    }

    /// MPD operating point at a bus power, before the radiator is asked.
    #[verifier::when_used_as_spec(mpd_at_power_spec)]
    pub fn mpd_at_power<M: Numerics>(
        &self,
        math: &M,
        discharge: &MpdDischarge,
        power_w: F64,
    ) -> (r: ElectricThrusterPoint)
        ensures
            repeatable(math) ==> r == self.mpd_at_power(math, discharge, power_w),
    {
        let mass_flow_kg_s = discharge.mass_flow_kg_s(power_w);
        let current_from_bus_a = power_w / discharge.arc_voltage_v;
        let current_a = discharge.settle_current(mass_flow_kg_s, current_from_bus_a.min(discharge.max_current_a));
        if mass_flow_kg_s <= zero() || power_w <= zero() {
            self.mpd_idle(false, discharge.flow_limited)
        } else if !current_a.is_finite() || current_a <= zero() {
            // Ionizing this feed would consume at least the whole budget: no
            // self-consistent drawing point exists, so the point is a finite idle.
            self.mpd_idle(true, discharge.flow_limited)
        } else {
            let electrical_power_w = (discharge.arc_voltage_v * current_a).min(power_w);
            let thrust_n = discharge.maecker_n_a2 * powi(math, current_a, 2);
            let jet_kinetic_power_w = powi(math, thrust_n, 2) / (whole(2) * mass_flow_kg_s);
            let exhaust_internal_power_w = mass_flow_kg_s * self.propellant.ionization_energy_j_kg();
            let waste_heat_w = (electrical_power_w - jet_kinetic_power_w - exhaust_internal_power_w).max(zero());
            let energy_limited_current_a = discharge.energy_limited_current_a(mass_flow_kg_s, current_a);
            let flow_by_ionization = discharge.flow_by_ionization(power_w);
            make_electric_point(
                thrust_n,
                mass_flow_kg_s,
                electrical_power_w,
                jet_kinetic_power_w,
                waste_heat_w,
                self.radiator_heat_rejection_w,
                current_a,
                ElectricLimits {
                    power: (flow_by_ionization < discharge.requested_flow && flow_by_ionization <= discharge.flow_by_current())
                        || (current_from_bus_a <= discharge.max_current_a && current_from_bus_a <= energy_limited_current_a),
                    flow: discharge.flow_limited,
                    current: discharge.max_current_a <= current_from_bus_a && discharge.max_current_a
                        <= energy_limited_current_a,
                    thermal: false,
                },
                exhaust_internal_power_w,
            )
        }
    }

    /// [`Self::mpd_rejects`] in contracts.
    pub open spec fn mpd_rejects_spec<M: Numerics>(&self, math: &M, discharge: &MpdDischarge, power_w: F64) -> bool {
        self.mpd_at_power(math, discharge, power_w).waste_heat_w <= self.radiator_heat_rejection_w
    }

    /// Whether the radiator rejects the waste heat at a bus power.
    #[verifier::when_used_as_spec(mpd_rejects_spec)]
    pub fn mpd_rejects<M: Numerics>(&self, math: &M, discharge: &MpdDischarge, power_w: F64) -> (r: bool)
        ensures
            repeatable(math) ==> r == self.mpd_rejects(math, discharge, power_w),
    {
        self.mpd_at_power(math, discharge, power_w).waste_heat_w <= self.radiator_heat_rejection_w
    }

    /// The power bracket after `n` halvings towards what the radiator rejects.
    pub open spec fn throttled<M: Numerics>(
        &self,
        math: &M,
        discharge: &MpdDischarge,
        power_w: F64,
        n: nat,
    ) -> (F64, F64)
        decreases n,
    {
        if n == 0 {
            (zero(), power_w)
        } else {
            let (low, high) = self.throttled(math, discharge, power_w, (n - 1) as nat);
            let middle = dec(5, 1) * (low + high);
            if self.mpd_rejects(math, discharge, middle) {
                (middle, high)
            } else {
                (low, middle)
            }
        }
    }

    fn throttle_down<M: Numerics>(&self, math: &M, discharge: &MpdDischarge, power_w: F64) -> (low: F64)
        ensures
            repeatable(math) ==> low == self.throttled(math, discharge, power_w, 56).0,
    {
        let mut low: F64 = zero();
        let mut high: F64 = power_w;
        let mut n: u32 = 0;
        while n < 56
            invariant
                n <= 56,
                repeatable(math) ==> (low, high) == self.throttled(math, discharge, power_w, n as nat),
            decreases 56 - n,
        {
            let middle: F64 = dec(5, 1) * (low + high);
            if self.mpd_rejects(math, discharge, middle) {
                low = middle;
            } else {
                high = middle;
            }
            n = n + 1;
        }
        low
    }

    /// [`Self::mpd_discharge`] in contracts.
    pub open spec fn mpd_discharge_spec<M: Numerics>(
        &self,
        math: &M,
        requested_flow: F64,
        arc_voltage_v: F64,
        cathode_radius_m: F64,
        anode_radius_m: F64,
        max_current_a: F64,
        jet_power_efficiency: F64,
        flow_limited: bool,
    ) -> MpdDischarge {
        MpdDischarge {
            requested_flow,
            arc_voltage_v,
            max_current_a,
            jet_power_efficiency,
            maecker_n_a2: vacuum_permeability_h_m() / (whole(4) * pi()) * ln(math, anode_radius_m / cathode_radius_m),
            ionization_specific_j_kg: self.propellant.ionization_energy_j_kg() / self.ionization_efficiency,
            ion_current_per_feed_a: elementary_charge_c() * avogadro_per_mol() / self.propellant.properties().molar_mass_kg_mol,
            flow_limited,
        }
    }

    /// Feed and electrodes of the discharge.
    #[verifier::when_used_as_spec(mpd_discharge_spec)]
    pub fn mpd_discharge<M: Numerics>(
        &self,
        math: &M,
        requested_flow: F64,
        arc_voltage_v: F64,
        cathode_radius_m: F64,
        anode_radius_m: F64,
        max_current_a: F64,
        jet_power_efficiency: F64,
        flow_limited: bool,
    ) -> (r: MpdDischarge)
        ensures
            repeatable(math) ==> r == self.mpd_discharge(math, requested_flow, arc_voltage_v, cathode_radius_m, anode_radius_m, max_current_a, jet_power_efficiency, flow_limited),
    {
        MpdDischarge {
            requested_flow,
            arc_voltage_v,
            max_current_a,
            jet_power_efficiency,
            maecker_n_a2: vacuum_permeability_h_m() / (whole(4) * pi()) * ln(math, anode_radius_m / cathode_radius_m),
            ionization_specific_j_kg: self.propellant.ionization_energy_j_kg() / self.ionization_efficiency,
            ion_current_per_feed_a: elementary_charge_c() * avogadro_per_mol() / self.propellant.properties().molar_mass_kg_mol,
            flow_limited,
        }
    }

    /// MPD operating point: the full power, or the most that the radiator rejects.
    pub open spec fn mpd_point<M: Numerics>(
        &self,
        math: &M,
        discharge: &MpdDischarge,
        available_power_w: F64,
    ) -> ElectricThrusterPoint {
        let full = self.mpd_at_power(math, discharge, available_power_w);
        if full.waste_heat_w > self.radiator_heat_rejection_w {
            ElectricThrusterPoint {
                thermal_limited: true,
                ..self.mpd_at_power(math, discharge, self.throttled(math, discharge, available_power_w, 56).0)
            }
        } else {
            ElectricThrusterPoint { thermal_limited: false, ..full }
        }
    }

    fn mpd_operating_point<M: Numerics>(
        &self,
        math: &M,
        discharge: &MpdDischarge,
        available_power_w: F64,
    ) -> (r: ElectricThrusterPoint)
        ensures
            repeatable(math) ==> r == self.mpd_point(math, discharge, available_power_w),
    {
        let mut point: ElectricThrusterPoint = self.mpd_at_power(math, discharge, available_power_w);
        let mut thermal_limited: bool = false;
        if point.waste_heat_w > self.radiator_heat_rejection_w {
            let low: F64 = self.throttle_down(math, discharge, available_power_w);
            point = self.mpd_at_power(math, discharge, low);
            thermal_limited = true;
        }
        point.thermal_limited = thermal_limited;
        point
    }

    /// The point of the design at a bus power and a requested flow within the ratings.
    pub open spec fn design_point<M: Numerics>(
        &self,
        math: &M,
        available_power_w: F64,
        requested_flow: F64,
        flow_limited: bool,
    ) -> ElectricThrusterPoint {
        match self.design {
            ElectricThrusterDesign::GriddedIon {
                accelerator_voltage_v,
                grid_diameter_m,
                max_beam_current_density_a_m2,
                propellant_utilization,
                accelerator_efficiency,
                ..
            } => {
                let grid_area_m2 = pi() * powi(math, grid_diameter_m, 2) / whole(4);
                self.ion_operating_point(
                    available_power_w,
                    requested_flow,
                    max_beam_current_density_a_m2 * grid_area_m2,
                    accelerator_voltage_v,
                    propellant_utilization,
                    accelerator_efficiency,
                    flow_limited,
                )
            },
            ElectricThrusterDesign::HallEffect {
                accelerator_voltage_v,
                max_discharge_current_a,
                propellant_utilization,
                accelerator_efficiency,
                ..
            } => self.ion_operating_point(
                available_power_w,
                requested_flow,
                max_discharge_current_a,
                accelerator_voltage_v,
                propellant_utilization,
                accelerator_efficiency,
                flow_limited,
            ),
            ElectricThrusterDesign::Magnetoplasmadynamic {
                arc_voltage_v,
                cathode_radius_m,
                anode_radius_m,
                max_current_a,
                jet_power_efficiency,
                ..
            } => self.mpd_point(
                math,
                &self.mpd_discharge(
                    math,
                    requested_flow,
                    arc_voltage_v,
                    cathode_radius_m,
                    anode_radius_m,
                    max_current_a,
                    jet_power_efficiency,
                    flow_limited,
                ),
                available_power_w,
            ),
            ElectricThrusterDesign::Resistojet { max_exhaust_temp_k, heater_efficiency, nozzle_efficiency, .. } =>
            self.thermal_operating_point(
                math,
                available_power_w,
                requested_flow,
                max_exhaust_temp_k,
                heater_efficiency,
                nozzle_efficiency,
                None,
                flow_limited,
            ),
            ElectricThrusterDesign::Arcjet {
                max_exhaust_temp_k,
                arc_voltage_v,
                max_arc_current_a,
                heater_efficiency,
                nozzle_efficiency,
                ..
            } => self.thermal_operating_point(
                math,
                available_power_w,
                requested_flow,
                max_exhaust_temp_k,
                heater_efficiency,
                nozzle_efficiency,
                Some((arc_voltage_v, max_arc_current_a)),
                flow_limited,
            ),
        }
    }

    fn operate_design<M: Numerics>(
        &self,
        math: &M,
        available_power_w: F64,
        requested_flow: F64,
        flow_limited: bool,
    ) -> (r: ElectricThrusterPoint)
        ensures
            repeatable(math) ==> r == self.design_point(math, available_power_w, requested_flow, flow_limited),
    {
        match self.design {
            ElectricThrusterDesign::GriddedIon {
                accelerator_voltage_v,
                grid_diameter_m,
                max_beam_current_density_a_m2,
                propellant_utilization,
                accelerator_efficiency,
                ..
            } => {
                let grid_area_m2 = pi() * powi(math, grid_diameter_m, 2) / whole(4);
                self.ion_operating_point(
                    available_power_w,
                    requested_flow,
                    max_beam_current_density_a_m2 * grid_area_m2,
                    accelerator_voltage_v,
                    propellant_utilization,
                    accelerator_efficiency,
                    flow_limited,
                )
            },
            ElectricThrusterDesign::HallEffect {
                accelerator_voltage_v,
                max_discharge_current_a,
                propellant_utilization,
                accelerator_efficiency,
                ..
            } => self.ion_operating_point(
                available_power_w,
                requested_flow,
                max_discharge_current_a,
                accelerator_voltage_v,
                propellant_utilization,
                accelerator_efficiency,
                flow_limited,
            ),
            ElectricThrusterDesign::Magnetoplasmadynamic {
                arc_voltage_v,
                cathode_radius_m,
                anode_radius_m,
                max_current_a,
                jet_power_efficiency,
                ..
            } => {
                let discharge: MpdDischarge = self.mpd_discharge(
                    math,
                    requested_flow,
                    arc_voltage_v,
                    cathode_radius_m,
                    anode_radius_m,
                    max_current_a,
                    jet_power_efficiency,
                    flow_limited,
                );
                self.mpd_operating_point(math, &discharge, available_power_w)
            },
            ElectricThrusterDesign::Resistojet { max_exhaust_temp_k, heater_efficiency, nozzle_efficiency, .. } =>
            self.thermal_operating_point(
                math,
                available_power_w,
                requested_flow,
                max_exhaust_temp_k,
                heater_efficiency,
                nozzle_efficiency,
                None,
                flow_limited,
            ),
            ElectricThrusterDesign::Arcjet {
                max_exhaust_temp_k,
                arc_voltage_v,
                max_arc_current_a,
                heater_efficiency,
                nozzle_efficiency,
                ..
            } => self.thermal_operating_point(
                math,
                available_power_w,
                requested_flow,
                max_exhaust_temp_k,
                heater_efficiency,
                nozzle_efficiency,
                Some((arc_voltage_v, max_arc_current_a)),
                flow_limited,
            ),
        }
    }

    /// Steady operating point from bus power and feed command, or what stops it.
    pub open spec fn point<M: Numerics>(
        &self,
        math: &M,
        command: ElectricThrusterCommand,
    ) -> Result<ElectricThrusterPoint, Fault> {
        match self.fault() {
            Some(fault) => Err(fault),
            None => if !command.available_power_w.is_finite() || command.available_power_w < zero() {
                Err(bad_command("available electric power must be finite and >= 0"))
            } else if !command.requested_mass_flow_kg_s.is_finite() || command.requested_mass_flow_kg_s < zero() {
                Err(bad_command("requested propellant flow must be finite and >= 0"))
            } else {
                let point = self.design_point(
                    math,
                    command.available_power_w.min(self.maximum_power_w),
                    command.requested_mass_flow_kg_s.min(self.maximum_mass_flow_kg_s),
                    command.requested_mass_flow_kg_s > self.maximum_mass_flow_kg_s,
                );
                Ok(
                    ElectricThrusterPoint {
                        power_limited: point.power_limited || command.available_power_w > self.maximum_power_w,
                        ..point
                    },
                )
            },
        }
    }

    /// Evaluates a steady operating point from bus power and feed command.
    pub fn operating_point<M: Numerics>(&self, math: &M, command: ElectricThrusterCommand) -> (r: Result<
        ElectricThrusterPoint,
        PropulsionError,
    >)
        ensures
            repeatable(math) ==> seen(r) == self.point(math, command),
            r is Err ==> seen(r) == self.point(math, command),
            r is Err <==> self.point(math, command) is Err,
    {
        self.validate()?;
        if !command.available_power_w.is_finite() || command.available_power_w < zero() {
            return Err(invalid_command("available electric power must be finite and >= 0"));
        }
        if !command.requested_mass_flow_kg_s.is_finite() || command.requested_mass_flow_kg_s < zero() {
            return Err(invalid_command("requested propellant flow must be finite and >= 0"));
        }
        let available_power_w: F64 = command.available_power_w.min(self.maximum_power_w);
        let requested_flow: F64 = command.requested_mass_flow_kg_s.min(self.maximum_mass_flow_kg_s);
        let flow_limited: bool = command.requested_mass_flow_kg_s > self.maximum_mass_flow_kg_s;
        let mut point: ElectricThrusterPoint = self.operate_design(math, available_power_w, requested_flow, flow_limited);
        point.power_limited = point.power_limited || command.available_power_w > self.maximum_power_w;
        Ok(point)
    }
}

/// One installed electric spacecraft thruster.
#[derive(Debug, Clone, PartialEq)]
pub struct ElectricThrusterMount {
    pub name: String,
    pub engine: CompiledElectricThruster,
    pub position_body_m: Vector,
    pub thrust_axis_body: Vector,
}

impl ElectricThrusterMount {
    /// What is wrong with the mount, if anything.
    pub open spec fn fault(&self) -> Option<Fault> {
        checks()
            .refuse(blank(self.name@), bad_spec("electric-thruster mount needs a name"))
            .refuse(!self.position_body_m.is_finite(), bad_spec("electric-thruster position must be finite"))
            .refuse(!self.thrust_axis_body.is_finite(), bad_spec("electric-thruster axis must be finite"))
            .refuse(!self.thrust_axis_body.is_unit(), bad_spec("electric-thruster axis must be unit length"))
            .part(self.engine.fault())
            .fault
    }

    pub fn validate(&self) -> (r: Result<(), PropulsionError>)
        ensures
            seen(r) == outcome(self.fault()),
    {
        if is_blank(self.name.as_str()) {
            return Err(invalid_spec("electric-thruster mount needs a name"));
        }
        if !self.position_body_m.is_finite() {
            return Err(invalid_spec("electric-thruster position must be finite"));
        }
        if !self.thrust_axis_body.is_finite() {
            return Err(invalid_spec("electric-thruster axis must be finite"));
        }
        if !self.thrust_axis_body.is_unit() {
            return Err(invalid_spec("electric-thruster axis must be unit length"));
        }
        self.engine.validate()
    }

    /// Evaluates the installed thruster; the mount is checked first.
    pub fn operating_point<M: Numerics>(&self, math: &M, command: ElectricThrusterCommand) -> (r: Result<
        ElectricThrusterPoint,
        PropulsionError,
    >)
        ensures
            self.fault() is Some ==> seen(r) == Err::<ElectricThrusterPoint, Fault>(self.fault()->0),
            repeatable(math) && self.fault() is None ==> seen(r) == self.engine.point(math, command),
            r is Err && self.fault() is None ==> seen(r) == self.engine.point(math, command),
    {
        self.validate()?;
        self.engine.operating_point(math, command)
    }
}

} // verus!
