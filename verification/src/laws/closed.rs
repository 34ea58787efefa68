//! NaN fails closed: no authored value or command that is not a number gets past
//! validation.
use crate::air::{throttle_fault, AirbreathingSpec, FlightCondition};
use crate::electric::ElectricThrusterSpec;
use crate::engine::CompiledEngine;
use crate::error::Fault;
use crate::estoc::{EstocEjectorSpec, EstocPrecoolerSpec, EstocSpec};
use crate::float::{all_finite_in, F64};
use crate::float::nearness::lemma_parts;
use crate::fusion::{FusionTorchSpec, PulsedFusionSpec};
use crate::jet::JetMount;
use crate::liquid::LiquidEngineSpec;
use crate::material::ChamberMaterial;
use crate::mount::EngineMount;
use crate::nuclear::NuclearThermalSpec;
use crate::numerics::Numerics;
use crate::rcs::{duty_fault, ColdGasThrusterSpec, MonopropThrusterSpec, RcsMount};
use crate::solid::SolidMotorSpec;
use crate::vector::Vector;
use vstd::prelude::*;

verus! {

/// Whether an optional value is there and not a number.
pub open spec fn given_nan(value: Option<F64>) -> bool {
    value is Some && value->0.is_nan()
}

pub open spec fn vector_nan(v: Vector) -> bool {
    v.x.is_nan() || v.y.is_nan() || v.z.is_nan()
}

pub open spec fn material_nan(material: ChamberMaterial) -> bool {
    material.density_kg_m3.is_nan() || material.yield_strength_pa.is_nan() || material.max_wall_temp_k.is_nan()
}

pub open spec fn liquid_nan(spec: LiquidEngineSpec) -> bool {
    ||| spec.chamber_pressure_pa.is_nan()
    ||| spec.throat_radius_m.is_nan()
    ||| spec.expansion_ratio.is_nan()
    ||| spec.nozzle_length_m.is_nan()
    ||| material_nan(spec.chamber_material)
    ||| given_nan(spec.mixture_ratio)
    ||| given_nan(spec.characteristic_length_m)
    ||| spec.gimbal_range_rad.is_nan()
    ||| given_nan(spec.min_throttle)
}

/// A liquid engine with a NaN anywhere in its authoring is refused.
pub proof fn lemma_liquid_closed<M: Numerics>(spec: LiquidEngineSpec, math: &M)
    requires
        liquid_nan(spec),
    ensures
        spec.fault(math) is Some,
{
    if spec.mixture_ratio is Some {
        lemma_parts(spec.mixture_ratio->0);
    }
    if spec.min_throttle is Some {
        lemma_parts(spec.min_throttle->0);
    }
}

pub open spec fn solid_nan(spec: SolidMotorSpec) -> bool {
    ||| spec.outer_radius_m.is_nan()
    ||| spec.core_radius_m.is_nan()
    ||| spec.segment_length_m.is_nan()
    ||| spec.burn_rate_coeff.is_nan()
    ||| spec.burn_rate_exponent.is_nan()
    ||| spec.throat_radius_m.is_nan()
    ||| spec.expansion_ratio.is_nan()
    ||| spec.nozzle_length_m.is_nan()
    ||| material_nan(spec.casing_material)
    ||| spec.gimbal_range_rad.is_nan()
    ||| (spec.segment_core_radii_m is Some && exists|i: int|
        0 <= i < spec.segment_core_radii_m->0@.len() && #[trigger] spec.segment_core_radii_m->0@[i].is_nan())
}

/// A solid motor with a NaN anywhere in its authoring is refused.
pub proof fn lemma_solid_closed(spec: SolidMotorSpec)
    requires
        solid_nan(spec),
    ensures
        spec.fault() is Some,
{
    if spec.segment_core_radii_m is Some {
        let radii = spec.segment_core_radii_m->0@;
        if exists|i: int| 0 <= i < radii.len() && #[trigger] radii[i].is_nan() {
            let i = choose|i: int| 0 <= i < radii.len() && #[trigger] radii[i].is_nan();
            lemma_radii_closed(spec, radii, 0, i);
        }
    }
}

proof fn lemma_radii_closed(spec: SolidMotorSpec, radii: Seq<F64>, from: int, i: int)
    requires
        0 <= from <= i < radii.len(),
        radii[i].is_nan(),
    ensures
        spec.radii_fault(radii, from) is Some,
    decreases i - from,
{
    if from < i {
        lemma_radii_closed(spec, radii, from + 1, i);
    }
}

pub open spec fn nuclear_nan(spec: NuclearThermalSpec) -> bool {
    ||| spec.core_temp_k.is_nan()
    ||| spec.core_power_mw.is_nan()
    ||| given_nan(spec.reactor_specific_mass_kg_per_mw)
    ||| spec.throat_radius_m.is_nan()
    ||| spec.expansion_ratio.is_nan()
    ||| spec.nozzle_length_m.is_nan()
    ||| material_nan(spec.material)
    ||| spec.gimbal_range_rad.is_nan()
    ||| given_nan(spec.startup_tau_s)
    ||| given_nan(spec.min_throttle)
}

/// A nuclear engine with a NaN anywhere in its authoring is refused.
pub proof fn lemma_nuclear_closed(spec: NuclearThermalSpec)
    requires
        nuclear_nan(spec),
    ensures
        spec.fault() is Some,
{
    if spec.min_throttle is Some {
        lemma_parts(spec.min_throttle->0);
    }
}

pub open spec fn cold_gas_nan(spec: ColdGasThrusterSpec) -> bool {
    ||| spec.storage_temp_k.is_nan()
    ||| spec.rated_pressure_pa.is_nan()
    ||| spec.throat_radius_m.is_nan()
    ||| spec.expansion_ratio.is_nan()
    ||| spec.nozzle_length_m.is_nan()
    ||| material_nan(spec.material)
    ||| spec.valve_rise_time_s.is_nan()
    ||| spec.min_on_time_s.is_nan()
}

pub open spec fn monoprop_nan(spec: MonopropThrusterSpec) -> bool {
    ||| spec.chamber_pressure_pa.is_nan()
    ||| spec.throat_radius_m.is_nan()
    ||| spec.expansion_ratio.is_nan()
    ||| spec.nozzle_length_m.is_nan()
    ||| material_nan(spec.material)
    ||| spec.valve_rise_time_s.is_nan()
    ||| spec.min_on_time_s.is_nan()
}

/// Thrusters with a NaN anywhere in their authoring are refused.
pub proof fn lemma_thrusters_closed(cold: ColdGasThrusterSpec, mono: MonopropThrusterSpec)
    ensures
        cold_gas_nan(cold) ==> cold.fault() is Some,
        monoprop_nan(mono) ==> mono.fault() is Some,
{
}

pub open spec fn electric_nan(spec: ElectricThrusterSpec) -> bool {
    ||| spec.maximum_power_w.is_nan()
    ||| spec.maximum_mass_flow_kg_s.is_nan()
    ||| spec.power_processor_specific_power_w_kg.is_nan()
    ||| spec.structure_density_kg_m3.is_nan()
    ||| spec.structure_thickness_m.is_nan()
    ||| spec.radiator_area_m2.is_nan()
    ||| spec.radiator_temperature_k.is_nan()
    ||| spec.radiator_emissivity.is_nan()
    ||| spec.radiator_areal_density_kg_m2.is_nan()
    ||| spec.ionization_efficiency.is_nan()
    ||| spec.inlet_temperature_k.is_nan()
    ||| exists|i: int| 0 <= i < spec.design.numbers().len() && #[trigger] spec.design.numbers()[i].is_nan()
}

/// An electric thruster with a NaN anywhere in its authoring is refused.
pub proof fn lemma_electric_closed(spec: ElectricThrusterSpec)
    requires
        electric_nan(spec),
    ensures
        spec.fault() is Some,
{
    lemma_parts(spec.radiator_emissivity);
    lemma_parts(spec.ionization_efficiency);
    let numbers = spec.design.numbers();
    if exists|i: int| 0 <= i < numbers.len() && #[trigger] numbers[i].is_nan() {
        let i = choose|i: int| 0 <= i < numbers.len() && #[trigger] numbers[i].is_nan();
        lemma_parts(numbers[i]);
        assert(!all_finite_in(numbers));
    }
}

pub open spec fn torch_nan(spec: FusionTorchSpec) -> bool {
    ||| spec.maximum_fusion_power_w.is_nan()
    ||| spec.fusion_gain.is_nan()
    ||| spec.maximum_working_flow_kg_s.is_nan()
    ||| spec.reactor_specific_power_w_kg.is_nan()
    ||| spec.plasma_coupling_efficiency.is_nan()
    ||| spec.magnetic_nozzle_efficiency.is_nan()
    ||| spec.nozzle_radius_m.is_nan()
    ||| spec.nozzle_length_m.is_nan()
    ||| spec.magnetic_field_t.is_nan()
    ||| spec.coil_current_density_a_m2.is_nan()
    ||| spec.structure_density_kg_m3.is_nan()
    ||| spec.structure_thickness_m.is_nan()
    ||| spec.radiator_area_m2.is_nan()
    ||| spec.radiator_temperature_k.is_nan()
    ||| spec.radiator_emissivity.is_nan()
    ||| spec.radiator_areal_density_kg_m2.is_nan()
}

/// A fusion torch with a NaN anywhere in its authoring is refused.
pub proof fn lemma_torch_closed(spec: FusionTorchSpec)
    requires
        torch_nan(spec),
    ensures
        spec.value_fault() is Some,
{
    let values = seq![
        spec.maximum_fusion_power_w,
        spec.fusion_gain,
        spec.maximum_working_flow_kg_s,
        spec.reactor_specific_power_w_kg,
        spec.plasma_coupling_efficiency,
        spec.magnetic_nozzle_efficiency,
        spec.nozzle_radius_m,
        spec.nozzle_length_m,
        spec.magnetic_field_t,
        spec.coil_current_density_a_m2,
        spec.structure_density_kg_m3,
        spec.structure_thickness_m,
        spec.radiator_area_m2,
        spec.radiator_temperature_k,
        spec.radiator_emissivity,
        spec.radiator_areal_density_kg_m2,
    ];
    lemma_numbers_of(values);
    if all_finite_in(values) {
        assert(!values[1].is_nan() && !values[4].is_nan() && !values[5].is_nan() && !values[12].is_nan()
            && !values[13].is_nan() && !values[14].is_nan() && !values[15].is_nan());
    }
}

/// Finite values are numbers.
proof fn lemma_numbers_of(values: Seq<F64>)
    ensures
        all_finite_in(values) ==> forall|i: int| 0 <= i < values.len() ==> !(#[trigger] values[i]).is_nan(),
{
    if all_finite_in(values) {
        assert forall|i: int| 0 <= i < values.len() implies !(#[trigger] values[i]).is_nan() by {
            assert(values[i].is_finite());
            lemma_parts(values[i]);
        }
    }
}

pub open spec fn pulsed_nan(spec: PulsedFusionSpec) -> bool {
    ||| spec.fuel_mass_per_pulse_kg.is_nan()
    ||| spec.working_fluid_mass_per_pulse_kg.is_nan()
    ||| spec.fusion_gain.is_nan()
    ||| spec.plasma_coupling_efficiency.is_nan()
    ||| spec.magnetic_nozzle_efficiency.is_nan()
    ||| spec.maximum_pulse_frequency_hz.is_nan()
    ||| spec.pulse_duration_s.is_nan()
    ||| spec.maximum_charge_power_w.is_nan()
    ||| spec.energy_buffer_specific_energy_j_kg.is_nan()
    ||| spec.pulse_system_specific_power_w_kg.is_nan()
    ||| spec.chamber_radius_m.is_nan()
    ||| spec.chamber_length_m.is_nan()
    ||| spec.magnetic_field_t.is_nan()
    ||| spec.coil_current_density_a_m2.is_nan()
    ||| spec.structure_density_kg_m3.is_nan()
    ||| spec.structure_thickness_m.is_nan()
    ||| spec.radiator_area_m2.is_nan()
    ||| spec.radiator_temperature_k.is_nan()
    ||| spec.radiator_emissivity.is_nan()
    ||| spec.radiator_areal_density_kg_m2.is_nan()
}

/// A pulsed drive with a NaN anywhere in its authoring is refused.
pub proof fn lemma_pulsed_closed(spec: PulsedFusionSpec)
    requires
        pulsed_nan(spec),
    ensures
        spec.value_fault() is Some,
{
    let values = seq![
        spec.fuel_mass_per_pulse_kg,
        spec.working_fluid_mass_per_pulse_kg,
        spec.fusion_gain,
        spec.plasma_coupling_efficiency,
        spec.magnetic_nozzle_efficiency,
        spec.maximum_pulse_frequency_hz,
        spec.pulse_duration_s,
        spec.maximum_charge_power_w,
        spec.energy_buffer_specific_energy_j_kg,
        spec.pulse_system_specific_power_w_kg,
        spec.chamber_radius_m,
        spec.chamber_length_m,
        spec.magnetic_field_t,
        spec.coil_current_density_a_m2,
        spec.structure_density_kg_m3,
        spec.structure_thickness_m,
        spec.radiator_area_m2,
        spec.radiator_temperature_k,
        spec.radiator_emissivity,
        spec.radiator_areal_density_kg_m2,
    ];
    lemma_numbers_of(values);
    if all_finite_in(values) {
        assert(!values[2].is_nan() && !values[3].is_nan() && !values[4].is_nan() && !values[16].is_nan()
            && !values[17].is_nan() && !values[18].is_nan() && !values[19].is_nan());
    }
}

pub open spec fn air_nan(spec: AirbreathingSpec) -> bool {
    ||| spec.intake_area_m2.is_nan()
    ||| spec.compressor_ratio.is_nan()
    ||| spec.bypass_ratio.is_nan()
    ||| spec.fan_pressure_ratio.is_nan()
    ||| spec.turbine_inlet_temp_k.is_nan()
    ||| (spec.afterburner && spec.reheat_temp_k.is_nan())
    ||| material_nan(spec.turbine_material)
    ||| spec.spool_tau_s.is_nan()
}

/// An air-breather with a NaN anywhere in its own authoring is refused, whatever the
/// verdict on its shaft; the reheat temperature counts where an afterburner is fitted.
pub proof fn lemma_air_closed<M: Numerics>(spec: AirbreathingSpec, math: &M, shaft_verdict: Result<(), Fault>)
    requires
        air_nan(spec),
    ensures
        spec.fault(math, shaft_verdict) is Some,
{
}

pub open spec fn precooler_nan(spec: EstocPrecoolerSpec) -> bool {
    ||| spec.maximum_heat_flow_w.is_nan()
    ||| spec.effectiveness.is_nan()
    ||| spec.maximum_compressor_inlet_temp_k.is_nan()
    ||| spec.pressure_recovery.is_nan()
    ||| spec.wall_mass_kg.is_nan()
    ||| spec.wall_specific_heat_j_kg_k.is_nan()
    ||| spec.wall_initial_temp_k.is_nan()
    ||| spec.wall_max_temp_k.is_nan()
    ||| spec.coolant_inlet_temp_k.is_nan()
    ||| spec.coolant_max_outlet_temp_k.is_nan()
    ||| spec.coolant_specific_heat_j_kg_k.is_nan()
    ||| spec.maximum_coolant_flow_kg_s.is_nan()
}

pub open spec fn ejector_nan(spec: EstocEjectorSpec) -> bool {
    ||| spec.capture_area_m2.is_nan()
    ||| spec.mixing_length_m.is_nan()
    ||| spec.mixing_efficiency.is_nan()
    ||| spec.structure_density_kg_m3.is_nan()
    ||| spec.wall_thickness_m.is_nan()
}

pub open spec fn estoc_nan(spec: EstocSpec) -> bool {
    ||| (spec.precooler is Some && precooler_nan(spec.precooler->0))
    ||| (spec.ejector is Some && ejector_nan(spec.ejector->0))
    ||| spec.rocket_chamber_pressure_pa.is_nan()
    ||| spec.rocket_throat_radius_m.is_nan()
    ||| given_nan(spec.oxidizer_fuel_ratio)
    ||| given_nan(spec.switch_mach_hi)
    ||| given_nan(spec.switch_mach_lo)
    ||| given_nan(spec.transition_tau_s)
}

/// A combined cycle with a NaN anywhere in its own authoring is refused.
pub proof fn lemma_estoc_closed<M: Numerics>(spec: EstocSpec, math: &M)
    requires
        estoc_nan(spec),
    ensures
        spec.fault(math) is Some,
{
    if spec.precooler is Some {
        lemma_parts(spec.precooler->0.effectiveness);
    }
    if spec.ejector is Some {
        lemma_parts(spec.ejector->0.mixing_efficiency);
    }
    if spec.oxidizer_fuel_ratio is Some {
        lemma_parts(spec.oxidizer_fuel_ratio->0);
    }
    if spec.switch_mach_hi is Some {
        lemma_parts(spec.switch_mach_hi->0);
    }
    if spec.switch_mach_lo is Some {
        lemma_parts(spec.switch_mach_lo->0);
    }
}

/// A mount with a NaN in its frame is refused.
pub proof fn lemma_mounts_closed(engine: EngineMount, thruster: RcsMount, jet: JetMount)
    ensures
        vector_nan(engine.position_body_m) || vector_nan(engine.thrust_axis_body) ==> engine.fault() is Some,
        vector_nan(thruster.position_body_m) || vector_nan(thruster.direction_body) ==> thruster.fault() is Some,
        vector_nan(jet.position_body_m) || vector_nan(jet.thrust_axis_body) || jet.gimbal_range_rad.is_nan()
            ==> jet.fault() is Some,
{
    lemma_vector(engine.position_body_m);
    lemma_vector(engine.thrust_axis_body);
    lemma_vector(thruster.position_body_m);
    lemma_vector(thruster.direction_body);
    lemma_vector(jet.position_body_m);
    lemma_vector(jet.thrust_axis_body);
    lemma_parts(jet.gimbal_range_rad);
}

proof fn lemma_vector(v: Vector)
    ensures
        vector_nan(v) ==> !v.is_finite(),
{
    lemma_parts(v.x);
    lemma_parts(v.y);
    lemma_parts(v.z);
}

/// No engine answers a command that is not a number: the ambient pressure, a liquid
/// engine's throttle, a motor's throttle or burn clock.
pub proof fn lemma_commands_closed<M: Numerics>(
    engine: &CompiledEngine,
    math: &M,
    throttle: F64,
    ambient_pa: F64,
    burn_time_s: F64,
)
    requires
        ambient_pa.is_nan() || throttle.is_nan() || (engine is Solid && burn_time_s.is_nan()),
    ensures
        engine.point(math, throttle, ambient_pa, burn_time_s) is Err,
{
    lemma_parts(ambient_pa);
    lemma_parts(throttle);
    lemma_parts(burn_time_s);
}

/// No flight condition, throttle or duty that is not a number is accepted.
pub proof fn lemma_conditions_closed(condition: FlightCondition, throttle: F64, duty: F64)
    ensures
        condition.mach.is_nan() || condition.ambient_pa.is_nan() || condition.ambient_temp_k.is_nan()
            || condition.airspeed_mps.is_nan() ==> condition.fault() is Some,
        throttle.is_nan() ==> throttle_fault(throttle) is Some,
        duty.is_nan() ==> duty_fault(duty) is Some,
{
    lemma_parts(condition.mach);
    lemma_parts(condition.airspeed_mps);
    lemma_parts(throttle);
    lemma_parts(duty);
}

} // verus!
