//! Physical constants and calibration fits shared by the engine families.
use crate::float::{dec, whole, F64};
use vstd::prelude::*;

verus! {

/// [`standard_gravity_mps2`] in contracts.
pub open spec fn standard_gravity_mps2_spec() -> F64 {
    dec(980665, 5)
}

/// Standard gravity for specific-impulse bookkeeping (m/s^2).
#[verifier::when_used_as_spec(standard_gravity_mps2_spec)]
pub fn standard_gravity_mps2() -> (r: F64)
    ensures
        r == standard_gravity_mps2(),
{
    dec(980665, 5)
}

/// [`separation_pressure_ratio`] in contracts.
pub open spec fn separation_pressure_ratio_spec() -> F64 {
    dec(4, 1)
}

/// Summerfield flow-separation criterion: a nozzle whose exit pressure falls
/// below this fraction of ambient pressure risks asymmetric separation. The
/// flag is reported; thrust is never silently derated.
#[verifier::when_used_as_spec(separation_pressure_ratio_spec)]
pub fn separation_pressure_ratio() -> (r: F64)
    ensures
        r == separation_pressure_ratio(),
{
    dec(4, 1)
}

/// [`nozzle_efficiency`] in contracts.
pub open spec fn nozzle_efficiency_spec() -> F64 {
    dec(95, 2)
}

/// Nozzle velocity efficiency covering boundary-layer, kinetic, and
/// divergence-residual losses outside the geometric divergence factor.
#[verifier::when_used_as_spec(nozzle_efficiency_spec)]
pub fn nozzle_efficiency() -> (r: F64)
    ensures
        r == nozzle_efficiency(),
{
    dec(95, 2)
}

/// [`gg_duct_expansion_ratio`] in contracts.
pub open spec fn gg_duct_expansion_ratio_spec() -> F64 {
    whole(3)
}

/// Gas-generator duct expansion ratio.
#[verifier::when_used_as_spec(gg_duct_expansion_ratio_spec)]
pub fn gg_duct_expansion_ratio() -> (r: F64)
    ensures
        r == gg_duct_expansion_ratio(),
{
    whole(3)
}

/// [`gg_pressure_fraction`] in contracts.
pub open spec fn gg_pressure_fraction_spec() -> F64 {
    dec(6, 1)
}

/// Gas-generator turbine exhaust pressure as a fraction of chamber pressure.
#[verifier::when_used_as_spec(gg_pressure_fraction_spec)]
pub fn gg_pressure_fraction() -> (r: F64)
    ensures
        r == gg_pressure_fraction(),
{
    dec(6, 1)
}

/// [`injector_drop_fraction`] in contracts.
pub open spec fn injector_drop_fraction_spec() -> F64 {
    dec(2, 1)
}

/// Injector pressure drop as a fraction of chamber pressure.
#[verifier::when_used_as_spec(injector_drop_fraction_spec)]
pub fn injector_drop_fraction() -> (r: F64)
    ensures
        r == injector_drop_fraction(),
{
    dec(2, 1)
}

/// [`tank_pressure_pa`] in contracts.
pub open spec fn tank_pressure_pa_spec() -> F64 {
    whole(300_000)
}

/// Tank pressure assumed for electric-pump power bookkeeping (Pa).
#[verifier::when_used_as_spec(tank_pressure_pa_spec)]
pub fn tank_pressure_pa() -> (r: F64)
    ensures
        r == tank_pressure_pa(),
{
    whole(300_000)
}

/// [`pump_efficiency`] in contracts.
pub open spec fn pump_efficiency_spec() -> F64 {
    dec(6, 1)
}

/// Pump hydraulic efficiency for electric-pump power.
#[verifier::when_used_as_spec(pump_efficiency_spec)]
pub fn pump_efficiency() -> (r: F64)
    ensures
        r == pump_efficiency(),
{
    dec(6, 1)
}

/// [`pump_specific_power_w_per_kg`] in contracts.
pub open spec fn pump_specific_power_w_per_kg_spec() -> F64 {
    whole(5_000)
}

/// Electric pump specific power for mass bookkeeping (W/kg).
#[verifier::when_used_as_spec(pump_specific_power_w_per_kg_spec)]
pub fn pump_specific_power_w_per_kg() -> (r: F64)
    ensures
        r == pump_specific_power_w_per_kg(),
{
    whole(5_000)
}

/// [`pressure_safety_factor`] in contracts.
pub open spec fn pressure_safety_factor_spec() -> F64 {
    dec(15, 1)
}

/// Structural safety factor on thin-wall pressure sizing.
#[verifier::when_used_as_spec(pressure_safety_factor_spec)]
pub fn pressure_safety_factor() -> (r: F64)
    ensures
        r == pressure_safety_factor(),
{
    dec(15, 1)
}

/// [`chamber_length_diameter`] in contracts.
pub open spec fn chamber_length_diameter_spec() -> F64 {
    dec(12, 1)
}

/// Chamber length-to-diameter ratio.
#[verifier::when_used_as_spec(chamber_length_diameter_spec)]
pub fn chamber_length_diameter() -> (r: F64)
    ensures
        r == chamber_length_diameter(),
{
    dec(12, 1)
}

/// [`mass_fit_turbo_kg_per_flow_power`] in contracts.
pub open spec fn mass_fit_turbo_kg_per_flow_power_spec() -> F64 {
    dec(4, 8)
}

/// Turbomachinery mass per unit flow power (kg per (kg/s * Pa)).
#[verifier::when_used_as_spec(mass_fit_turbo_kg_per_flow_power_spec)]
pub fn mass_fit_turbo_kg_per_flow_power() -> (r: F64)
    ensures
        r == mass_fit_turbo_kg_per_flow_power(),
{
    dec(4, 8)
}

/// [`mass_fit_mount_kg_per_n`] in contracts.
pub open spec fn mass_fit_mount_kg_per_n_spec() -> F64 {
    dec(8, 5)
}

/// Mount and thrust-structure interface per unit vacuum thrust (kg/N).
#[verifier::when_used_as_spec(mass_fit_mount_kg_per_n_spec)]
pub fn mass_fit_mount_kg_per_n() -> (r: F64)
    ensures
        r == mass_fit_mount_kg_per_n(),
{
    dec(8, 5)
}

/// [`mass_fit_feed_kg_per_n`] in contracts.
pub open spec fn mass_fit_feed_kg_per_n_spec() -> F64 {
    dec(3, 5)
}

/// Valves, lines and controller per unit vacuum thrust (kg/N).
#[verifier::when_used_as_spec(mass_fit_feed_kg_per_n_spec)]
pub fn mass_fit_feed_kg_per_n() -> (r: F64)
    ensures
        r == mass_fit_feed_kg_per_n(),
{
    dec(3, 5)
}

/// [`mass_fit_head_base_kg`] in contracts.
pub open spec fn mass_fit_head_base_kg_spec() -> F64 {
    whole(8)
}

/// Injector head base mass (kg).
#[verifier::when_used_as_spec(mass_fit_head_base_kg_spec)]
pub fn mass_fit_head_base_kg() -> (r: F64)
    ensures
        r == mass_fit_head_base_kg(),
{
    whole(8)
}

/// [`mass_fit_head_kg_per_m2`] in contracts.
pub open spec fn mass_fit_head_kg_per_m2_spec() -> F64 {
    whole(150)
}

/// Injector head mass per throat area (kg/m^2).
#[verifier::when_used_as_spec(mass_fit_head_kg_per_m2_spec)]
pub fn mass_fit_head_kg_per_m2() -> (r: F64)
    ensures
        r == mass_fit_head_kg_per_m2(),
{
    whole(150)
}

/// [`mass_fit_gimbal_base_kg`] in contracts.
pub open spec fn mass_fit_gimbal_base_kg_spec() -> F64 {
    whole(4)
}

/// Gimbal actuator base mass (kg).
#[verifier::when_used_as_spec(mass_fit_gimbal_base_kg_spec)]
pub fn mass_fit_gimbal_base_kg() -> (r: F64)
    ensures
        r == mass_fit_gimbal_base_kg(),
{
    whole(4)
}

/// [`mass_fit_gimbal_kg_per_n`] in contracts.
pub open spec fn mass_fit_gimbal_kg_per_n_spec() -> F64 {
    dec(2, 5)
}

/// Gimbal actuator mass per thrust (kg/N).
#[verifier::when_used_as_spec(mass_fit_gimbal_kg_per_n_spec)]
pub fn mass_fit_gimbal_kg_per_n() -> (r: F64)
    ensures
        r == mass_fit_gimbal_kg_per_n(),
{
    dec(2, 5)
}

/// [`mass_fit_solid_igniter_kg`] in contracts.
pub open spec fn mass_fit_solid_igniter_kg_spec() -> F64 {
    whole(2)
}

/// Solid igniter and hardware flat allowance (kg).
#[verifier::when_used_as_spec(mass_fit_solid_igniter_kg_spec)]
pub fn mass_fit_solid_igniter_kg() -> (r: F64)
    ensures
        r == mass_fit_solid_igniter_kg(),
{
    whole(2)
}

/// [`aerospike_base_fraction`] in contracts.
pub open spec fn aerospike_base_fraction_spec() -> F64 {
    dec(5, 2)
}

/// Aerospike base area as a fraction of equivalent exit area (base drag).
#[verifier::when_used_as_spec(aerospike_base_fraction_spec)]
pub fn aerospike_base_fraction() -> (r: F64)
    ensures
        r == aerospike_base_fraction(),
{
    dec(5, 2)
}

/// [`sea_level_pa`] in contracts.
pub open spec fn sea_level_pa_spec() -> F64 {
    whole(101_325)
}

/// Sea-level pressure (Pa).
#[verifier::when_used_as_spec(sea_level_pa_spec)]
pub fn sea_level_pa() -> (r: F64)
    ensures
        r == sea_level_pa(),
{
    whole(101_325)
}

} // verus!
