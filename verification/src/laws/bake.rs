//! What compilation hands on: authored values that passed their own checks pass those of
//! the compiled engine too.
use crate::cycle::EngineCycle;
use crate::electric::{CompiledElectricThruster, ElectricThrusterSpec};
use crate::engine::{active_fraction, curve_fault};
use crate::error::{in_unit_interval, Fault};
use crate::float::{all_finite_in, lemma_one, whole, zero};
use crate::float::decimals::{lemma_decimal_between, lemma_half, lemma_positive_decimal, lemma_whole};
use crate::float::nearness::lemma_parts;
use crate::laws::burn::{in_order, lemma_from_start, lemma_trace};
use crate::liquid::{CompiledLiquid, LiquidEngineSpec};
use crate::nuclear::{NtrSupplement, NuclearThermalSpec};
use crate::numerics::Numerics;
use crate::propellant::FluidThermo;
use crate::solid::{BurnPoint, CompiledSolid, SolidMotorSpec};
use vstd::arithmetic::power2::lemma_pow2_pos;
use vstd::arithmetic::power::pow;
use vstd::prelude::*;

verus! {

/// The numbers that compilation computes for a liquid engine lie where physics has them.
pub open spec fn computed_soundly(engine: &CompiledLiquid) -> bool {
    &&& engine.throat_area_m2 > zero()
    &&& engine.full_flow_kg_s > zero()
    &&& engine.gas_constant_j_kg_k > zero()
    &&& engine.chamber_temp_k > zero()
    &&& engine.gamma.is_finite() && engine.gamma > whole(1)
    &&& engine.expansion_ratio.is_finite()
    &&& engine.exit_pressure_pa.is_finite() && zero() < engine.exit_pressure_pa
    &&& engine.exit_pressure_pa <= engine.chamber_pressure_pa
    &&& active_fraction(engine.divergence_factor)
    &&& engine.exhaust_velocity_mps >= zero()
    &&& engine.exit_mach >= zero()
    &&& engine.dry_mass_kg >= zero()
    &&& all_finite_in(
        seq![
            engine.exit_temp_k,
            engine.c_star_mps,
            engine.thrust_sl_n,
            engine.thrust_vac_n,
            engine.isp_sl_s,
            engine.isp_vac_s,
            engine.gg_thrust_sl_n,
            engine.gg_thrust_vac_n,
            engine.gg_exit_area_m2,
            engine.gg_isp_s,
            engine.aerospike_base_area_m2,
            engine.nozzle_wall_area_m2,
            engine.pump_power_w,
            engine.feed_pressure_required_pa,
            engine.exit_radius_m,
            engine.nozzle_length_m,
            engine.chamber_pressure_pa,
            engine.throat_area_m2,
            engine.full_flow_kg_s,
            engine.spool_tau_s,
            engine.gas_constant_j_kg_k,
            engine.chamber_temp_k,
            engine.exhaust_velocity_mps,
            engine.exit_mach,
            engine.dry_mass_kg,
            engine.gimbal_range_rad,
        ],
    )
}

/// A clean bake validates: a compiled liquid engine whose computed numbers are sound
/// passes its own checks.
pub proof fn lemma_clean_bake<M: Numerics>(
    spec: &LiquidEngineSpec,
    math: &M,
    fluids: &FluidThermo,
    engine: CompiledLiquid,
)
    requires
        spec.compiled(math, fluids) == Ok::<CompiledLiquid, Fault>(engine),
        computed_soundly(&engine),
    ensures
        engine.fault() is None,
{
    lemma_one();
    lemma_whole(1);
    lemma_parts(whole(1));
    lemma_cycle(spec.cycle);
    lemma_parts(engine.gamma);
    lemma_parts(engine.expansion_ratio);
    lemma_parts(engine.exit_pressure_pa);
}

/// The same for a nuclear engine that has chamber pressure.
pub proof fn lemma_clean_reactor<M: Numerics>(
    spec: &NuclearThermalSpec,
    math: &M,
    engine: CompiledLiquid,
    reactor: NtrSupplement,
)
    requires
        spec.compiled(math) == Ok::<(CompiledLiquid, NtrSupplement), Fault>((engine, reactor)),
        computed_soundly(&engine),
        engine.chamber_pressure_pa > zero(),
    ensures
        engine.fault() is None,
{
    lemma_one();
    lemma_whole(1);
    lemma_whole(60);
    lemma_half();
    reveal_with_fuel(pow, 3);
    lemma_positive_decimal(90, 2);
    lemma_decimal_between(90, 2, 0, 1);
    lemma_decimal_between(5, 1, 0, 1);
    lemma_pow2_pos(1074);
    lemma_parts(engine.gamma);
    lemma_parts(engine.expansion_ratio);
    lemma_parts(engine.exit_pressure_pa);
}

/// The bounds of every cycle are sound.
proof fn lemma_cycle(cycle: EngineCycle)
    ensures
        cycle.limits().spool_tau_s > zero(),
        in_unit_interval(cycle.limits().min_throttle),
        in_unit_interval(cycle.limits().gg_bypass_fraction),
{
    lemma_one();
    lemma_whole(1);
    lemma_parts(zero());
    reveal_with_fuel(pow, 4);
    lemma_positive_decimal(4, 1);
    lemma_positive_decimal(3, 1);
    lemma_positive_decimal(6, 1);
    lemma_positive_decimal(12, 1);
    lemma_decimal_between(30, 2, 0, 1);
    lemma_decimal_between(35, 2, 0, 1);
    lemma_decimal_between(40, 2, 0, 1);
    lemma_decimal_between(50, 2, 0, 1);
    lemma_decimal_between(30, 3, 0, 1);
    lemma_positive_decimal(30, 2);
    lemma_positive_decimal(35, 2);
    lemma_positive_decimal(40, 2);
    lemma_positive_decimal(50, 2);
    lemma_positive_decimal(30, 3);
    lemma_pow2_pos(1074);
}

/// The numbers that compilation computes for a motor lie where physics has them.
pub open spec fn burned_soundly(motor: &CompiledSolid) -> bool {
    let curve = motor.burn_curve@;
    &&& motor.throat_area_m2 > zero()
    &&& motor.burn_time_s > zero()
    &&& motor.propellant_mass_kg >= zero()
    &&& motor.exhaust_velocity_mps >= zero()
    &&& motor.exit_mach >= zero()
    &&& motor.dry_mass_kg >= zero()
    &&& motor.gas_constant_j_kg_k > zero()
    &&& motor.chamber_temp_k > zero()
    &&& motor.gamma.is_finite() && motor.gamma > whole(1)
    &&& motor.expansion_ratio.is_finite()
    &&& active_fraction(motor.divergence_factor)
    &&& all_finite_in(
        seq![
            motor.total_impulse_ns,
            motor.avg_isp_s,
            motor.peak_pressure_pa,
            motor.peak_thrust_sl_n,
            motor.c_star_mps,
            motor.exit_temp_k,
            motor.aerospike_base_area_m2,
            motor.throat_radius_m,
            motor.exit_radius_m,
            motor.grain_outer_radius_m,
            motor.grain_length_m,
            motor.throat_area_m2,
            motor.gas_constant_j_kg_k,
            motor.chamber_temp_k,
            motor.burn_time_s,
            motor.propellant_mass_kg,
            motor.exhaust_velocity_mps,
            motor.exit_mach,
            motor.dry_mass_kg,
            motor.gimbal_range_rad,
        ],
    )
    &&& forall|i: int| #![trigger curve[i]] 0 <= i < curve.len() ==> station_sound(curve[i])
    &&& forall|i: int|
        #![trigger curve[i]]
        0 <= i < curve.len() && (i == 0 || i + 1 < curve.len()) ==> curve[i].chamber_pa > zero()
            && curve[i].mass_flow_kg_s > zero()
}

/// A station of finite numbers with a flow that is not negative.
pub open spec fn station_sound(point: BurnPoint) -> bool {
    &&& all_finite_in(
        seq![
            point.time_s,
            point.web_burned_m,
            point.chamber_pa,
            point.mass_flow_kg_s,
            point.thrust_sl_n,
            point.thrust_vac_n,
        ],
    )
    &&& zero() <= point.mass_flow_kg_s
}

/// A compiled motor whose computed numbers are sound, and which is lit up to its last
/// station, passes its own checks.
pub proof fn lemma_clean_motor<M: Numerics>(spec: &SolidMotorSpec, math: &M, motor: CompiledSolid)
    requires
        spec.compiles_to(math, Ok::<CompiledSolid, Fault>(motor)),
        burned_soundly(&motor),
    ensures
        motor.fault() is None,
{
    lemma_one();
    lemma_trace(spec, math, motor);
    lemma_parts(motor.gamma);
    lemma_parts(motor.expansion_ratio);
    lemma_clean_curve(motor.burn_curve@, 0, motor);
}

/// The trace of such a motor from a station on.
proof fn lemma_clean_curve(curve: Seq<BurnPoint>, i: int, motor: CompiledSolid)
    requires
        curve == motor.burn_curve@,
        burned_soundly(&motor),
        in_order(curve, motor.burn_time_s, motor.peak_pressure_pa),
        0 <= i,
    ensures
        curve_fault(curve, i) is None,
    decreases curve.len() - i,
{
    lemma_one();
    if i < curve.len() {
        lemma_clean_curve(curve, i + 1, motor);
        lemma_from_start(curve, i);
    }
}

/// Every compiled electric thruster passes its own checks.
pub proof fn lemma_clean_thruster<M: Numerics>(
    spec: ElectricThrusterSpec,
    math: &M,
    engine: CompiledElectricThruster,
)
    requires
        spec.compiled(math) == Ok::<CompiledElectricThruster, Fault>(engine),
    ensures
        engine.fault() is None,
{
    lemma_one();
    lemma_parts(engine.radiator_heat_rejection_w);
    lemma_parts(engine.dry_mass_kg);
    let authored = seq![
        spec.maximum_power_w,
        spec.maximum_mass_flow_kg_s,
        spec.power_processor_specific_power_w_kg,
        spec.structure_density_kg_m3,
        spec.structure_thickness_m,
        spec.radiator_area_m2,
        spec.radiator_temperature_k,
        spec.radiator_emissivity,
        spec.radiator_areal_density_kg_m2,
        spec.ionization_efficiency,
        spec.inlet_temperature_k,
    ];
    assert(all_finite_in(authored));
    assert(authored[0].is_finite() && authored[1].is_finite() && authored[9].is_finite() && authored[10].is_finite());
}

} // verus!
