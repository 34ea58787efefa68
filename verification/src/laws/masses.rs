//! What engines weigh, and the sizes of their parts.
use crate::air::CompiledAirbreather;
use crate::constants::{
    gg_duct_expansion_ratio, gg_pressure_fraction, mass_fit_gimbal_base_kg, mass_fit_gimbal_kg_per_n, pump_efficiency,
    standard_gravity_mps2, tank_pressure_pa,
};
use crate::estoc::EstocSpec;
use crate::float::accuracy::{
    about, lemma_about_chain, lemma_about_product, lemma_about_same, lemma_normal, lemma_over, lemma_times_associates,
    lemma_times_commutes, lemma_times_positive, normal, over, times, value,
};
use crate::float::{dec, lemma_one, zero, F64};
use crate::float::exact::lemma_add_zero;
use crate::float::nearness::lemma_parts;
use crate::float::order::lemma_finite_terms;
use crate::float::tracking::{lemma_about_itself, lemma_about_over, lemma_about_times};
use crate::laws::figures::lemma_discharged;
use crate::liquid::{DuctDesign, LiquidEngineSpec};
use crate::nozzle::{characteristic_velocity, NozzleExitState};
use crate::numerics::Numerics;
use crate::propellant::PropellantThermo;
use vstd::prelude::*;

verus! {

/// A gimbal costs its mass and no thrust: of two liquid engines that differ in their gimbal
/// range alone, the one that turns weighs the gimbal's base and its share of the thrust more
/// than the one that does not, and gives the same thrusts and flow.
pub proof fn lemma_gimbal_mass<M: Numerics>(
    fixed: &LiquidEngineSpec,
    turned: &LiquidEngineSpec,
    math: &M,
    thermo: &PropellantThermo,
    exit: &NozzleExitState,
    duct: &DuctDesign,
)
    requires
        fixed.gimbal_range_rad == zero(),
        zero() < turned.gimbal_range_rad,
        *turned == (LiquidEngineSpec { gimbal_range_rad: turned.gimbal_range_rad, ..*fixed }),
        fixed.design(math, thermo, exit, duct).dry_mass_kg.is_finite(),
        zero() < fixed.design(math, thermo, exit, duct).dry_mass_kg,
    ensures
        ({
            let (plain, moving) = (
                fixed.design(math, thermo, exit, duct),
                turned.design(math, thermo, exit, duct),
            );
            &&& moving.dry_mass_kg == plain.dry_mass_kg + (mass_fit_gimbal_base_kg() + mass_fit_gimbal_kg_per_n()
                * plain.thrust_vac_n)
            &&& moving.thrust_vac_n == plain.thrust_vac_n && moving.thrust_sl_n == plain.thrust_sl_n
            &&& moving.full_flow_kg_s == plain.full_flow_kg_s
            &&& moving.gimbal_range_rad == turned.gimbal_range_rad
        }),
{
    let plain = fixed.design(math, thermo, exit, duct);
    let moving = turned.design(math, thermo, exit, duct);
    lemma_one();
    lemma_parts(zero());
    lemma_parts(plain.dry_mass_kg);
    let rest = choose|rest: F64| plain.dry_mass_kg == rest + zero() && moving.dry_mass_kg == #[trigger] (rest + (
    mass_fit_gimbal_base_kg() + mass_fit_gimbal_kg_per_n() * plain.thrust_vac_n));
    lemma_finite_terms(rest, zero());
    lemma_add_zero(rest, zero());
    lemma_parts(rest);
}

/// A rocket inside a jet: what the combined engine reports of it agrees. The pressure on its
/// throat drives its flow at the characteristic velocity, to within two roundings; specific
/// impulses are thrusts of a unit of weight flow; it expands from its own throat to the
/// jet's exit; and the engine weighs its jet, its rocket, its precooler and its ejector.
pub proof fn lemma_rocket_design<M: Numerics>(spec: &EstocSpec, math: &M, air: CompiledAirbreather, exit_mach: F64)
    requires
        ({
            let engine = spec.assemble(math, air, exit_mach);
            &&& normal(engine.rocket_chamber_pressure_pa) && normal(engine.rocket_throat_area_m2)
            &&& normal(engine.rocket_c_star_mps)
            &&& normal(engine.rocket_chamber_pressure_pa * engine.rocket_throat_area_m2)
            &&& normal(engine.rocket_chamber_pressure_pa * engine.rocket_throat_area_m2 / engine.rocket_c_star_mps)
        }),
    ensures
        ({
            let engine = spec.assemble(math, air, exit_mach);
            &&& about(
                times(value(engine.rocket_flow_kg_s), value(engine.rocket_c_star_mps)),
                times(value(engine.rocket_chamber_pressure_pa), value(engine.rocket_throat_area_m2)),
                2,
            )
            &&& engine.rocket_isp_sl_s == engine.rocket_thrust_sl_n / (engine.rocket_flow_kg_s
                * standard_gravity_mps2())
            &&& engine.rocket_isp_vac_s == engine.rocket_thrust_vac_n / (engine.rocket_flow_kg_s
                * standard_gravity_mps2())
            &&& engine.rocket_expansion_ratio == engine.air.exit_area_core_m2 / engine.rocket_throat_area_m2
            &&& engine.air == air
            &&& engine.dry_mass_kg == air.dry_mass_kg + engine.rocket_extra_mass_kg + (match spec.precooler {
                Some(precooler) => precooler.wall_mass_kg,
                None => zero(),
            }) + (match engine.ejector {
                Some(ejector) => ejector.dry_mass_kg,
                None => zero(),
            })
        }),
{
    let engine = spec.assemble(math, air, exit_mach);
    lemma_discharged(engine.rocket_chamber_pressure_pa, engine.rocket_throat_area_m2, engine.rocket_c_star_mps);
}

/// Pumping costs the flow's lift: an electric pump's power, at the density of the propellant
/// and the pump's efficiency, lifts the flow from tank to chamber pressure, to within three
/// roundings; other cycles ask for none.
pub proof fn lemma_pump_power(spec: &LiquidEngineSpec, thermo: &PropellantThermo, flow_kg_s: F64)
    requires
        spec.cycle is ElectricPump ==> {
            let (lift, thick) = (
                (spec.chamber_pressure_pa - tank_pressure_pa()).max(zero()),
                thermo.bulk_density_kg_m3 * pump_efficiency(),
            );
            &&& normal(flow_kg_s) && normal(lift) && normal(flow_kg_s * lift)
            &&& normal(thermo.bulk_density_kg_m3) && normal(pump_efficiency()) && normal(thick)
            &&& normal(flow_kg_s * lift / thick)
        },
    ensures
        ({
            let power = spec.pump_power_w(thermo, flow_kg_s);
            let lift = (spec.chamber_pressure_pa - tank_pressure_pa()).max(zero());
            &&& spec.cycle is ElectricPump ==> about(
                times(value(power), times(value(thermo.bulk_density_kg_m3), value(pump_efficiency()))),
                times(value(flow_kg_s), value(lift)),
                3,
            )
            &&& !(spec.cycle is ElectricPump) ==> power == zero()
        }),
{
    if spec.cycle is ElectricPump {
        let lift = (spec.chamber_pressure_pa - tank_pressure_pa()).max(zero());
        let (dense, eff) = (thermo.bulk_density_kg_m3, pump_efficiency());
        lemma_normal(flow_kg_s);
        lemma_normal(lift);
        lemma_normal(flow_kg_s * lift);
        lemma_normal(dense);
        lemma_normal(eff);
        lemma_normal(dense * eff);
        lemma_about_itself(flow_kg_s);
        lemma_about_itself(lift);
        lemma_about_itself(dense);
        lemma_about_itself(eff);
        let (top, bottom) = (times(value(flow_kg_s), value(lift)), times(value(dense), value(eff)));
        lemma_about_times(flow_kg_s, lift, value(flow_kg_s), value(lift), 0, 0);
        lemma_about_times(dense, eff, value(dense), value(eff), 0, 0);
        lemma_times_positive(value(dense), value(eff));
        lemma_about_over(flow_kg_s * lift, dense * eff, top, bottom, 1, 1);
        lemma_about_same(bottom);
        lemma_about_product(value(flow_kg_s * lift / (dense * eff)), over(top, bottom), bottom, bottom, 3, 0);
        lemma_over(top, bottom);
    }
}

/// A gas generator's duct passes its share of the flow: its exit area, at the generator's
/// pressure, is the duct's expansion of what drives that flow at the duct's characteristic
/// velocity, to within three roundings; and its specific impulse is the mean of its two
/// thrusts of a unit of weight flow.
pub proof fn lemma_duct<M: Numerics>(
    spec: &LiquidEngineSpec,
    math: &M,
    thermo: &PropellantThermo,
    duct_exit: &NozzleExitState,
)
    requires
        ({
            let (flow, c) = (
                spec.bypass_flow_kg_s(math, thermo),
                characteristic_velocity(math, &spec.duct_thermo(thermo)),
            );
            let pressure = gg_pressure_fraction() * spec.chamber_pressure_pa;
            &&& normal(flow) && normal(c) && normal(pressure) && normal(flow * c) && normal(flow * c / pressure)
            &&& normal(gg_duct_expansion_ratio()) && normal(flow * c / pressure * gg_duct_expansion_ratio())
        }),
    ensures
        ({
            let duct = spec.duct_design(math, thermo, duct_exit);
            let (flow, c) = (
                spec.bypass_flow_kg_s(math, thermo),
                characteristic_velocity(math, &spec.duct_thermo(thermo)),
            );
            let pressure = gg_pressure_fraction() * spec.chamber_pressure_pa;
            &&& about(
                times(value(duct.exit_area_m2), value(pressure)),
                times(times(value(flow), value(c)), value(gg_duct_expansion_ratio())),
                3,
            )
            &&& duct.isp_s == (duct.thrust_sl_n + duct.thrust_vac_n) * dec(5, 1) / (flow * standard_gravity_mps2())
        }),
{
    let (flow, c) = (
        spec.bypass_flow_kg_s(math, thermo),
        characteristic_velocity(math, &spec.duct_thermo(thermo)),
    );
    let (pressure, ratio) = (gg_pressure_fraction() * spec.chamber_pressure_pa, gg_duct_expansion_ratio());
    let throat = flow * c / pressure;
    lemma_normal(throat);
    lemma_normal(ratio);
    lemma_normal(pressure);
    lemma_discharged(flow, c, pressure);
    lemma_about_itself(throat);
    lemma_about_itself(ratio);
    let (t, r, p) = (value(throat), value(ratio), value(pressure));
    lemma_about_times(throat, ratio, t, r, 0, 0);
    lemma_about_same(p);
    lemma_about_product(value(throat * ratio), times(t, r), p, p, 1, 0);
    lemma_times_associates(t, r, p);
    lemma_times_commutes(r, p);
    lemma_times_associates(t, p, r);
    lemma_about_same(r);
    let drive = times(value(flow), value(c));
    lemma_about_product(times(t, p), drive, r, r, 2, 0);
    lemma_about_chain(times(value(throat * ratio), p), times(times(t, p), r), times(drive, r), 1, 2);
}

} // verus!
