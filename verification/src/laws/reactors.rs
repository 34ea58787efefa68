//! Nuclear and fusion engines: reactor bookkeeping and limits.
use crate::error::Fault;
use crate::float::accuracy::{
    about, lemma_about_chain, lemma_about_product, lemma_about_same, lemma_about_turned, lemma_carried, lemma_normal,
    lemma_over, lemma_product_about, lemma_quotient_about, lemma_times_associates, normal, over, times, value,
};
use crate::float::{all_finite_in, big, given_or, lemma_one, whole, zero, F64};
use crate::float::decimals::lemma_decimal_between;
use crate::float::nearness::lemma_parts;
use crate::float::order::{lemma_mul_not_negative, lemma_product};
use crate::fusion::{CompiledFusionTorch, FusionTorchCommand, FusionTorchOperatingPoint};
use crate::liquid::CompiledLiquid;
use crate::nuclear::{
    ntr_default_startup_tau_s, ntr_inlet_temp_k, ntr_max_chamber_pressure_pa, NtrSupplement, NuclearThermalSpec,
};
use crate::numerics::Numerics;
use vstd::arithmetic::power::pow;
use vstd::prelude::*;

verus! {

/// A nuclear engine spools with its reactor's startup lag, runs on its reactor's power
/// balance, and never above the pressure that its expander can feed.
pub proof fn lemma_nuclear_compiled<M: Numerics>(
    spec: &NuclearThermalSpec,
    math: &M,
    engine: CompiledLiquid,
    reactor: NtrSupplement,
)
    requires
        spec.compiled(math) == Ok::<(CompiledLiquid, NtrSupplement), Fault>((engine, reactor)),
    ensures
        engine.spool_tau_s == reactor.startup_tau_s,
        reactor.startup_tau_s == given_or(spec.startup_tau_s, ntr_default_startup_tau_s()),
        engine.full_flow_kg_s == spec.mass_flow_kg_s(),
        engine.chamber_temp_k == spec.core_temp_k,
        engine.propellant == spec.fluid.tank_propellant(),
        !(engine.chamber_pressure_pa > ntr_max_chamber_pressure_pa()),
{
}

/// The heat capacity of a working fluid.
pub open spec fn fluid_cp(spec: &NuclearThermalSpec) -> F64 {
    let (gamma, gas_r, _) = spec.fluid.properties();
    gamma * gas_r / (gamma - whole(1))
}

/// A reactor's power balance, no term of which is lost to underflow or overflow.
pub open spec fn balance_kept(spec: &NuclearThermalSpec) -> bool {
    let (cp, rise) = (fluid_cp(spec), spec.core_temp_k - ntr_inlet_temp_k());
    let flow = spec.mass_flow_kg_s();
    &&& normal(spec.core_power_mw * big(1, 6))
    &&& normal(cp) && normal(rise) && normal(cp * rise)
    &&& normal(flow) && normal(flow * cp) && normal(flow * cp * rise)
}

/// All of a reactor's power heats the flow of its engine from inlet to core temperature,
/// to within four roundings.
pub proof fn lemma_power_balance<M: Numerics>(
    spec: &NuclearThermalSpec,
    math: &M,
    engine: CompiledLiquid,
    reactor: NtrSupplement,
)
    requires
        spec.compiled(math) == Ok::<(CompiledLiquid, NtrSupplement), Fault>((engine, reactor)),
        balance_kept(spec),
    ensures
        about(
            value(engine.full_flow_kg_s * fluid_cp(spec) * (spec.core_temp_k - ntr_inlet_temp_k())),
            value(spec.core_power_mw * big(1, 6)),
            4,
        ),
{
    let power = spec.core_power_mw * big(1, 6);
    let (cp, rise, flow) = (fluid_cp(spec), spec.core_temp_k - ntr_inlet_temp_k(), spec.mass_flow_kg_s());
    let (p, c, r, x) = (value(power), value(cp), value(rise), value(cp * rise));
    lemma_normal(power);
    lemma_normal(cp);
    lemma_normal(rise);
    lemma_normal(cp * rise);
    lemma_normal(flow);
    lemma_normal(flow * cp);
    lemma_quotient_about(power, cp * rise);
    let share = over(p, x);
    lemma_carried(flow, cp, share, 1);
    lemma_carried(flow * cp, rise, times(share, c), 2);
    lemma_times_associates(share, c, r);
    lemma_product_about(cp, rise);
    lemma_about_turned(x, times(c, r), 1);
    lemma_over(p, x);
    lemma_about_same(share);
    lemma_about_product(share, share, times(c, r), x, 0, 1);
    lemma_about_chain(value(flow * cp * rise), times(share, times(c, r)), p, 3, 1);
}

/// The cooldown tail of a compiled reactor is never negative.
pub proof fn lemma_cooldown<M: Numerics>(
    spec: &NuclearThermalSpec,
    math: &M,
    engine: CompiledLiquid,
    reactor: NtrSupplement,
    burn_impulse_ns: F64,
)
    requires
        spec.compiled(math) == Ok::<(CompiledLiquid, NtrSupplement), Fault>((engine, reactor)),
    ensures
        zero() <= reactor.cooldown_impulse_ns(burn_impulse_ns),
{
    lemma_one();
    reveal_with_fuel(pow, 3);
    lemma_decimal_between(4, 2, 0, 1);
    lemma_parts(burn_impulse_ns);
    lemma_parts(reactor.cooldown_fraction);
    if burn_impulse_ns.is_finite() {
        lemma_product(reactor.cooldown_fraction, burn_impulse_ns);
        if !(burn_impulse_ns < zero()) {
            lemma_mul_not_negative(reactor.cooldown_fraction, burn_impulse_ns);
        }
    }
}

/// A torch feeds no more working fluid than is requested or rated, burns no more than
/// its rating or its radiator allow, and reports finite numbers only.
pub proof fn lemma_torch_limits(
    engine: &CompiledFusionTorch,
    command: FusionTorchCommand,
    point: FusionTorchOperatingPoint,
)
    requires
        engine.point(command) == Ok::<FusionTorchOperatingPoint, Fault>(point),
    ensures
        point.working_flow_kg_s <= command.requested_working_flow_kg_s,
        !engine.maximum_working_flow_kg_s.is_nan() ==> point.working_flow_kg_s <= engine.maximum_working_flow_kg_s,
        !engine.maximum_fusion_power_w.is_nan() ==> point.fusion_power_w <= engine.maximum_fusion_power_w,
        point.radiator_capacity_w == engine.radiator_heat_rejection_w,
        all_finite_in(point.numbers()),
{
    lemma_one();
    lemma_parts(command.requested_working_flow_kg_s);
    lemma_parts(command.available_driver_power_w);
    let numbers = point.numbers();
    assert(numbers[3].is_finite());
    lemma_parts(point.fusion_power_w);
}

} // verus!
