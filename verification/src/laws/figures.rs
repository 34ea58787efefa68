//! The figures that a rocket engine reports agree with each other.
use crate::constants::{
    chamber_length_diameter, injector_drop_fraction, pressure_safety_factor, separation_pressure_ratio,
    standard_gravity_mps2,
};
use crate::engine::CompiledEngine;
use crate::error::Fault;
use crate::float::accuracy::{
    about, amount, kept, lemma_about_chain, lemma_about_product, lemma_about_same, lemma_about_turned, lemma_amount,
    lemma_kept_product, lemma_normal, lemma_over, lemma_times_adds, lemma_times_associates, lemma_times_commutes,
    lemma_times_one, lemma_times_positive, normal, over, times, value,
};
use crate::float::{dec, lemma_one, pi, whole, zero, F64};
use crate::float::decimals::{lemma_small, lemma_whole};
use crate::float::errors::{allowance, lemma_times_difference, size};
use crate::float::nearness::lemma_parts;
use crate::float::range::lemma_sized;
use crate::float::tracking::{
    lemma_about_itself, lemma_about_over, lemma_about_plus, lemma_about_root, lemma_about_times, lemma_half_value,
    lemma_tracks_exact_product, lemma_tracks_itself, lemma_tracks_product, lemma_tracks_quotient, lemma_tracks_sum,
    lemma_whole_value, unlost,
};
use crate::laws::expansion::lemma_size_product;
use crate::laws::stream::lemma_square_product;
use crate::liquid::{CompiledLiquid, DuctDesign, LiquidEngineSpec};
use crate::nozzle::{thrust_coefficient, NozzleExitState};
use crate::nuclear::{NtrSupplement, NuclearThermalSpec};
use crate::numerics::{exp, powf, Numerics};
use crate::propellant::{FluidThermo, PropellantThermo};
use crate::rcs::{deliver_pulse, CompiledColdGas};
use crate::solid::{between, impulse_over, propellant_over, BurnPoint, CompiledSolid, FrozenNozzle, SolidMotorSpec};
use crate::spool::approach;
use vstd::arithmetic::power2::{lemma2_to64, lemma_pow2_adds};
use vstd::prelude::*;

verus! {

/// Two products, or a product and a quotient, that agree: `flow * speed` and `pressure *
/// area`, where the flow is calculated from the others.
pub proof fn lemma_discharged(pressure: F64, area: F64, speed: F64)
    requires
        normal(pressure),
        normal(area),
        normal(speed),
        normal(pressure * area),
        normal(pressure * area / speed),
    ensures
        about(
            times(value(pressure * area / speed), value(speed)),
            times(value(pressure), value(area)),
            2,
        ),
{
    lemma_normal(pressure);
    lemma_normal(area);
    lemma_normal(speed);
    lemma_normal(pressure * area);
    lemma_about_itself(pressure);
    lemma_about_itself(area);
    lemma_about_itself(speed);
    let (p, v) = (times(value(pressure), value(area)), value(speed));
    lemma_about_times(pressure, area, value(pressure), value(area), 0, 0);
    lemma_about_over(pressure * area, speed, p, v, 1, 0);
    lemma_about_product(value(pressure * area / speed), over(p, v), v, v, 2, 0);
    lemma_over(p, v);
}

/// The thrust of a chamber, no term of which is lost to underflow or overflow.
pub open spec fn chamber_kept(cf: F64, pressure: F64, share: F64, area: F64, efficiency: F64, extra: F64) -> bool {
    let force = cf * (pressure * share) * area;
    &&& cf.is_finite() && pressure.is_finite() && share.is_finite() && area.is_finite() && efficiency.is_finite()
    &&& extra.is_finite() && unlost(pressure, share) && unlost(cf, pressure * share)
    &&& unlost(cf * (pressure * share), area) && unlost(force, efficiency) && (force * efficiency + extra).is_finite()
}

/// What a throttled liquid engine gives. Its flow is the throttle's share of the full flow,
/// and its specific impulse the thrust of a unit of weight flow. Without a plug, its thrust
/// is the thrust coefficient at the throttled pressure, times that pressure on the throat,
/// at the kinetic efficiency, and the gas generator's exhaust besides, up to forty-eight
/// roundings of the terms; its exit pressure follows the throttle.
pub proof fn lemma_liquid_figures<M: Numerics>(engine: CompiledLiquid, math: &M, throttle: F64, ambient_pa: F64)
    requires
        CompiledEngine::Liquid(engine).point(math, throttle, ambient_pa, zero()) is Ok,
        !throttle.same(zero()),
    ensures
        ({
            let point = CompiledEngine::Liquid(engine).point(math, throttle, ambient_pa, zero())->Ok_0;
            let cf = thrust_coefficient(
                math,
                &engine.thermo_ref(),
                engine.chamber_pressure_pa * throttle,
                &engine.exit_ref(),
                engine.expansion_ratio,
                ambient_pa,
                engine.divergence_factor,
            );
            let extra = engine.gg_thrust_at(throttle, ambient_pa);
            let force = times(
                times(
                    times(value(cf), times(value(engine.chamber_pressure_pa), value(throttle))),
                    value(engine.throat_area_m2),
                ),
                value(engine.kinetic_efficiency),
            );
            &&& point.mass_flow_kg_s == engine.full_flow_kg_s * throttle
            &&& point.isp_s == point.thrust_n / (point.mass_flow_kg_s * standard_gravity_mps2())
            &&& !(engine.contour is Aerospike) ==> {
                &&& point.exit_pressure_pa == engine.exit_pressure_pa * throttle
                &&& point.separation_risk == (point.exit_pressure_pa < separation_pressure_ratio() * ambient_pa)
                &&& chamber_kept(
                    cf,
                    engine.chamber_pressure_pa,
                    throttle,
                    engine.throat_area_m2,
                    engine.kinetic_efficiency,
                    extra,
                ) ==> size(value(point.thrust_n) - (force + value(extra))) <= times(
                    size(force) + size(value(extra)),
                    allowance(48),
                )
            }
        }),
{
    let cf = thrust_coefficient(
        math,
        &engine.thermo_ref(),
        engine.chamber_pressure_pa * throttle,
        &engine.exit_ref(),
        engine.expansion_ratio,
        ambient_pa,
        engine.divergence_factor,
    );
    let extra = engine.gg_thrust_at(throttle, ambient_pa);
    let (p, area, eff) = (engine.chamber_pressure_pa, engine.throat_area_m2, engine.kinetic_efficiency);
    if chamber_kept(cf, p, throttle, area, eff, extra) {
        let chamber = p * throttle;
        let (pt, c, a, e) = (times(value(p), value(throttle)), value(cf), value(area), value(eff));
        lemma_tracks_exact_product(p, throttle);
        lemma_tracks_itself(cf);
        lemma_tracks_itself(area);
        lemma_tracks_itself(eff);
        lemma_tracks_itself(extra);
        lemma_tracks_product(cf, chamber, c, pt, size(c), size(pt), 0, 4);
        lemma_size_product(c, pt);
        lemma_tracks_product(cf * chamber, area, times(c, pt), a, size(times(c, pt)), size(a), 8, 0);
        lemma_size_product(times(c, pt), a);
        let push = times(times(c, pt), a);
        lemma_tracks_product(cf * chamber * area, eff, push, e, size(push), size(e), 20, 0);
        lemma_size_product(push, e);
        lemma_tracks_sum(
            cf * chamber * area * eff,
            extra,
            times(push, e),
            value(extra),
            size(times(push, e)),
            size(value(extra)),
            44,
            0,
        );
    }
}

/// A gas generator's exhaust follows the throttle and loses the ambient pressure on its own
/// exit, and never pulls back: above nothing, its thrust is its vacuum thrust's share less
/// ambient pressure on its exit area, up to eight roundings of the terms.
pub proof fn lemma_generator_exhaust(engine: &CompiledLiquid, throttle: F64, ambient_pa: F64)
    requires
        engine.gg_thrust_vac_n.is_finite(),
        throttle.is_finite(),
        ambient_pa.is_finite(),
        engine.gg_exit_area_m2.is_finite(),
        unlost(engine.gg_thrust_vac_n, throttle),
        unlost(ambient_pa, engine.gg_exit_area_m2),
        (engine.gg_thrust_vac_n * throttle - ambient_pa * engine.gg_exit_area_m2).is_finite(),
    ensures
        ({
            let exhaust = engine.gg_thrust_at(throttle, ambient_pa);
            let (push, drag) = (
                times(value(engine.gg_thrust_vac_n), value(throttle)),
                times(value(ambient_pa), value(engine.gg_exit_area_m2)),
            );
            &&& !(exhaust < zero())
            &&& engine.gg_bypass_fraction <= zero() ==> exhaust == zero()
            &&& zero() < exhaust ==> size(value(exhaust) - (push - drag)) <= times(
                size(push) + size(drag),
                allowance(8),
            )
        }),
{
    let (vac, area) = (engine.gg_thrust_vac_n, engine.gg_exit_area_m2);
    let (push, drag) = (times(value(vac), value(throttle)), times(value(ambient_pa), value(area)));
    lemma_one();
    lemma_parts(zero());
    lemma_parts(vac * throttle - ambient_pa * area);
    lemma_tracks_exact_product(vac, throttle);
    lemma_tracks_exact_product(ambient_pa, area);
    lemma_tracks_sum(vac * throttle, ambient_pa * area, push, drag, size(push), size(drag), 4, 4);
}

/// A chamber's throat and flow, no term of which is lost to underflow or overflow.
pub open spec fn throat_kept(radius: F64, pressure: F64, speed: F64, ratio: F64) -> bool {
    let area = pi() * radius * radius;
    &&& normal(pi()) && normal(radius) && normal(pi() * radius) && normal(area) && normal(pressure) && normal(speed)
    &&& normal(pressure * area) && normal(pressure * area / speed)
    &&& normal(ratio) && normal(ratio.sqrt()) && normal(radius * ratio.sqrt())
}

/// The throat area of a radius, and the exit radius of an expansion.
proof fn lemma_throat(radius: F64, ratio: F64)
    requires
        normal(pi()) && normal(radius) && normal(pi() * radius) && normal(pi() * radius * radius),
        normal(ratio) && normal(ratio.sqrt()) && normal(radius * ratio.sqrt()),
    ensures
        about(value(pi() * radius * radius), times(times(value(pi()), value(radius)), value(radius)), 2),
        ({
            let exit = value(radius * ratio.sqrt());
            about(times(exit, exit), times(times(value(radius), value(radius)), value(ratio)), 4)
        }),
{
    let (r, e, root) = (value(radius), value(ratio), ratio.sqrt());
    lemma_normal(pi());
    lemma_normal(radius);
    lemma_normal(pi() * radius);
    lemma_normal(ratio);
    lemma_normal(root);
    lemma_about_itself(pi());
    lemma_about_itself(radius);
    lemma_about_itself(ratio);
    lemma_about_itself(root);
    lemma_about_times(pi(), radius, value(pi()), r, 0, 0);
    lemma_about_times(pi() * radius, radius, times(value(pi()), r), r, 1, 0);
    lemma_about_root(ratio, e, 0);
    lemma_about_times(radius, root, r, value(root), 0, 0);
    let exit = value(radius * root);
    lemma_about_product(exit, times(r, value(root)), exit, times(r, value(root)), 1, 1);
    lemma_square_product(r, value(root));
    lemma_times_positive(r, r);
    lemma_about_same(times(r, r));
    lemma_about_product(times(r, r), times(r, r), times(value(root), value(root)), e, 0, 2);
    lemma_about_chain(
        times(exit, exit),
        times(times(r, r), times(value(root), value(root))),
        times(times(r, r), e),
        2,
        2,
    );
}

/// The flow of a generator, no term of which is lost to underflow or overflow.
pub open spec fn generator_kept(chamber: F64, share: F64) -> bool {
    amount(share) && kept(share, chamber) && normal(chamber + share * chamber)
}

/// What a compiled liquid engine reports agrees. Its throat and exit are those of its radius
/// and expansion ratio. The pressure on the throat drives the chamber flow at the
/// characteristic velocity; the full flow is that and the generator's share besides, to
/// within four roundings. Specific impulses count all of it; and the thrusts count the
/// generator's exhaust.
pub proof fn lemma_liquid_design<M: Numerics>(
    spec: &LiquidEngineSpec,
    math: &M,
    fluids: &FluidThermo,
    engine: CompiledLiquid,
)
    requires
        spec.compiled(math, fluids) == Ok::<CompiledLiquid, Fault>(engine),
        throat_kept(spec.throat_radius_m, spec.chamber_pressure_pa, engine.c_star_mps, spec.expansion_ratio),
        generator_kept(
            spec.chamber_pressure_pa * (pi() * spec.throat_radius_m * spec.throat_radius_m) / engine.c_star_mps,
            engine.gg_bypass_fraction,
        ),
    ensures
        ({
            let (r, e, p) = (
                value(spec.throat_radius_m),
                value(spec.expansion_ratio),
                value(engine.chamber_pressure_pa),
            );
            let (area, exit) = (value(engine.throat_area_m2), value(engine.exit_radius_m));
            &&& about(area, times(times(value(pi()), r), r), 2)
            &&& about(times(exit, exit), times(times(r, r), e), 4)
            &&& engine.exit_area_m2 == engine.throat_area_m2 * engine.expansion_ratio
            &&& about(
                times(value(engine.full_flow_kg_s), value(engine.c_star_mps)),
                times(times(p, area), (1 as real) + value(engine.gg_bypass_fraction)),
                4,
            )
            &&& engine.isp_sl_s == engine.thrust_sl_n / (engine.full_flow_kg_s * standard_gravity_mps2())
            &&& engine.isp_vac_s == engine.thrust_vac_n / (engine.full_flow_kg_s * standard_gravity_mps2())
            &&& engine.feed_pressure_required_pa == engine.chamber_pressure_pa * (whole(1) + injector_drop_fraction())
            &&& engine.chamber_pressure_pa == spec.chamber_pressure_pa
            &&& engine.kinetic_efficiency == whole(1)
        }),
{
    let thermo = spec.propellant.mixed_thermo(fluids, spec.mixture_ratio);
    let area = pi() * spec.throat_radius_m * spec.throat_radius_m;
    let (p, c, share) = (spec.chamber_pressure_pa, engine.c_star_mps, engine.gg_bypass_fraction);
    let chamber = p * area / c;
    assert(chamber == spec.chamber_flow_kg_s(math, &thermo));
    assert(engine.full_flow_kg_s == chamber + share * chamber);
    lemma_throat(spec.throat_radius_m, spec.expansion_ratio);
    lemma_discharged(p, area, c);
    lemma_normal(chamber);
    lemma_normal(c);
    lemma_amount(share);
    lemma_kept_product(share, chamber);
    lemma_about_itself(chamber);
    let (q, x, v) = (value(chamber), value(share), value(c));
    lemma_about_plus(chamber, share * chamber, q, times(x, q), 0, 1);
    // q + x q == (1 + x) q
    lemma_times_adds(1 as real, x, q);
    lemma_times_one(q);
    lemma_about_same(v);
    lemma_about_product(value(engine.full_flow_kg_s), times((1 as real) + x, q), v, v, 2, 0);
    lemma_times_associates((1 as real) + x, q, v);
    lemma_about_same((1 as real) + x);
    let force = times(value(p), value(area));
    lemma_about_product((1 as real) + x, (1 as real) + x, times(q, v), force, 0, 2);
    lemma_times_commutes((1 as real) + x, force);
    lemma_about_chain(
        times(value(engine.full_flow_kg_s), v),
        times((1 as real) + x, times(q, v)),
        times(force, (1 as real) + x),
        2,
        2,
    );
}

/// What a compiled nuclear engine reports agrees: the flow that its reactor can heat, at the
/// characteristic velocity, presses on the throat with the chamber pressure, to within two
/// roundings, and specific impulses are thrusts of a unit of weight flow.
pub proof fn lemma_nuclear_design<M: Numerics>(
    spec: &NuclearThermalSpec,
    math: &M,
    engine: CompiledLiquid,
    reactor: NtrSupplement,
)
    requires
        spec.compiled(math) == Ok::<(CompiledLiquid, NtrSupplement), Fault>((engine, reactor)),
        normal(engine.full_flow_kg_s),
        normal(engine.c_star_mps),
        normal(engine.full_flow_kg_s * engine.c_star_mps),
        normal(engine.throat_area_m2),
        normal(engine.full_flow_kg_s * engine.c_star_mps / engine.throat_area_m2),
    ensures
        about(
            times(value(engine.chamber_pressure_pa), value(engine.throat_area_m2)),
            times(value(engine.full_flow_kg_s), value(engine.c_star_mps)),
            2,
        ),
        engine.isp_sl_s == engine.thrust_sl_n / (engine.full_flow_kg_s * standard_gravity_mps2()),
        engine.isp_vac_s == engine.thrust_vac_n / (engine.full_flow_kg_s * standard_gravity_mps2()),
        engine.exit_area_m2 == engine.throat_area_m2 * engine.expansion_ratio,
        engine.chamber_temp_k == spec.core_temp_k && reactor.core_temp_k == spec.core_temp_k,
        reactor.core_power_mw == spec.core_power_mw,
        engine.gg_bypass_fraction == zero(),
{
    lemma_discharged(engine.full_flow_kg_s, engine.c_star_mps, engine.throat_area_m2);
}

/// A cold-gas thruster's figures agree: the inlet pressure on the throat drives the flow at
/// the characteristic velocity, to within two roundings; its specific impulse is the thrust
/// of a unit of weight flow; and its exit pressure is the nozzle's share of the inlet's.
pub proof fn lemma_cold_gas_figures<M: Numerics>(
    thruster: &CompiledColdGas,
    math: &M,
    exit: &NozzleExitState,
    inlet_pa: F64,
    ambient_pa: F64,
)
    requires
        normal(inlet_pa),
        normal(thruster.throat_area_m2),
        normal(thruster.c_star_mps),
        normal(inlet_pa * thruster.throat_area_m2),
        normal(inlet_pa * thruster.throat_area_m2 / thruster.c_star_mps),
    ensures
        ({
            let point = thruster.flowing_point(math, exit, inlet_pa, ambient_pa);
            &&& about(
                times(value(point.mass_flow_kg_s), value(thruster.c_star_mps)),
                times(value(inlet_pa), value(thruster.throat_area_m2)),
                2,
            )
            &&& point.isp_s == point.thrust_n / (point.mass_flow_kg_s * standard_gravity_mps2())
            &&& point.exit_pressure_pa == exit.exit_pressure_ratio * inlet_pa
            &&& point.thrust_n == thrust_coefficient(
                math,
                &thruster.thermo_ref(),
                inlet_pa,
                exit,
                thruster.expansion_ratio,
                ambient_pa,
                thruster.divergence_factor,
            ) * inlet_pa * thruster.throat_area_m2
        }),
{
    lemma_discharged(inlet_pa, thruster.throat_area_m2, thruster.c_star_mps);
}

/// A pulse delivers the area under its thrust: a rise in proportion to time up to the valve's
/// rise time and steady thrust from there on. Past the rise this is steady thrust for half
/// the rise time less than the open time, up to twelve roundings of the terms. The pulse
/// books its flow for all of the open time, and its specific impulse is the impulse of a
/// unit of weight.
pub proof fn lemma_long_pulse(thrust_n: F64, mass_flow_kg_s: F64, on_time_s: F64, rise_s: F64)
    requires
        thrust_n.is_finite(),
        normal(on_time_s),
        normal(rise_s),
        rise_s < on_time_s,
        normal(rise_s / whole(2)),
        unlost(thrust_n, on_time_s - rise_s / whole(2)),
        (on_time_s - rise_s / whole(2)).is_finite(),
    ensures
        ({
            let pulse = deliver_pulse(thrust_n, mass_flow_kg_s, on_time_s, rise_s);
            let (f, t, h) = (value(thrust_n), value(on_time_s), over(value(rise_s), 2 as real));
            &&& size(value(pulse.impulse_ns) - times(f, t - h)) <= times(times(size(f), t + h), allowance(12))
            &&& pulse.propellant_kg == mass_flow_kg_s * on_time_s
            &&& zero() < pulse.propellant_kg ==> pulse.effective_isp_s == pulse.impulse_ns / (pulse.propellant_kg
                * standard_gravity_mps2())
        }),
{
    let half = rise_s / whole(2);
    let (f, t, r) = (value(thrust_n), value(on_time_s), value(rise_s));
    lemma_one();
    lemma_normal(on_time_s);
    lemma_normal(rise_s);
    lemma_parts(on_time_s);
    lemma_parts(rise_s);
    lemma_two();
    lemma_whole_value(2);
    lemma_normal(half);
    lemma_tracks_itself(thrust_n);
    lemma_tracks_itself(on_time_s);
    lemma_tracks_itself(rise_s);
    let h = over(r, 2 as real);
    lemma_over(r, 2 as real);
    lemma_tracks_quotient(rise_s, whole(2), r, 2 as real, size(r), 0, 0);
    lemma_tracks_sum(on_time_s, half, t, h, size(t), h, 0, 4);
    lemma_tracks_product(thrust_n, on_time_s - half, f, t - h, size(f), t + h, 0, 8);
}

/// Two is an ordinary number.
proof fn lemma_two()
    ensures
        normal(whole(2)),
{
    lemma_whole_value(2);
    lemma_whole(2);
    lemma2_to64();
    lemma_pow2_adds(1074, 1);
    lemma_sized(whole(2), 1, 1);
}

/// A burning station, no term of which is lost to underflow or overflow: `power` is the
/// host's power of the chamber pressure.
pub open spec fn station_kept(
    spec: &SolidMotorSpec,
    nozzle: &FrozenNozzle,
    area_m2: F64,
    chamber_pa: F64,
    power: F64,
) -> bool {
    let (a, d, c, throat) = (
        spec.burn_rate_coeff,
        nozzle.thermo.bulk_density_kg_m3,
        nozzle.c_star_mps,
        nozzle.throat_area_m2,
    );
    &&& normal(area_m2) && normal(a) && normal(d) && normal(c) && normal(throat) && normal(power) && normal(chamber_pa)
    &&& normal(area_m2 * a) && normal(area_m2 * a * d) && normal(area_m2 * a * d * c)
    &&& normal(area_m2 * a * d * c / throat) && normal(a * power) && normal(d * area_m2) && normal(d * area_m2 * (a * power))
}

/// A motor burns as much as its throat lets out. Where the host's powers solve the pressure
/// of a burning surface to `k` roundings (the pressure is what the surface makes of it at
/// the burn rate's exponent), the flow of the surface at the characteristic velocity is the
/// chamber pressure on the throat, to within seven roundings and those.
pub proof fn lemma_burning_balance<M: Numerics>(
    spec: &SolidMotorSpec,
    math: &M,
    nozzle: &FrozenNozzle,
    time_s: F64,
    web_m: F64,
    area_m2: F64,
    chamber_pa: F64,
    k: nat,
)
    requires
        ({
            let power = powf(math, chamber_pa, spec.burn_rate_exponent);
            let drive = area_m2 * spec.burn_rate_coeff * nozzle.thermo.bulk_density_kg_m3 * nozzle.c_star_mps
                / nozzle.throat_area_m2;
            &&& station_kept(spec, nozzle, area_m2, chamber_pa, power)
            &&& about(value(chamber_pa), times(value(drive), value(power)), k)
        }),
    ensures
        ({
            let point = spec.lit_station(math, nozzle, time_s, web_m, area_m2, chamber_pa);
            &&& about(
                times(value(point.mass_flow_kg_s), value(nozzle.c_star_mps)),
                times(value(point.chamber_pa), value(nozzle.throat_area_m2)),
                7 + k,
            )
            &&& point.chamber_pa == chamber_pa
            &&& point.thrust_vac_n == thrust_coefficient(
                math,
                &nozzle.thermo,
                chamber_pa,
                &nozzle.exit,
                spec.expansion_ratio,
                zero(),
                nozzle.divergence,
            ) * chamber_pa * nozzle.throat_area_m2
        }),
{
    let power = powf(math, chamber_pa, spec.burn_rate_exponent);
    let (a, d, c, throat) = (
        spec.burn_rate_coeff,
        nozzle.thermo.bulk_density_kg_m3,
        nozzle.c_star_mps,
        nozzle.throat_area_m2,
    );
    let made = area_m2 * a * d * c;
    let drive = made / throat;
    let flow = d * area_m2 * (a * power);
    lemma_normal(area_m2);
    lemma_normal(a);
    lemma_normal(d);
    lemma_normal(c);
    lemma_normal(throat);
    lemma_normal(power);
    lemma_normal(area_m2 * a);
    lemma_normal(area_m2 * a * d);
    lemma_normal(made);
    lemma_normal(a * power);
    lemma_normal(d * area_m2);
    lemma_about_itself(area_m2);
    lemma_about_itself(a);
    lemma_about_itself(d);
    lemma_about_itself(c);
    lemma_about_itself(throat);
    lemma_about_itself(power);
    let (s, x, q, v, t, w) = (value(area_m2), value(a), value(d), value(c), value(throat), value(power));
    lemma_about_times(area_m2, a, s, x, 0, 0);
    lemma_about_times(area_m2 * a, d, times(s, x), q, 1, 0);
    lemma_about_times(area_m2 * a * d, c, times(times(s, x), q), v, 2, 0);
    let ideal = times(times(times(s, x), q), v);
    lemma_about_over(made, throat, ideal, t, 3, 0);
    lemma_over(ideal, t);
    lemma_about_times(a, power, x, w, 0, 0);
    lemma_about_times(d, area_m2, q, s, 0, 0);
    lemma_about_times(d * area_m2, a * power, times(q, s), times(x, w), 1, 1);
    let burnt = times(times(q, s), times(x, w));
    lemma_about_same(v);
    lemma_about_product(value(flow), burnt, v, v, 3, 0);
    // burnt v == (ideal / t) w t
    let r = over(ideal, t);
    lemma_rearranged(s, x, q, v, w, t, r);
    // ~ drive w t
    lemma_about_turned(value(drive), r, 4);
    lemma_about_same(w);
    lemma_about_same(t);
    lemma_about_product(r, value(drive), w, w, 4, 0);
    lemma_about_product(times(r, w), times(value(drive), w), t, t, 4, 0);
    lemma_about_turned(value(chamber_pa), times(value(drive), w), k);
    lemma_about_product(times(value(drive), w), value(chamber_pa), t, t, k, 0);
    lemma_about_chain(
        times(times(r, w), t),
        times(times(value(drive), w), t),
        times(value(chamber_pa), t),
        4,
        k,
    );
    lemma_about_chain(times(value(flow), v), times(burnt, v), times(value(chamber_pa), t), 3, 4 + k);
}

/// The same factors in another order.
proof fn lemma_rearranged(s: real, x: real, q: real, v: real, w: real, t: real, r: real)
    requires
        times(r, t) == times(times(times(s, x), q), v),
    ensures
        times(times(times(q, s), times(x, w)), v) == times(times(r, w), t),
{
    // right == (r t) w
    lemma_times_associates(r, w, t);
    lemma_times_commutes(w, t);
    lemma_times_associates(r, t, w);
    // left: (q s) (x w) v == ((s x) q) (w v)
    lemma_times_commutes(q, s);
    lemma_times_associates(s, q, times(x, w));
    lemma_times_associates(q, x, w);
    lemma_times_commutes(q, x);
    lemma_times_associates(x, q, w);
    lemma_times_associates(s, x, times(q, w));
    lemma_times_associates(times(s, x), q, w);
    let sxq = times(times(s, x), q);
    lemma_times_associates(sxq, w, v);
    lemma_times_commutes(w, v);
    lemma_times_associates(sxq, v, w);
}

/// A motor's impulse and propellant are the areas under its vacuum thrust and its flow.
pub proof fn lemma_motor_totals<M: Numerics>(spec: &SolidMotorSpec, math: &M, motor: CompiledSolid)
    requires
        spec.compiles_to(math, Ok::<CompiledSolid, Fault>(motor)),
    ensures
        motor.total_impulse_ns == impulse_over(motor.burn_curve@),
        motor.propellant_mass_kg == propellant_over(motor.burn_curve@),
{
}

/// A trapezoid, no term of which is lost to underflow or overflow.
pub open spec fn trapezoid_kept(before: F64, a: F64, b: F64, early: F64, late: F64) -> bool {
    let mean = dec(5, 1) * (a + b);
    &&& before.is_finite() && a.is_finite() && b.is_finite() && early.is_finite() && late.is_finite()
    &&& (a + b).is_finite() && unlost(dec(5, 1), a + b) && (late - early).is_finite() && unlost(mean, late - early)
    &&& (before + mean * (late - early)).is_finite()
}

/// One trapezoid more, as it is calculated.
proof fn lemma_trapezoid(before: F64, a: F64, b: F64, early: F64, late: F64)
    requires
        trapezoid_kept(before, a, b, early, late),
    ensures
        ({
            let after = before + dec(5, 1) * (a + b) * (late - early);
            let half = value(dec(5, 1));
            let exact = times(times(half, value(a) + value(b)), value(late) - value(early));
            let bound = times(
                times(half, size(value(a)) + size(value(b))),
                size(value(late)) + size(value(early)),
            );
            &&& half + half == (1 as real)
            &&& size((value(after) - value(before)) - exact) <= times(size(value(before)) + bound, allowance(28))
        }),
{
    let mean = dec(5, 1) * (a + b);
    let (half, s, t) = (value(dec(5, 1)), value(a) + value(b), value(late) - value(early));
    let (bs, bt) = (size(value(a)) + size(value(b)), size(value(late)) + size(value(early)));
    lemma_half_value();
    lemma_normal(dec(5, 1));
    lemma_tracks_itself(dec(5, 1));
    lemma_tracks_itself(before);
    lemma_tracks_itself(a);
    lemma_tracks_itself(b);
    lemma_tracks_itself(early);
    lemma_tracks_itself(late);
    lemma_tracks_sum(a, b, value(a), value(b), size(value(a)), size(value(b)), 0, 0);
    lemma_tracks_product(dec(5, 1), a + b, half, s, half, bs, 0, 4);
    lemma_tracks_sum(late, early, value(late), value(early), size(value(late)), size(value(early)), 0, 0);
    lemma_tracks_product(mean, late - early, times(half, s), t, times(half, bs), bt, 8, 4);
    lemma_tracks_sum(
        before,
        mean * (late - early),
        value(before),
        times(times(half, s), t),
        size(value(before)),
        times(times(half, bs), bt),
        0,
        24,
    );
}

/// One station more adds the mean of its thrust and the one before, over the time between
/// them, to the impulse, and likewise of the flows to the propellant, up to twenty-eight
/// roundings of the terms.
pub proof fn lemma_station_adds(stations: Seq<BurnPoint>, next: BurnPoint)
    requires
        stations.len() > 0,
    ensures
        ({
            let (last, half) = (stations.last(), value(dec(5, 1)));
            let span = value(next.time_s) - value(last.time_s);
            let reach = size(value(next.time_s)) + size(value(last.time_s));
            let (impulse, more) = (impulse_over(stations), impulse_over(stations.push(next)));
            let (mass, greater) = (propellant_over(stations), propellant_over(stations.push(next)));
            let (f, g) = (value(last.thrust_vac_n), value(next.thrust_vac_n));
            let (m, n) = (value(last.mass_flow_kg_s), value(next.mass_flow_kg_s));
            &&& trapezoid_kept(impulse, last.thrust_vac_n, next.thrust_vac_n, last.time_s, next.time_s) ==> size(
                (value(more) - value(impulse)) - times(times(half, f + g), span),
            ) <= times(size(value(impulse)) + times(times(half, size(f) + size(g)), reach), allowance(28))
            &&& trapezoid_kept(mass, last.mass_flow_kg_s, next.mass_flow_kg_s, last.time_s, next.time_s) ==> size(
                (value(greater) - value(mass)) - times(times(half, m + n), span),
            ) <= times(size(value(mass)) + times(times(half, size(m) + size(n)), reach), allowance(28))
        }),
{
    let last = stations.last();
    let all = stations.push(next);
    assert(all.drop_last() =~= stations);
    assert(all[all.len() - 2] == last && all[all.len() - 1] == next);
    let (impulse, mass) = (impulse_over(stations), propellant_over(stations));
    if trapezoid_kept(impulse, last.thrust_vac_n, next.thrust_vac_n, last.time_s, next.time_s) {
        lemma_trapezoid(impulse, last.thrust_vac_n, next.thrust_vac_n, last.time_s, next.time_s);
    }
    if trapezoid_kept(mass, last.mass_flow_kg_s, next.mass_flow_kg_s, last.time_s, next.time_s) {
        lemma_trapezoid(mass, last.mass_flow_kg_s, next.mass_flow_kg_s, last.time_s, next.time_s);
    }
}

/// A motor's point agrees with its station: its flow is the station's, its specific impulse
/// the thrust of a unit of weight flow, and without a plug its thrust is the thrust
/// coefficient times the station's pressure on the throat.
pub proof fn lemma_motor_figures<M: Numerics>(motor: &CompiledSolid, math: &M, station: BurnPoint, ambient_pa: F64)
    ensures
        ({
            let point = motor.point_at_station(math, station, ambient_pa);
            let cf = thrust_coefficient(
                math,
                &motor.thermo_ref(),
                station.chamber_pa,
                &motor.exit_state(math),
                motor.expansion_ratio,
                ambient_pa,
                motor.divergence_factor,
            );
            &&& point.mass_flow_kg_s == station.mass_flow_kg_s
            &&& point.isp_s == point.thrust_n / (point.mass_flow_kg_s * standard_gravity_mps2())
            &&& !(motor.contour is Aerospike) ==> point.thrust_n == cf * station.chamber_pa * motor.throat_area_m2
            &&& motor.contour is Aerospike ==> !point.separation_risk && !(point.thrust_n < zero())
        }),
{
    lemma_one();
    lemma_parts(zero());
}

/// One figure between two stations, no term of which is lost to underflow or overflow.
pub open spec fn read_kept(a: F64, b: F64, share: F64) -> bool {
    &&& a.is_finite() && b.is_finite() && share.is_finite() && (b - a).is_finite() && unlost(b - a, share)
    &&& (a + (b - a) * share).is_finite()
}

/// One figure read on the line between two.
pub open spec fn on_line(x: F64, a: F64, b: F64, share: F64) -> bool {
    let exact = value(a) + times(value(b) - value(a), value(share));
    size(value(x) - exact) <= times(
        size(value(a)) + times(size(value(b)) + size(value(a)), size(value(share))),
        allowance(16),
    )
}

proof fn lemma_read(a: F64, b: F64, share: F64)
    requires
        read_kept(a, b, share),
    ensures
        on_line(a + (b - a) * share, a, b, share),
{
    lemma_tracks_itself(a);
    lemma_tracks_itself(b);
    lemma_tracks_itself(share);
    let (x, y, s) = (value(a), value(b), value(share));
    lemma_tracks_sum(b, a, y, x, size(y), size(x), 0, 0);
    lemma_tracks_product(b - a, share, y - x, s, size(y) + size(x), size(s), 4, 0);
    lemma_tracks_sum(
        a,
        (b - a) * share,
        x,
        times(y - x, s),
        size(x),
        times(size(y) + size(x), size(s)),
        0,
        12,
    );
}

/// Between two stations a motor's trace runs straight: at a time whose share of the way from
/// one to the next is `share`, its pressure, flow, thrusts and web lie on the lines between
/// theirs, up to sixteen roundings of the terms.
pub proof fn lemma_trace_between(a: BurnPoint, b: BurnPoint, burn_time_s: F64)
    requires
        ({
            let share = ((burn_time_s - a.time_s) / (b.time_s - a.time_s)).clamp_unit();
            &&& dec(1, 12) <= b.time_s - a.time_s
            &&& read_kept(a.chamber_pa, b.chamber_pa, share) && read_kept(a.mass_flow_kg_s, b.mass_flow_kg_s, share)
            &&& read_kept(a.thrust_sl_n, b.thrust_sl_n, share) && read_kept(a.thrust_vac_n, b.thrust_vac_n, share)
            &&& read_kept(a.web_burned_m, b.web_burned_m, share)
        }),
    ensures
        ({
            let share = ((burn_time_s - a.time_s) / (b.time_s - a.time_s)).clamp_unit();
            let point = between(a, b, burn_time_s);
            &&& on_line(point.chamber_pa, a.chamber_pa, b.chamber_pa, share)
            &&& on_line(point.mass_flow_kg_s, a.mass_flow_kg_s, b.mass_flow_kg_s, share)
            &&& on_line(point.thrust_sl_n, a.thrust_sl_n, b.thrust_sl_n, share)
            &&& on_line(point.thrust_vac_n, a.thrust_vac_n, b.thrust_vac_n, share)
            &&& on_line(point.web_burned_m, a.web_burned_m, b.web_burned_m, share)
            &&& point.time_s == burn_time_s
        }),
{
    let share = ((burn_time_s - a.time_s) / (b.time_s - a.time_s)).clamp_unit();
    lemma_one();
    lemma_parts(b.time_s - a.time_s);
    lemma_parts(dec(1, 12));
    lemma_small();
    assert((b.time_s - a.time_s).max(dec(1, 12)) == b.time_s - a.time_s);
    lemma_read(a.chamber_pa, b.chamber_pa, share);
    lemma_read(a.mass_flow_kg_s, b.mass_flow_kg_s, share);
    lemma_read(a.thrust_sl_n, b.thrust_sl_n, share);
    lemma_read(a.thrust_vac_n, b.thrust_vac_n, share);
    lemma_read(a.web_burned_m, b.web_burned_m, share);
}

/// A lag closes its gap by the host's decay: what is left between a spool and its target after
/// a step is the gap before it times the decay over the step, up to twenty roundings of the
/// terms.
pub proof fn lemma_gap_decays<M: Numerics>(math: &M, current: F64, target: F64, dt_s: F64, tau_s: F64)
    requires
        ({
            let alpha = whole(1) - exp(math, dt_s.negate() / tau_s);
            &&& exp(math, dt_s.negate() / tau_s).is_finite() && alpha.is_finite()
            &&& read_kept(current, target, alpha)
        }),
    ensures
        ({
            let decay = value(exp(math, dt_s.negate() / tau_s));
            let (x, y) = (value(current), value(target));
            let left = y - value(approach(math, current, target, dt_s, tau_s));
            size(left - times(y - x, decay)) <= times(
                size(x) + times(size(y) + size(x), (1 as real) + size(decay)),
                allowance(20),
            )
        }),
{
    let e = exp(math, dt_s.negate() / tau_s);
    let alpha = whole(1) - e;
    let (x, y, d, one) = (value(current), value(target), value(e), 1 as real);
    lemma_whole_value(1);
    lemma_tracks_itself(e);
    lemma_tracks_itself(current);
    lemma_tracks_itself(target);
    lemma_tracks_sum(whole(1), e, one, d, one, size(d), 0, 0);
    lemma_tracks_sum(target, current, y, x, size(y), size(x), 0, 0);
    lemma_tracks_product(target - current, alpha, y - x, one - d, size(y) + size(x), one + size(d), 4, 4);
    let step = times(y - x, one - d);
    let bound = times(size(y) + size(x), one + size(d));
    lemma_tracks_sum(current, (target - current) * alpha, x, step, size(x), bound, 0, 16);
    lemma_times_difference(one, d, y - x);
    lemma_times_commutes(y - x, one - d);
    lemma_times_commutes(y - x, d);
    lemma_times_one(y - x);
}

/// A chamber's wall holds its pressure: its thickness at twice the yield strength is the
/// pressure on its diameter times the safety factor, to within four roundings; and its
/// length is the fixed multiple of its diameter.
pub proof fn lemma_chamber_wall<M: Numerics>(
    spec: &LiquidEngineSpec,
    math: &M,
    thermo: &PropellantThermo,
    exit: &NozzleExitState,
    duct: &DuctDesign,
)
    requires
        ({
            let engine = spec.design(math, thermo, exit, duct);
            let (p, d, y) = (
                spec.chamber_pressure_pa,
                engine.chamber_diameter_m,
                spec.chamber_material.yield_strength_pa,
            );
            &&& normal(p) && normal(d) && normal(y) && normal(pressure_safety_factor()) && normal(p * d)
            &&& normal(whole(2) * y) && normal(p * d / (whole(2) * y))
            &&& normal(p * d / (whole(2) * y) * pressure_safety_factor())
        }),
    ensures
        ({
            let engine = spec.design(math, thermo, exit, duct);
            let (p, d, y) = (
                value(spec.chamber_pressure_pa),
                value(engine.chamber_diameter_m),
                value(spec.chamber_material.yield_strength_pa),
            );
            &&& about(
                times(value(engine.wall_thickness_m), times(2 as real, y)),
                times(times(p, d), value(pressure_safety_factor())),
                4,
            )
            &&& engine.chamber_length_m == chamber_length_diameter() * engine.chamber_diameter_m
        }),
{
    let engine = spec.design(math, thermo, exit, duct);
    let (p, d, y, s) = (
        spec.chamber_pressure_pa,
        engine.chamber_diameter_m,
        spec.chamber_material.yield_strength_pa,
        pressure_safety_factor(),
    );
    lemma_normal(p);
    lemma_normal(d);
    lemma_normal(y);
    lemma_normal(s);
    lemma_normal(p * d);
    lemma_normal(whole(2) * y);
    lemma_normal(p * d / (whole(2) * y));
    lemma_whole_value(2);
    lemma_about_itself(whole(2));
    lemma_about_itself(p);
    lemma_about_itself(d);
    lemma_about_itself(y);
    lemma_about_itself(s);
    let (pd, yy, f) = (times(value(p), value(d)), times(2 as real, value(y)), value(s));
    lemma_about_times(p, d, value(p), value(d), 0, 0);
    lemma_about_times(whole(2), y, 2 as real, value(y), 0, 0);
    lemma_times_positive(2 as real, value(y));
    lemma_about_over(p * d, whole(2) * y, pd, yy, 1, 1);
    lemma_about_times(p * d / (whole(2) * y), s, over(pd, yy), f, 3, 0);
    lemma_about_same(yy);
    lemma_about_product(value(engine.wall_thickness_m), times(over(pd, yy), f), yy, yy, 4, 0);
    lemma_over(pd, yy);
    lemma_times_associates(over(pd, yy), f, yy);
    lemma_times_commutes(f, yy);
    lemma_times_associates(over(pd, yy), yy, f);
}

} // verus!
