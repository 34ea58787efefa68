//! Thrust and flow follow throttle and inlet pressure by any factor, and a short pulse
//! the square of its open time.
use crate::constants::{nozzle_efficiency, standard_gravity_mps2};
use crate::engine::EngineOperatingPoint;
use crate::error::Fault;
use crate::float::accuracy::{
    about, amount, lemma_about_bounds, lemma_about_chain, lemma_about_more, lemma_about_product, lemma_about_quotient,
    lemma_about_same, lemma_about_sum, lemma_about_turned, lemma_amount, lemma_carried, lemma_normal,
    lemma_normal_sum, lemma_over, lemma_product_about, lemma_quotient_about, lemma_slack, lemma_sum_about,
    lemma_times_adds, lemma_times_associates, lemma_times_commutes, lemma_times_one, lemma_times_order,
    lemma_times_positive, lemma_times_unique, lemma_unit_value, lemma_value_order, normal, over, slack, times, value,
};
use crate::float::decimals::{lemma_decimal_between, lemma_positive_decimal, lemma_whole};
use crate::float::exact::{lemma_add_zero, lemma_mul_one, lemma_nothing, lemma_vanishing};
use crate::float::{lemma_one, whole, zero, F64};
use crate::float::nearness::lemma_parts;
use crate::float::order::{lemma_mul_commutes, lemma_negate};
use crate::float::range::{
    lemma_powers, lemma_sized, lemma_sized_more, lemma_sized_product, lemma_sized_quotient, lemma_sized_sum, sized,
};
use crate::liquid::{CompiledLiquid, LiquidEngineSpec};
use crate::nozzle::{exit_for, NozzleContour, NozzleExitState};
use crate::numerics::{powf, Numerics};
use crate::propellant::{FluidThermo, PropellantThermo};
use crate::rcs::{deliver_pulse, CompiledColdGas};
use vstd::arithmetic::power2::{lemma2_to64, lemma_pow2_adds, pow2};
use vstd::arithmetic::power::pow;
use vstd::prelude::*;

verus! {

/// The part of the thrust coefficient that the momentum of the exhaust makes.
pub open spec fn momentum<M: Numerics>(
    math: &M,
    thermo: &PropellantThermo,
    exit: &NozzleExitState,
    divergence_factor: F64,
) -> F64 {
    let gamma = thermo.gamma;
    divergence_factor * nozzle_efficiency() * ((whole(2) * gamma * gamma / (gamma - whole(1))) * powf(
        math,
        whole(2) / (gamma + whole(1)),
        (gamma + whole(1)) / (gamma - whole(1)),
    ) * (whole(1) - powf(math, exit.exit_pressure_ratio, (gamma - whole(1)) / gamma))).sqrt()
}

/// The thrust coefficient in a vacuum, of which nothing is lost to underflow or
/// overflow at this chamber pressure.
pub open spec fn coefficient_kept(push: F64, ratio: F64, expansion_ratio: F64, chamber_pa: F64) -> bool {
    &&& amount(push) && amount(ratio) && amount(expansion_ratio)
    &&& normal(chamber_pa)
    &&& normal(ratio * chamber_pa)
    &&& normal(ratio * chamber_pa / chamber_pa)
    &&& normal(ratio * chamber_pa / chamber_pa * expansion_ratio)
    &&& normal(push + ratio * chamber_pa / chamber_pa * expansion_ratio)
}

/// The thrust coefficient in a vacuum does not depend on chamber pressure, to within
/// four roundings.
proof fn lemma_coefficient(push: F64, ratio: F64, expansion_ratio: F64, chamber_pa: F64)
    requires
        coefficient_kept(push, ratio, expansion_ratio, chamber_pa),
    ensures
        ({
            let cf = push + (ratio * chamber_pa - zero()) / chamber_pa * expansion_ratio;
            &&& normal(cf)
            &&& about(value(cf), value(push) + times(value(ratio), value(expansion_ratio)), 4)
        }),
{
    let exit_pa = ratio * chamber_pa;
    let kept = exit_pa / chamber_pa;
    let pressure = kept * expansion_ratio;
    lemma_one();
    lemma_parts(zero());
    lemma_negate(zero());
    lemma_parts(zero().negate());
    lemma_normal(chamber_pa);
    lemma_normal(exit_pa);
    lemma_normal(kept);
    lemma_normal(pressure);
    lemma_amount(push);
    lemma_amount(ratio);
    lemma_amount(expansion_ratio);
    lemma_add_zero(exit_pa, zero().negate());
    let (m, r, e, p) = (value(push), value(ratio), value(expansion_ratio), value(chamber_pa));
    lemma_product_about(ratio, chamber_pa);
    lemma_quotient_about(exit_pa, chamber_pa);
    lemma_about_same(p);
    lemma_about_quotient(value(exit_pa), times(r, p), p, p, 1, 0);
    lemma_over(times(r, p), p);
    lemma_times_unique(over(times(r, p), p), r, p);
    lemma_about_chain(value(kept), over(value(exit_pa), p), r, 1, 1);
    lemma_product_about(kept, expansion_ratio);
    lemma_about_same(e);
    lemma_about_product(value(kept), r, e, e, 2, 0);
    lemma_about_chain(value(pressure), times(value(kept), e), times(r, e), 1, 2);
    lemma_about_same(m);
    lemma_about_more(m, m, 0, 3);
    lemma_about_sum(m, m, value(pressure), times(r, e), 3);
    lemma_sum_about(push, pressure);
    lemma_about_chain(value(push + pressure), m + value(pressure), m + times(r, e), 1, 3);
}

/// Two numbers that nearly are `scale` times `a` and `scale` times `b` are to each other
/// as `a` to `b`.
proof fn lemma_proportion(x: real, y: real, scale: real, a: real, b: real, k: nat)
    requires
        about(x, times(scale, a), k),
        about(y, times(scale, b), k),
        a >= (0 as real),
        b >= (0 as real),
    ensures
        about(times(x, b), times(y, a), k + k),
{
    lemma_about_same(a);
    lemma_about_same(b);
    lemma_about_product(x, times(scale, a), b, b, k, 0);
    lemma_about_product(y, times(scale, b), a, a, k, 0);
    lemma_times_associates(scale, a, b);
    lemma_times_associates(scale, b, a);
    lemma_times_commutes(a, b);
    lemma_about_turned(times(y, a), times(times(scale, b), a), k);
    lemma_about_chain(times(x, b), times(times(scale, a), b), times(y, a), k, k);
}

/// Moves the second factor to the end.
proof fn lemma_moved(a: real, b: real, c: real)
    ensures
        times(times(a, b), c) == times(times(a, c), b),
{
    lemma_times_associates(a, b, c);
    lemma_times_associates(a, c, b);
    lemma_times_commutes(b, c);
}

/// Two points deliver in proportion to what drives them: thrust and flow are to each
/// other as the drives, at one specific impulse, to within so many roundings.
pub open spec fn in_proportion(
    one: EngineOperatingPoint,
    other: EngineOperatingPoint,
    drive: F64,
    other_drive: F64,
    thrust_roundings: nat,
    flow_roundings: nat,
    isp_roundings: nat,
) -> bool {
    &&& about(
        times(value(one.thrust_n), value(other_drive)),
        times(value(other.thrust_n), value(drive)),
        thrust_roundings,
    )
    &&& about(
        times(value(one.mass_flow_kg_s), value(other_drive)),
        times(value(other.mass_flow_kg_s), value(drive)),
        flow_roundings,
    )
    &&& about(value(one.isp_s), value(other.isp_s), isp_roundings)
}

/// The specific impulse of a point is not lost to underflow or overflow.
pub open spec fn isp_kept(point: EngineOperatingPoint) -> bool {
    &&& normal(point.mass_flow_kg_s * standard_gravity_mps2())
    &&& normal(point.isp_s)
}

/// The specific impulse of a point whose thrust and flow follow one drive is free of it.
proof fn lemma_isp(point: EngineOperatingPoint, push: real, flow: real, drive: real, a: nat, b: nat)
    requires
        isp_kept(point),
        normal(point.thrust_n),
        normal(point.mass_flow_kg_s),
        point.isp_s == point.thrust_n / (point.mass_flow_kg_s * standard_gravity_mps2()),
        about(value(point.thrust_n), times(push, drive), a),
        about(value(point.mass_flow_kg_s), times(flow, drive), b),
        flow > (0 as real),
        drive > (0 as real),
    ensures
        about(value(point.isp_s), over(push, times(flow, value(standard_gravity_mps2()))), a + b + 2),
        value(standard_gravity_mps2()) > (0 as real),
{
    let gravity = standard_gravity_mps2();
    let g = value(gravity);
    let weight = point.mass_flow_kg_s * gravity;
    reveal_with_fuel(pow, 6);
    lemma_decimal_between(980_665, 5, 0, 10);
    lemma_normal(weight);
    lemma_normal(point.thrust_n);
    lemma_normal(point.mass_flow_kg_s);
    lemma_amount(gravity);
    lemma_parts(gravity);
    lemma_parts(weight);
    lemma_carried(point.mass_flow_kg_s, gravity, times(flow, drive), b);
    if gravity.units() == 0 {
        lemma_one();
        lemma_vanishing(point.mass_flow_kg_s, gravity);
    }
    lemma_value_order(gravity, gravity);
    lemma_times_positive(flow, drive);
    lemma_times_positive(times(flow, drive), g);
    lemma_times_positive(flow, g);
    lemma_quotient_about(point.thrust_n, weight);
    let exact = times(times(flow, drive), g);
    lemma_about_quotient(value(point.thrust_n), times(push, drive), value(weight), exact, a, b + 1);
    lemma_about_chain(
        value(point.isp_s),
        over(value(point.thrust_n), value(weight)),
        over(times(push, drive), exact),
        1,
        a + (b + 1),
    );
    lemma_moved(flow, drive, g);
    lemma_over(times(push, drive), exact);
    lemma_over(push, times(flow, g));
    let free = over(push, times(flow, g));
    lemma_times_associates(free, times(flow, g), drive);
    lemma_times_unique(over(times(push, drive), exact), free, exact);
}

/// A cold-gas thruster in a vacuum at an inlet pressure, none of whose values is lost to
/// underflow or overflow.
pub open spec fn cold_kept<M: Numerics>(
    engine: &CompiledColdGas,
    math: &M,
    exit: &NozzleExitState,
    inlet_pressure_pa: F64,
) -> bool {
    let push = momentum(math, &engine.thermo_ref(), exit, engine.divergence_factor);
    let ratio = exit.exit_pressure_ratio;
    let cf = push + ratio * inlet_pressure_pa / inlet_pressure_pa * engine.expansion_ratio;
    &&& coefficient_kept(push, ratio, engine.expansion_ratio, inlet_pressure_pa)
    &&& amount(engine.throat_area_m2)
    &&& normal(engine.c_star_mps)
    &&& normal(cf * inlet_pressure_pa)
    &&& normal(cf * inlet_pressure_pa * engine.throat_area_m2)
    &&& normal(inlet_pressure_pa * engine.throat_area_m2)
    &&& normal(inlet_pressure_pa * engine.throat_area_m2 / engine.c_star_mps)
    &&& isp_kept(engine.flowing_point(math, exit, inlet_pressure_pa, zero()))
}

/// In a vacuum, a cold-gas thruster follows its inlet pressure: thrusts are to each
/// other as the pressures to within twelve roundings, flows to within four, and the
/// specific impulse is the same to within twenty.
pub proof fn lemma_blowdown_linear<M: Numerics>(
    engine: &CompiledColdGas,
    math: &M,
    exit: &NozzleExitState,
    pressure_pa: F64,
    other_pa: F64,
)
    requires
        cold_kept(engine, math, exit, pressure_pa),
        cold_kept(engine, math, exit, other_pa),
    ensures
        in_proportion(
            engine.flowing_point(math, exit, pressure_pa, zero()),
            engine.flowing_point(math, exit, other_pa, zero()),
            pressure_pa,
            other_pa,
            12,
            4,
            20,
        ),
{
    let push = momentum(math, &engine.thermo_ref(), exit, engine.divergence_factor);
    let base = value(push) + times(value(exit.exit_pressure_ratio), value(engine.expansion_ratio));
    let area = value(engine.throat_area_m2);
    lemma_cold(engine, math, exit, pressure_pa);
    lemma_cold(engine, math, exit, other_pa);
    lemma_normal(pressure_pa);
    lemma_normal(other_pa);
    lemma_vacuum_exit(exit.exit_pressure_ratio, pressure_pa);
    lemma_vacuum_exit(exit.exit_pressure_ratio, other_pa);
    let one = engine.flowing_point(math, exit, pressure_pa, zero());
    let other = engine.flowing_point(math, exit, other_pa, zero());
    let (p, q) = (value(pressure_pa), value(other_pa));
    lemma_normal(one.mass_flow_kg_s);
    lemma_proportion(value(one.thrust_n), value(other.thrust_n), times(base, area), p, q, 6);
    lemma_proportion(
        value(one.mass_flow_kg_s),
        value(other.mass_flow_kg_s),
        over(area, value(engine.c_star_mps)),
        p,
        q,
        2,
    );
    let flow = over(area, value(engine.c_star_mps));
    lemma_positive_share(value(one.mass_flow_kg_s), flow, p, 2);
    lemma_isp(one, times(base, area), flow, p, 6, 2);
    lemma_isp(other, times(base, area), flow, q, 6, 2);
    let free = over(times(base, area), times(flow, value(standard_gravity_mps2())));
    lemma_about_turned(value(other.isp_s), free, 10);
    lemma_about_chain(value(one.isp_s), free, value(other.isp_s), 10, 10);
}

/// What is nearly a positive number is a product of positive numbers.
proof fn lemma_positive_share(x: real, scale: real, drive: real, k: nat)
    requires
        about(x, times(scale, drive), k),
        x > (0 as real),
        drive > (0 as real),
    ensures
        scale > (0 as real),
{
    lemma_about_bounds(x, times(scale, drive), k);
    if scale <= (0 as real) {
        lemma_times_order(scale, 0 as real, drive);
        lemma_times_one(drive);
        assert(times(0 as real, drive) == (0 as real)) by {
            lemma_times_adds(0 as real, 0 as real, drive);
        }
        assert(times(times(scale, drive), slack(k)) <= (0 as real)) by {
            lemma_times_adds(0 as real, 0 as real, slack(k));
            lemma_slack(k);
            lemma_times_order(times(scale, drive), 0 as real, slack(k));
        }
    }
}

proof fn lemma_cold<M: Numerics>(engine: &CompiledColdGas, math: &M, exit: &NozzleExitState, pressure_pa: F64)
    requires
        cold_kept(engine, math, exit, pressure_pa),
    ensures
        ({
            let push = momentum(math, &engine.thermo_ref(), exit, engine.divergence_factor);
            let base = value(push) + times(value(exit.exit_pressure_ratio), value(engine.expansion_ratio));
            let area = value(engine.throat_area_m2);
            let point = engine.flowing_point(math, exit, pressure_pa, zero());
            let p = value(pressure_pa);
            &&& about(value(point.thrust_n), times(times(base, area), p), 6)
            &&& about(value(point.mass_flow_kg_s), times(over(area, value(engine.c_star_mps)), p), 2)
        }),
{
    let push = momentum(math, &engine.thermo_ref(), exit, engine.divergence_factor);
    let ratio = exit.exit_pressure_ratio;
    let base = value(push) + times(value(ratio), value(engine.expansion_ratio));
    let cf = push + (ratio * pressure_pa - zero()) / pressure_pa * engine.expansion_ratio;
    let (area, p, c) = (value(engine.throat_area_m2), value(pressure_pa), value(engine.c_star_mps));
    lemma_vacuum_exit(ratio, pressure_pa);
    lemma_coefficient(push, ratio, engine.expansion_ratio, pressure_pa);
    lemma_normal(cf);
    lemma_normal(pressure_pa);
    lemma_normal(engine.c_star_mps);
    lemma_carried(cf, pressure_pa, base, 4);
    lemma_carried(cf * pressure_pa, engine.throat_area_m2, times(base, p), 5);
    lemma_moved(base, p, area);
    let flow = pressure_pa * engine.throat_area_m2;
    lemma_normal(flow);
    lemma_product_about(pressure_pa, engine.throat_area_m2);
    lemma_quotient_about(flow, engine.c_star_mps);
    lemma_about_same(c);
    lemma_about_quotient(value(flow), times(p, area), c, c, 1, 0);
    lemma_about_chain(
        value(flow / engine.c_star_mps),
        over(value(flow), c),
        over(times(p, area), c),
        1,
        1,
    );
    lemma_times_commutes(p, area);
    lemma_over(times(p, area), c);
    lemma_over(area, c);
    lemma_moved(over(area, c), p, c);
    lemma_times_unique(over(times(p, area), c), times(over(area, c), p), c);
}

/// With nothing to push against, the exit keeps its whole pressure.
proof fn lemma_vacuum_exit(ratio: F64, chamber_pa: F64)
    requires
        normal(ratio * chamber_pa),
    ensures
        ratio * chamber_pa - zero() == ratio * chamber_pa,
{
    lemma_one();
    lemma_normal(ratio * chamber_pa);
    lemma_parts(zero());
    lemma_negate(zero());
    lemma_parts(zero().negate());
    lemma_add_zero(ratio * chamber_pa, zero().negate());
}

/// A liquid engine in a vacuum at a throttle, none of whose values is lost to underflow
/// or overflow.
pub open spec fn throttle_kept<M: Numerics>(engine: &CompiledLiquid, math: &M, throttle: F64) -> bool {
    let point = engine.burning_point(math, throttle, zero());
    let chamber_pa = engine.chamber_pressure_pa * throttle;
    let exit = engine.exit_ref();
    let push = momentum(math, &engine.thermo_ref(), &exit, engine.divergence_factor);
    let ratio = exit.exit_pressure_ratio;
    let cf = push + ratio * chamber_pa / chamber_pa * engine.expansion_ratio;
    &&& normal(throttle)
    &&& amount(engine.full_flow_kg_s)
    &&& normal(point.mass_flow_kg_s)
    &&& normal(point.thrust_n)
    &&& isp_kept(point)
    &&& if engine.contour == NozzleContour::Aerospike {
        amount(engine.thrust_vac_n) && amount(engine.aerospike_base_area_m2) && normal(engine.thrust_vac_n * throttle)
    } else {
        &&& coefficient_kept(push, ratio, engine.expansion_ratio, chamber_pa)
        &&& amount(engine.chamber_pressure_pa) && amount(engine.throat_area_m2) && amount(engine.kinetic_efficiency)
        &&& normal(cf * chamber_pa)
        &&& normal(cf * chamber_pa * engine.throat_area_m2)
        &&& normal(cf * chamber_pa * engine.throat_area_m2 * engine.kinetic_efficiency)
        &&& engine.gg_bypass_fraction <= zero() || (amount(engine.gg_thrust_vac_n) && amount(engine.gg_exit_area_m2)
            && normal(engine.gg_thrust_vac_n * throttle))
    }
}

/// Vacuum thrust per throttle of a liquid engine.
spec fn thrust_scale<M: Numerics>(engine: &CompiledLiquid, math: &M) -> real {
    let exit = engine.exit_ref();
    let push = momentum(math, &engine.thermo_ref(), &exit, engine.divergence_factor);
    let base = value(push) + times(value(exit.exit_pressure_ratio), value(engine.expansion_ratio));
    if engine.contour == NozzleContour::Aerospike {
        value(engine.thrust_vac_n)
    } else {
        times(
            times(times(base, value(engine.chamber_pressure_pa)), value(engine.throat_area_m2)),
            value(engine.kinetic_efficiency),
        ) + if engine.gg_bypass_fraction <= zero() {
            0 as real
        } else {
            value(engine.gg_thrust_vac_n)
        }
    }
}

/// In a vacuum a liquid engine follows its throttle: thrusts are to each other as the
/// throttles to within eighteen roundings, flows to within two, and the specific impulse
/// is the same to within twenty-four.
pub proof fn lemma_throttle_linear<M: Numerics>(engine: &CompiledLiquid, math: &M, throttle: F64, other: F64)
    requires
        throttle_kept(engine, math, throttle),
        throttle_kept(engine, math, other),
    ensures
        in_proportion(
            engine.burning_point(math, throttle, zero()),
            engine.burning_point(math, other, zero()),
            throttle,
            other,
            18,
            2,
            24,
        ),
{
    let one = engine.burning_point(math, throttle, zero());
    let second = engine.burning_point(math, other, zero());
    let scale = thrust_scale(engine, math);
    let flow = value(engine.full_flow_kg_s);
    let (p, q) = (value(throttle), value(other));
    lemma_normal(throttle);
    lemma_normal(other);
    lemma_normal(one.mass_flow_kg_s);
    lemma_liquid(engine, math, throttle);
    lemma_liquid(engine, math, other);
    lemma_product_about(engine.full_flow_kg_s, throttle);
    lemma_product_about(engine.full_flow_kg_s, other);
    lemma_proportion(value(one.thrust_n), value(second.thrust_n), scale, p, q, 9);
    lemma_proportion(value(one.mass_flow_kg_s), value(second.mass_flow_kg_s), flow, p, q, 1);
    lemma_positive_share(value(one.mass_flow_kg_s), flow, p, 1);
    lemma_isp(one, scale, flow, p, 9, 1);
    lemma_isp(second, scale, flow, q, 9, 1);
    let free = over(scale, times(flow, value(standard_gravity_mps2())));
    lemma_about_turned(value(second.isp_s), free, 12);
    lemma_about_chain(value(one.isp_s), free, value(second.isp_s), 12, 12);
}

proof fn lemma_liquid<M: Numerics>(engine: &CompiledLiquid, math: &M, throttle: F64)
    requires
        throttle_kept(engine, math, throttle),
    ensures
        about(
            value(engine.burning_point(math, throttle, zero()).thrust_n),
            times(thrust_scale(engine, math), value(throttle)),
            9,
        ),
{
    let point = engine.burning_point(math, throttle, zero());
    let s = value(throttle);
    lemma_one();
    lemma_normal(throttle);
    if engine.contour == NozzleContour::Aerospike {
        lemma_ducted(engine.thrust_vac_n, throttle, engine.aerospike_base_area_m2);
        lemma_about_more(value(point.thrust_n), times(value(engine.thrust_vac_n), s), 1, 9);
    } else {
        let chamber_pa = engine.chamber_pressure_pa * throttle;
        let exit = engine.exit_ref();
        let ratio = exit.exit_pressure_ratio;
        let push = momentum(math, &engine.thermo_ref(), &exit, engine.divergence_factor);
        let base = value(push) + times(value(ratio), value(engine.expansion_ratio));
        let cf = push + (ratio * chamber_pa - zero()) / chamber_pa * engine.expansion_ratio;
        let (c, a, e) = (value(engine.chamber_pressure_pa), value(engine.throat_area_m2), value(engine.kinetic_efficiency));
        lemma_vacuum_exit(ratio, chamber_pa);
        lemma_coefficient(push, ratio, engine.expansion_ratio, chamber_pa);
        lemma_normal(cf);
        lemma_normal(chamber_pa);
        lemma_product_about(engine.chamber_pressure_pa, throttle);
        lemma_product_about(cf, chamber_pa);
        lemma_about_product(value(cf), base, value(chamber_pa), times(c, s), 4, 1);
        lemma_about_chain(
            value(cf * chamber_pa),
            times(value(cf), value(chamber_pa)),
            times(base, times(c, s)),
            1,
            5,
        );
        lemma_times_associates(base, c, s);
        let first = times(base, c);
        lemma_normal(cf * chamber_pa);
        lemma_carried(cf * chamber_pa, engine.throat_area_m2, times(first, s), 6);
        lemma_moved(first, s, a);
        lemma_carried(
            cf * chamber_pa * engine.throat_area_m2,
            engine.kinetic_efficiency,
            times(times(first, a), s),
            7,
        );
        lemma_moved(times(first, a), s, e);
        let main = cf * chamber_pa * engine.throat_area_m2 * engine.kinetic_efficiency;
        let main_scale = times(times(first, a), e);
        lemma_normal(main);
        if engine.gg_bypass_fraction <= zero() {
            lemma_parts(zero());
            lemma_add_zero(main, zero());
            lemma_about_more(value(main), times(main_scale, s), 8, 9);
        } else {
            let duct = engine.gg_thrust_vac_n;
            lemma_parts(throttle);
            lemma_ducted(duct, throttle, engine.gg_exit_area_m2);
            let gg = engine.gg_thrust_at(throttle, zero());
            lemma_about_more(value(gg), times(value(duct), s), 1, 8);
            lemma_about_sum(value(main), times(main_scale, s), value(gg), times(value(duct), s), 8);
            lemma_times_adds(main_scale, value(duct), s);
            lemma_normal(gg);
            lemma_sum_about(main, gg);
            lemma_about_chain(
                value(point.thrust_n),
                value(main) + value(gg),
                times(main_scale + value(duct), s),
                1,
                8,
            );
        }
    }
}

/// A thrust that follows the throttle, with nothing to push against.
proof fn lemma_ducted(thrust_n: F64, throttle: F64, area: F64)
    requires
        amount(thrust_n),
        amount(area),
        normal(throttle),
        normal(thrust_n * throttle),
    ensures
        ({
            let pushed = (thrust_n * throttle - zero() * area).max(zero());
            &&& pushed == thrust_n * throttle
            &&& about(value(pushed), times(value(thrust_n), value(throttle)), 1)
        }),
{
    lemma_one();
    lemma_normal(throttle);
    lemma_normal(thrust_n * throttle);
    lemma_product_about(thrust_n, throttle);
    lemma_vanishing(area, zero());
    lemma_mul_commutes(area, zero());
    let nothing = zero() * area;
    lemma_negate(nothing);
    lemma_parts(nothing.negate());
    lemma_add_zero(thrust_n * throttle, nothing.negate());
    lemma_parts(thrust_n * throttle);
}

/// A liquid engine whose figures lie between 2^-60 and 2^60, and its momentum term no
/// higher.
pub open spec fn figures_sized<M: Numerics>(engine: &CompiledLiquid, math: &M) -> bool {
    let push = momentum(math, &engine.thermo_ref(), &engine.exit_ref(), engine.divergence_factor);
    &&& sized(engine.chamber_pressure_pa, -60, 60)
    &&& sized(engine.exit_pressure_pa, -60, 60)
    &&& sized(engine.throat_area_m2, -60, 60)
    &&& sized(engine.expansion_ratio, -60, 60)
    &&& sized(engine.kinetic_efficiency, -60, 60)
    &&& sized(engine.full_flow_kg_s, -60, 60)
    &&& sized(engine.thrust_vac_n, -60, 60)
    &&& amount(push) && push.units() <= pow2(1134)
    &&& engine.contour == NozzleContour::Aerospike ==> amount(engine.aerospike_base_area_m2)
    &&& engine.gg_bypass_fraction <= zero() || (sized(engine.gg_thrust_vac_n, -60, 60) && amount(engine.gg_exit_area_m2))
}

/// At any throttle from 2^-60 to one, nothing of such an engine is lost to underflow or
/// overflow.
proof fn lemma_throttle_kept<M: Numerics>(engine: &CompiledLiquid, math: &M, throttle: F64)
    requires
        figures_sized(engine, math),
        sized(throttle, -60, 0),
    ensures
        throttle_kept(engine, math, throttle),
{
    let point = engine.burning_point(math, throttle, zero());
    let chamber_pa = engine.chamber_pressure_pa * throttle;
    let exit = engine.exit_ref();
    let push = momentum(math, &engine.thermo_ref(), &exit, engine.divergence_factor);
    let ratio = exit.exit_pressure_ratio;
    lemma_one();
    lemma_sized(throttle, -60, 0);
    lemma_sized(engine.full_flow_kg_s, -60, 60);
    lemma_sized_product(engine.full_flow_kg_s, throttle, -60, 60, -60, 0);
    lemma_sized(point.mass_flow_kg_s, -120, 60);
    lemma_gravity_sized();
    lemma_sized_product(point.mass_flow_kg_s, standard_gravity_mps2(), -120, 60, 3, 4);
    lemma_sized(point.mass_flow_kg_s * standard_gravity_mps2(), -117, 64);
    if engine.contour == NozzleContour::Aerospike {
        lemma_sized_product(engine.thrust_vac_n, throttle, -60, 60, -60, 0);
        lemma_sized(engine.thrust_vac_n * throttle, -120, 60);
        lemma_ducted(engine.thrust_vac_n, throttle, engine.aerospike_base_area_m2);
        lemma_sized_more(point.thrust_n, -120, 60, -540, 482);
    } else {
        lemma_sized_product(engine.chamber_pressure_pa, throttle, -60, 60, -60, 0);
        lemma_sized(chamber_pa, -120, 60);
        lemma_sized_quotient(engine.exit_pressure_pa, engine.chamber_pressure_pa, -60, 60, -60, 60);
        lemma_coefficient_sized(push, ratio, engine.expansion_ratio, chamber_pa);
        lemma_vacuum_exit(ratio, chamber_pa);
        let cf = push + ratio * chamber_pa / chamber_pa * engine.expansion_ratio;
        lemma_sized_product(cf, chamber_pa, -360, 361, -120, 60);
        lemma_sized(cf * chamber_pa, -480, 421);
        lemma_sized_product(cf * chamber_pa, engine.throat_area_m2, -480, 421, -60, 60);
        lemma_sized(cf * chamber_pa * engine.throat_area_m2, -540, 481);
        lemma_sized_product(cf * chamber_pa * engine.throat_area_m2, engine.kinetic_efficiency, -540, 481, -60, 60);
        let main = cf * chamber_pa * engine.throat_area_m2 * engine.kinetic_efficiency;
        lemma_sized(main, -600, 541);
        lemma_parts(zero());
        lemma_powers(0, 1615);
        if engine.gg_bypass_fraction <= zero() {
            lemma_sized_sum(main, zero(), -600, 541);
        } else {
            lemma_sized_product(engine.gg_thrust_vac_n, throttle, -60, 60, -60, 0);
            lemma_sized(engine.gg_thrust_vac_n * throttle, -120, 60);
            lemma_ducted(engine.gg_thrust_vac_n, throttle, engine.gg_exit_area_m2);
            lemma_parts(throttle);
            let gg = engine.gg_thrust_at(throttle, zero());
            assert(gg == engine.gg_thrust_vac_n * throttle);
            lemma_powers(1134, 1615);
            lemma_sized_sum(main, gg, -600, 541);
        }
        lemma_sized(point.thrust_n, -600, 542);
    }
    if engine.contour == NozzleContour::Aerospike {
        lemma_sized_quotient(point.thrust_n, point.mass_flow_kg_s * standard_gravity_mps2(), -540, 482, -117, 64);
        lemma_sized(point.isp_s, -604, 599);
    } else {
        lemma_sized_quotient(point.thrust_n, point.mass_flow_kg_s * standard_gravity_mps2(), -600, 542, -117, 64);
        lemma_sized(point.isp_s, -664, 659);
    }
}

/// The size of a thrust coefficient and of the steps to it.
proof fn lemma_coefficient_sized(push: F64, ratio: F64, expansion_ratio: F64, chamber_pa: F64)
    requires
        amount(push),
        push.units() <= pow2(1134),
        sized(ratio, -120, 120),
        sized(expansion_ratio, -60, 60),
        sized(chamber_pa, -120, 60),
    ensures
        coefficient_kept(push, ratio, expansion_ratio, chamber_pa),
        sized(push + ratio * chamber_pa / chamber_pa * expansion_ratio, -360, 361),
{
    lemma_sized(chamber_pa, -120, 60);
    lemma_sized_product(ratio, chamber_pa, -120, 120, -120, 60);
    lemma_sized(ratio * chamber_pa, -240, 180);
    lemma_sized_quotient(ratio * chamber_pa, chamber_pa, -240, 180, -120, 60);
    lemma_sized(ratio * chamber_pa / chamber_pa, -300, 300);
    lemma_sized_product(ratio * chamber_pa / chamber_pa, expansion_ratio, -300, 300, -60, 60);
    let pressure = ratio * chamber_pa / chamber_pa * expansion_ratio;
    lemma_sized(pressure, -360, 360);
    lemma_powers(1134, 1434);
    lemma_sized_sum(pressure, push, -360, 360);
    lemma_sized(push + pressure, -360, 361);
}

/// Standard gravity lies between eight and sixteen.
proof fn lemma_gravity_sized()
    ensures
        sized(standard_gravity_mps2(), 3, 4),
{
    reveal_with_fuel(pow, 6);
    lemma_decimal_between(980_665, 5, 8, 16);
    lemma_whole(8);
    lemma_whole(16);
    lemma_pow2_adds(3, 1074);
    lemma_pow2_adds(4, 1074);
    lemma2_to64();
}

/// In a vacuum an engine of ordinary figures follows its throttle, whatever the two
/// throttles are: thrusts are to each other as the throttles to within eighteen
/// roundings, flows to within two, and the specific impulse is the same to within
/// twenty-four.
pub proof fn lemma_throttle_follows<M: Numerics>(engine: &CompiledLiquid, math: &M, throttle: F64, other: F64)
    requires
        figures_sized(engine, math),
        sized(throttle, -60, 0),
        sized(other, -60, 0),
    ensures
        in_proportion(
            engine.burning_point(math, throttle, zero()),
            engine.burning_point(math, other, zero()),
            throttle,
            other,
            18,
            2,
            24,
        ),
{
    lemma_throttle_kept(engine, math, throttle);
    lemma_throttle_kept(engine, math, other);
    lemma_throttle_linear(engine, math, throttle, other);
}

/// The vacuum thrust of a compiled engine, none of whose steps is lost to underflow or
/// overflow.
pub open spec fn compiled_kept<M: Numerics>(
    engine: &CompiledLiquid,
    math: &M,
    thermo: &PropellantThermo,
    exit: &NozzleExitState,
) -> bool {
    let push = momentum(math, thermo, exit, engine.divergence_factor);
    let (ratio, pc) = (exit.exit_pressure_ratio, engine.chamber_pressure_pa);
    let cf = push + ratio * pc / pc * engine.expansion_ratio;
    &&& coefficient_kept(push, ratio, engine.expansion_ratio, pc)
    &&& normal(cf * pc)
    &&& normal(cf * pc * engine.throat_area_m2)
    &&& normal(engine.exit_ref().exit_pressure_ratio)
    &&& normal(engine.thrust_vac_n)
}

/// At full throttle in a vacuum a compiled engine gives the vacuum thrust it was compiled
/// with, to within eighteen roundings and those by which the host's momentum terms at the
/// compiled exit and at the exit read back differ, as long as nothing underflows or
/// overflows; the flow is the full flow.
pub proof fn lemma_full_throttle<M: Numerics>(
    spec: &LiquidEngineSpec,
    math: &M,
    fluids: &FluidThermo,
    engine: &CompiledLiquid,
    thermo: &PropellantThermo,
    exit: &NozzleExitState,
    roundings: nat,
)
    requires
        spec.compiled(math, fluids) == Ok::<CompiledLiquid, Fault>(*engine),
        spec.propellant.thermo_at(math, fluids, spec.mixture_ratio) == Ok::<PropellantThermo, Fault>(*thermo),
        exit_for(math, thermo, spec.expansion_ratio) == Ok::<NozzleExitState, Fault>(*exit),
        throttle_kept(engine, math, whole(1)),
        engine.contour != NozzleContour::Aerospike ==> compiled_kept(engine, math, thermo, exit),
        about(
            value(momentum(math, &engine.thermo_ref(), &engine.exit_ref(), engine.divergence_factor)),
            value(momentum(math, thermo, exit, engine.divergence_factor)),
            roundings,
        ),
    ensures
        about(
            value(engine.burning_point(math, whole(1), zero()).thrust_n),
            value(engine.thrust_vac_n),
            roundings + 18,
        ),
        engine.burning_point(math, whole(1), zero()).mass_flow_kg_s == engine.full_flow_kg_s,
{
    let one = whole(1);
    let point = engine.burning_point(math, one, zero());
    lemma_one();
    lemma_whole(1);
    lemma_parts(one);
    lemma_parts(engine.full_flow_kg_s);
    lemma_mul_one(engine.full_flow_kg_s);
    lemma_liquid(engine, math, one);
    let scale = thrust_scale(engine, math);
    lemma_unit_value(one);
    assert(value(one) == (1 as real)) by {
        lemma_times_one(pow2(1074) as real);
        lemma_times_unique(value(one), 1 as real, pow2(1074) as real);
    }
    lemma_times_one(scale);
    if engine.contour == NozzleContour::Aerospike {
        lemma_about_more(value(point.thrust_n), value(engine.thrust_vac_n), 9, roundings + 18);
    } else {
        let area = engine.throat_area_m2;
        let pc = engine.chamber_pressure_pa;
        let push = momentum(math, thermo, exit, engine.divergence_factor);
        let again = momentum(math, &engine.thermo_ref(), &engine.exit_ref(), engine.divergence_factor);
        let ratio = exit.exit_pressure_ratio;
        let read = engine.exit_ref().exit_pressure_ratio;
        let eps = engine.expansion_ratio;
        let (r, e, c, a) = (value(ratio), value(eps), value(pc), value(area));
        let (base, base_again) = (value(push) + times(r, e), value(again) + times(value(read), e));
        // The compiled main thrust.
        lemma_vacuum_exit(ratio, pc);
        lemma_coefficient(push, ratio, eps, pc);
        let cf = push + (ratio * pc - zero()) / pc * eps;
        let main = cf * pc * area;
        lemma_normal(cf);
        lemma_normal(pc);
        lemma_normal(cf * pc);
        lemma_normal(main);
        lemma_carried(cf, pc, base, 4);
        lemma_carried(cf * pc, area, times(base, c), 5);
        let compiled = times(times(base, c), a);
        // The exit ratio read back.
        lemma_normal(engine.exit_pressure_pa);
        lemma_product_about(ratio, pc);
        lemma_quotient_about(engine.exit_pressure_pa, pc);
        lemma_about_same(c);
        lemma_about_quotient(value(engine.exit_pressure_pa), times(r, c), c, c, 1, 0);
        lemma_over(times(r, c), c);
        lemma_times_unique(over(times(r, c), c), r, c);
        lemma_about_chain(value(read), over(value(engine.exit_pressure_pa), c), r, 1, 1);
        lemma_amount(eps);
        lemma_about_same(e);
        lemma_about_product(value(read), r, e, e, 2, 0);
        let k = roundings + 2;
        lemma_about_more(times(value(read), e), times(r, e), 2, k);
        lemma_about_more(value(again), value(push), roundings, k);
        lemma_about_sum(value(again), value(push), times(value(read), e), times(r, e), k);
        // Both thrusts against the same chamber and throat.
        lemma_about_product(base_again, base, c, c, k, 0);
        lemma_amount(area);
        lemma_about_same(a);
        lemma_about_product(times(base_again, c), times(base, c), a, a, k, 0);
        lemma_times_one(times(times(base_again, c), a));
        let evaluated = times(times(base_again, c), a);
        lemma_about_turned(value(main), compiled, 6);
        if engine.gg_bypass_fraction <= zero() {
            lemma_no_bypass(spec, math, thermo);
            lemma_normal(main);
            lemma_parts(zero());
            lemma_add_zero(main, zero());
            lemma_about_chain(value(point.thrust_n), evaluated, compiled, 9, k);
            lemma_about_chain(value(point.thrust_n), compiled, value(engine.thrust_vac_n), 9 + k, 6);
            lemma_about_more(value(point.thrust_n), value(engine.thrust_vac_n), 9 + k + 6, roundings + 18);
        } else {
            let duct = engine.gg_thrust_vac_n;
            let g = value(duct);
            lemma_amount(duct);
            lemma_about_same(g);
            lemma_about_more(g, g, 0, k);
            lemma_about_sum(evaluated, compiled, g, g, k);
            lemma_about_chain(value(point.thrust_n), evaluated + g, compiled + g, 9, k);
            lemma_about_more(g, g, 0, 6);
            lemma_about_sum(compiled, value(main), g, g, 6);
            lemma_normal_sum(main, duct);
            lemma_sum_about(main, duct);
            lemma_about_turned(value(main + duct), value(main) + g, 1);
            lemma_about_chain(value(point.thrust_n), compiled + g, value(main) + g, 9 + k, 6);
            lemma_about_chain(value(point.thrust_n), value(main) + g, value(engine.thrust_vac_n), 9 + k + 6, 1);
        }
    }
}

/// A cycle that bypasses nothing has no duct.
proof fn lemma_no_bypass<M: Numerics>(spec: &LiquidEngineSpec, math: &M, thermo: &PropellantThermo)
    requires
        spec.cycle.limits().gg_bypass_fraction <= zero(),
    ensures
        !(spec.bypass_flow_kg_s(math, thermo) > zero()),
{
    let share = spec.cycle.limits().gg_bypass_fraction;
    let flow = spec.chamber_flow_kg_s(math, thermo);
    lemma_one();
    lemma_positive_decimal(30, 3);
    lemma_mul_commutes(share, flow);
    lemma_nothing(flow, share);
}

/// A pulse no longer than the valve's rise delivers by the square of its open time, to
/// within six roundings.
pub proof fn lemma_short_pulse(thrust_n: F64, mass_flow_kg_s: F64, on_time_s: F64, other_s: F64, rise_s: F64)
    requires
        amount(thrust_n),
        on_time_s <= rise_s,
        other_s <= rise_s,
        short_pulse_kept(thrust_n, on_time_s, rise_s),
        short_pulse_kept(thrust_n, other_s, rise_s),
    ensures
        about(
            times(
                value(deliver_pulse(thrust_n, mass_flow_kg_s, on_time_s, rise_s).impulse_ns),
                times(value(other_s), value(other_s)),
            ),
            times(
                value(deliver_pulse(thrust_n, mass_flow_kg_s, other_s, rise_s).impulse_ns),
                times(value(on_time_s), value(on_time_s)),
            ),
            6,
        ),
{
    let scale = over(value(thrust_n), value(whole(2) * rise_s));
    let (a, b) = (value(on_time_s), value(other_s));
    lemma_one();
    lemma_parts(on_time_s);
    lemma_parts(other_s);
    lemma_normal(on_time_s);
    lemma_normal(other_s);
    lemma_rising(thrust_n, on_time_s, rise_s);
    lemma_rising(thrust_n, other_s, rise_s);
    lemma_times_positive(a, a);
    lemma_times_positive(b, b);
    lemma_proportion(
        value(deliver_pulse(thrust_n, mass_flow_kg_s, on_time_s, rise_s).impulse_ns),
        value(deliver_pulse(thrust_n, mass_flow_kg_s, other_s, rise_s).impulse_ns),
        scale,
        times(a, a),
        times(b, b),
        3,
    );
}

/// A pulse within the valve's rise, none of whose values is lost to underflow or
/// overflow.
pub open spec fn short_pulse_kept(thrust_n: F64, on_time_s: F64, rise_s: F64) -> bool {
    &&& normal(on_time_s)
    &&& normal(whole(2) * rise_s)
    &&& normal(thrust_n * on_time_s)
    &&& normal(thrust_n * on_time_s * on_time_s)
    &&& normal(thrust_n * on_time_s * on_time_s / (whole(2) * rise_s))
}

proof fn lemma_rising(thrust_n: F64, on_time_s: F64, rise_s: F64)
    requires
        amount(thrust_n),
        short_pulse_kept(thrust_n, on_time_s, rise_s),
    ensures
        about(
            value(thrust_n * on_time_s * on_time_s / (whole(2) * rise_s)),
            times(over(value(thrust_n), value(whole(2) * rise_s)), times(value(on_time_s), value(on_time_s))),
            3,
        ),
{
    let doubled = whole(2) * rise_s;
    let (f, s, r) = (value(thrust_n), value(on_time_s), value(doubled));
    let steady = thrust_n * on_time_s;
    lemma_normal(on_time_s);
    lemma_normal(doubled);
    lemma_normal(steady);
    lemma_normal(steady * on_time_s);
    lemma_product_about(thrust_n, on_time_s);
    lemma_carried(steady, on_time_s, times(f, s), 1);
    lemma_times_associates(f, s, s);
    let square = times(s, s);
    lemma_quotient_about(steady * on_time_s, doubled);
    lemma_about_same(r);
    lemma_about_quotient(value(steady * on_time_s), times(f, square), r, r, 2, 0);
    lemma_about_chain(
        value(steady * on_time_s / doubled),
        over(value(steady * on_time_s), r),
        over(times(f, square), r),
        1,
        2,
    );
    lemma_over(times(f, square), r);
    lemma_over(f, r);
    lemma_moved(over(f, r), square, r);
    lemma_times_unique(over(times(f, square), r), times(over(f, r), square), r);
}

} // verus!
