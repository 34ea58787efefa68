//! Reaction control: pulses, blowdown, opposed pairs, and fixed gimbals.
use crate::constants::standard_gravity_mps2;
use crate::engine::EngineOperatingPoint;
use crate::error::Fault;
use crate::float::decimals::{lemma_decimal_between, lemma_whole};
use crate::float::exact::{
    double, lemma_add_zero, lemma_div_double, lemma_double, lemma_mirror_finite, lemma_mul_double,
    lemma_product_mirrors, lemma_sum_exact, lemma_sum_mirrors, lemma_twice, lemma_vanishing, mirrors, roomy,
};
use crate::float::{lemma_one, whole, zero, F64};
use crate::float::magnitude::mag;
use crate::float::nearness::{lemma_near, lemma_near_at_most_double, lemma_near_exact, lemma_near_order, lemma_parts};
use crate::float::order::{
    lemma_add_commutes, lemma_finite_difference, lemma_halved, lemma_less, lemma_mul_commutes, lemma_mul_not_negative,
    lemma_mul_order, lemma_negate, lemma_numbers, lemma_product, lemma_quotient,
};
use crate::mount::gimbal_effector;
use crate::nozzle::{exit_for, thrust_coefficient, NozzleExitState};
use crate::numerics::Numerics;
use crate::rcs::{deliver_pulse, duty_fault, mounts_fault, wrench_with, CompiledColdGas, RcsCluster, RcsPulse};
use crate::vector::Vector;
use vstd::arithmetic::power2::{lemma_pow2_pos, pow2};
use vstd::arithmetic::power::pow;
use vstd::prelude::*;

verus! {

/// A valve that does not open delivers nothing and uses nothing.
pub proof fn lemma_no_pulse(thrust_n: F64, mass_flow_kg_s: F64, on_time_s: F64, rise_s: F64)
    requires
        on_time_s <= zero(),
    ensures
        deliver_pulse(thrust_n, mass_flow_kg_s, on_time_s, rise_s) == (RcsPulse {
            impulse_ns: zero(),
            propellant_kg: zero(),
            effective_isp_s: zero(),
        }),
{
}

/// A pulse never delivers more than steady thrust over its open time would, and books
/// the flow over all of that time.
pub proof fn lemma_pulse_within_steady(thrust_n: F64, mass_flow_kg_s: F64, on_time_s: F64, rise_s: F64)
    requires
        zero() <= thrust_n,
        thrust_n.is_finite(),
        zero() < on_time_s,
        on_time_s.is_finite(),
        zero() < rise_s,
        rise_s.is_finite(),
        on_time_s <= rise_s ==> (thrust_n * on_time_s * on_time_s).is_finite() && (whole(2) * rise_s).is_finite(),
    ensures
        deliver_pulse(thrust_n, mass_flow_kg_s, on_time_s, rise_s).impulse_ns <= thrust_n * on_time_s,
        deliver_pulse(thrust_n, mass_flow_kg_s, on_time_s, rise_s).propellant_kg == mass_flow_kg_s * on_time_s,
{
    lemma_one();
    lemma_parts(thrust_n);
    lemma_parts(on_time_s);
    lemma_parts(rise_s);
    lemma_whole(2);
    let steady = thrust_n * on_time_s;
    lemma_product(thrust_n, on_time_s);
    lemma_mul_not_negative(thrust_n, on_time_s);
    if on_time_s <= rise_s {
        lemma_within_rise(steady, on_time_s, rise_s);
    } else {
        lemma_halved(rise_s);
        let open = on_time_s - rise_s / whole(2);
        lemma_negate(rise_s / whole(2));
        lemma_parts(rise_s / whole(2));
        lemma_parts((rise_s / whole(2)).negate());
        lemma_finite_difference(on_time_s, rise_s / whole(2));
        lemma_parts(open);
        lemma_less(on_time_s, rise_s / whole(2));
        lemma_product(thrust_n, open);
        lemma_mul_commutes(thrust_n, open);
        lemma_mul_commutes(thrust_n, on_time_s);
        lemma_mul_order(open, on_time_s, thrust_n);
    }
}

proof fn lemma_within_rise(steady: F64, on_time_s: F64, rise_s: F64)
    requires
        zero() <= steady,
        zero() < on_time_s,
        on_time_s <= rise_s,
        on_time_s.is_finite(),
        rise_s.is_finite(),
        (steady * on_time_s).is_finite(),
        (whole(2) * rise_s).is_finite(),
    ensures
        steady * on_time_s / (whole(2) * rise_s) <= steady,
{
    lemma_one();
    lemma_whole(2);
    lemma_parts(steady);
    lemma_parts(on_time_s);
    lemma_parts(rise_s);
    lemma_parts(whole(2));
    let area = steady * on_time_s;
    let span = whole(2) * rise_s;
    lemma_parts(area);
    lemma_parts(span);
    lemma_numbers(steady, on_time_s);
    let scale = pow2(1074) as int;
    lemma_pow2_pos(1074);
    // Twice the rise time is exact unless it overflows.
    let r = mag(rise_s.pattern()) as int;
    lemma_product(whole(2), rise_s);
    assert(span.units() >= 2 * r) by {
        lemma_twice(rise_s);
    }
    if !steady.is_finite() {
        reveal(F64::spec_mul);
        reveal(F64::is_finite_spec);
    }
    assert(steady.is_finite());
    let (s, t) = (mag(steady.pattern()) as int, mag(on_time_s.pattern()) as int);
    lemma_product(steady, on_time_s);
    lemma_mul_not_negative(steady, on_time_s);
    lemma_near_at_most_double(s * t, scale);
    lemma_near(steady.negative() != on_time_s.negative(), s * t, scale);
    let x = mag(area.pattern()) as int;
    let d = mag(span.pattern()) as int;
    // The exact quotient is no more than the steady impulse, which a double holds.
    assert(x * scale <= s * d) by (nonlinear_arith)
        requires
            x * scale <= 2 * (s * t),
            t <= r,
            2 * r <= d,
            s >= 0,
            t >= 0,
    ;
    lemma_quotient(area, span);
    lemma_near_exact(s, 1, steady.pattern());
    lemma_near(false, s, 1);
    assert(x * scale >= 0) by (nonlinear_arith)
        requires
            x >= 0,
            scale >= 0,
    ;
    lemma_near(area.negative() != span.negative(), x * scale, d);
    if area.negative() {
        assert(x == 0);
        assert(0 * scale == 0);
    }
    assert((if area.negative() != span.negative() { -(x * scale) } else { x * scale }) * 1 <= s * d) by (nonlinear_arith)
        requires
            0 <= x * scale <= s * d,
    ;
    lemma_near_order(area.negative() != span.negative(), x * scale, d, false, s, 1);
    lemma_parts(area / span);
}

/// In a vacuum, a cold-gas thruster follows its inlet pressure: at twice the pressure
/// it gives exactly twice the thrust for exactly twice the flow, at the same specific
/// impulse, as long as no value on the way leaves the normal range.
pub proof fn lemma_blowdown<M: Numerics>(
    engine: &CompiledColdGas,
    math: &M,
    inlet_pressure_pa: F64,
    exit: NozzleExitState,
)
    requires
        exit_for(math, &engine.thermo_ref(), engine.expansion_ratio) == Ok::<NozzleExitState, Fault>(exit),
        zero() < inlet_pressure_pa,
        roomy(inlet_pressure_pa),
        roomy(exit.exit_pressure_ratio * inlet_pressure_pa),
        exit.exit_pressure_ratio.is_finite(),
        engine.throat_area_m2.is_finite(),
        engine.c_star_mps.is_finite(),
        engine.c_star_mps.units() != 0,
        ({
            let cf = thrust_coefficient(
                math,
                &engine.thermo_ref(),
                inlet_pressure_pa,
                &exit,
                engine.expansion_ratio,
                zero(),
                engine.divergence_factor,
            );
            let point = engine.flowing_point(math, &exit, inlet_pressure_pa, zero());
            &&& cf.is_finite()
            &&& roomy(cf * inlet_pressure_pa)
            &&& roomy(point.thrust_n)
            &&& roomy(inlet_pressure_pa * engine.throat_area_m2)
            &&& roomy(point.mass_flow_kg_s)
            &&& roomy(point.mass_flow_kg_s * standard_gravity_mps2())
        }),
    ensures
        ({
            let point = engine.flowing_point(math, &exit, inlet_pressure_pa, zero());
            let twice = engine.flowing_point(math, &exit, whole(2) * inlet_pressure_pa, zero());
            &&& engine.steady(math, inlet_pressure_pa, zero()) == Ok::<EngineOperatingPoint, Fault>(point)
            &&& engine.steady(math, whole(2) * inlet_pressure_pa, zero()) == Ok::<EngineOperatingPoint, Fault>(twice)
            &&& twice.thrust_n == whole(2) * point.thrust_n
            &&& twice.mass_flow_kg_s == whole(2) * point.mass_flow_kg_s
            &&& twice.isp_s == point.isp_s
            &&& twice.exit_pressure_pa == whole(2) * point.exit_pressure_pa
        }),
{
    let p = inlet_pressure_pa;
    let exit_pa = exit.exit_pressure_ratio * p;
    let area = engine.throat_area_m2;
    let point = engine.flowing_point(math, &exit, p, zero());
    let cf = thrust_coefficient(
        math,
        &engine.thermo_ref(),
        p,
        &exit,
        engine.expansion_ratio,
        zero(),
        engine.divergence_factor,
    );
    lemma_one();
    lemma_parts(p);
    lemma_parts(zero());
    lemma_negate(zero());
    lemma_parts(zero().negate());
    lemma_double(p);
    lemma_parts(double(p));
    lemma_mul_double(exit.exit_pressure_ratio, p);
    lemma_double(exit_pa);
    lemma_parts(exit_pa);
    lemma_parts(double(exit_pa));
    lemma_add_zero(exit_pa, zero().negate());
    lemma_add_zero(double(exit_pa), zero().negate());
    lemma_div_double(exit_pa, p);
    let cf_twice = thrust_coefficient(
        math,
        &engine.thermo_ref(),
        double(p),
        &exit,
        engine.expansion_ratio,
        zero(),
        engine.divergence_factor,
    );
    assert(cf_twice == cf);
    lemma_mul_double(cf, p);
    lemma_mul_commutes(area, cf * p);
    lemma_mul_double(area, cf * p);
    lemma_double(cf * p);
    lemma_double(point.thrust_n);
    lemma_mul_commutes(area, p);
    lemma_mul_double(area, p);
    lemma_double(p * area);
    lemma_div_double(p * area, engine.c_star_mps);
    lemma_double(point.mass_flow_kg_s);
    reveal_with_fuel(pow, 6);
    lemma_decimal_between(980_665, 5, 0, 10);
    lemma_mul_commutes(standard_gravity_mps2(), point.mass_flow_kg_s);
    lemma_mul_double(standard_gravity_mps2(), point.mass_flow_kg_s);
    let weight = point.mass_flow_kg_s * standard_gravity_mps2();
    lemma_double(weight);
    lemma_parts(weight);
    lemma_div_double(point.thrust_n, weight);
}

/// Every component of one vector is the opposite of the other's.
pub open spec fn opposed(a: Vector, b: Vector) -> bool {
    mirrors(a.x, b.x, true) && mirrors(a.y, b.y, true) && mirrors(a.z, b.z, true)
}

/// Two vectors have the same components.
pub open spec fn same_vector(a: Vector, b: Vector) -> bool {
    a.x.same(b.x) && a.y.same(b.y) && a.z.same(b.z)
}

/// Two like thrusters at opposite stations, turned against each other and fired for
/// one time, deliver a pure couple: no force at all, and the moment of one twice over.
pub proof fn lemma_opposed_pair<M: Numerics>(
    cluster: &RcsCluster,
    math: &M,
    on_times_s: Seq<F64>,
    inlet_pressure_pa: F64,
    ambient_pa: F64,
    pulse: RcsPulse,
)
    requires
        cluster.fault() is None,
        cluster.mounts@.len() == 2,
        on_times_s.len() == 2,
        on_times_s[1] == on_times_s[0],
        cluster.mounts@[1].thruster == cluster.mounts@[0].thruster,
        opposed(cluster.mounts@[0].position_body_m, cluster.mounts@[1].position_body_m),
        opposed(cluster.mounts@[0].direction_body, cluster.mounts@[1].direction_body),
        cluster.mounts@[0].thruster.pulsed(math, on_times_s[0], inlet_pressure_pa, ambient_pa) == Ok::<RcsPulse, Fault>(
            pulse,
        ),
        pulse.impulse_ns.is_finite(),
        cluster.mounts@[0].direction_body.scaled(pulse.impulse_ns).is_finite(),
        couple_kept(cluster.mounts@[0].position_body_m, cluster.mounts@[0].direction_body.scaled(pulse.impulse_ns)),
    ensures
        ({
            let wrench = cluster.delivered(math, on_times_s, inlet_pressure_pa, ambient_pa);
            let mount = cluster.mounts@[0];
            let moment = mount.position_body_m.cross(mount.direction_body.scaled(pulse.impulse_ns));
            &&& wrench is Ok
            &&& same_vector(wrench->Ok_0.0, Vector::null())
            &&& same_vector(wrench->Ok_0.1, moment.plus(moment))
        }),
{
    let (a, b) = (cluster.mounts@[0], cluster.mounts@[1]);
    let impulse = pulse.impulse_ns;
    let start = (Vector::null(), Vector::null());
    let once = wrench_with(start, a.position_body_m, a.direction_body, impulse);
    let both = wrench_with(once, b.position_body_m, b.direction_body, impulse);
    assert(cluster.impulse_from(math, on_times_s, inlet_pressure_pa, ambient_pa, 2, both) == Ok::<
        (Vector, Vector),
        Fault,
    >(both));
    assert(cluster.impulse_from(math, on_times_s, inlet_pressure_pa, ambient_pa, 1, once) == Ok::<
        (Vector, Vector),
        Fault,
    >(both));
    reveal_with_fuel(mounts_fault, 3);
    let (push, back) = (a.direction_body.scaled(impulse), b.direction_body.scaled(impulse));
    let (arm, other) = (a.position_body_m, b.position_body_m);
    lemma_component(a.direction_body.x, b.direction_body.x, impulse);
    lemma_component(a.direction_body.y, b.direction_body.y, impulse);
    lemma_component(a.direction_body.z, b.direction_body.z, impulse);
    lemma_couple(arm.y, push.z, push.y, arm.z, other.y, back.z, back.y, other.z);
    lemma_couple(arm.z, push.x, push.z, arm.x, other.z, back.x, back.z, other.x);
    lemma_couple(arm.x, push.y, push.x, arm.y, other.x, back.y, back.x, other.y);
}

/// Two like thrusters at opposite stations, turned against each other and fired for one
/// share of the time, give a pure couple on average: no force at all, and the moment of
/// one twice over.
pub proof fn lemma_opposed_average<M: Numerics>(
    cluster: &RcsCluster,
    math: &M,
    duties: Seq<F64>,
    inlet_pressure_pa: F64,
    ambient_pa: F64,
    point: EngineOperatingPoint,
)
    requires
        cluster.fault() is None,
        cluster.mounts@.len() == 2,
        duties.len() == 2,
        duties[1] == duties[0],
        duty_fault(duties[0]) is None,
        cluster.mounts@[1].thruster == cluster.mounts@[0].thruster,
        opposed(cluster.mounts@[0].position_body_m, cluster.mounts@[1].position_body_m),
        opposed(cluster.mounts@[0].direction_body, cluster.mounts@[1].direction_body),
        cluster.mounts@[0].thruster.steady(math, inlet_pressure_pa, ambient_pa) == Ok::<EngineOperatingPoint, Fault>(point),
        (point.thrust_n * duties[0]).is_finite(),
        cluster.mounts@[0].direction_body.scaled(point.thrust_n * duties[0]).is_finite(),
        couple_kept(
            cluster.mounts@[0].position_body_m,
            cluster.mounts@[0].direction_body.scaled(point.thrust_n * duties[0]),
        ),
    ensures
        ({
            let wrench = cluster.average(math, duties, inlet_pressure_pa, ambient_pa);
            let mount = cluster.mounts@[0];
            let moment = mount.position_body_m.cross(mount.direction_body.scaled(point.thrust_n * duties[0]));
            &&& wrench is Ok
            &&& same_vector(wrench->Ok_0.0, Vector::null())
            &&& same_vector(wrench->Ok_0.1, moment.plus(moment))
        }),
{
    let (a, b) = (cluster.mounts@[0], cluster.mounts@[1]);
    let thrust = point.thrust_n * duties[0];
    let start = (Vector::null(), Vector::null());
    let once = wrench_with(start, a.position_body_m, a.direction_body, thrust);
    let both = wrench_with(once, b.position_body_m, b.direction_body, thrust);
    assert(cluster.wrench_from(math, duties, inlet_pressure_pa, ambient_pa, 2, both) == Ok::<(Vector, Vector), Fault>(
        both,
    ));
    assert(cluster.wrench_from(math, duties, inlet_pressure_pa, ambient_pa, 1, once) == Ok::<(Vector, Vector), Fault>(
        both,
    ));
    reveal_with_fuel(mounts_fault, 3);
    let (push, back) = (a.direction_body.scaled(thrust), b.direction_body.scaled(thrust));
    let (arm, other) = (a.position_body_m, b.position_body_m);
    lemma_component(a.direction_body.x, b.direction_body.x, thrust);
    lemma_component(a.direction_body.y, b.direction_body.y, thrust);
    lemma_component(a.direction_body.z, b.direction_body.z, thrust);
    lemma_couple(arm.y, push.z, push.y, arm.z, other.y, back.z, back.y, other.z);
    lemma_couple(arm.z, push.x, push.z, arm.x, other.z, back.x, back.z, other.x);
    lemma_couple(arm.x, push.y, push.x, arm.y, other.x, back.y, back.x, other.y);
}

/// No component of a moment, nor a part of one, overflows.
pub open spec fn couple_kept(arm: Vector, push: Vector) -> bool {
    &&& (arm.y * push.z).is_finite() && (push.y * arm.z).is_finite()
    &&& (arm.z * push.x).is_finite() && (push.z * arm.x).is_finite()
    &&& (arm.x * push.y).is_finite() && (push.x * arm.y).is_finite()
    &&& arm.cross(push).is_finite()
}

/// One component of the push of an opposed pair.
proof fn lemma_component(a: F64, b: F64, impulse: F64)
    requires
        a.is_finite(),
        b.is_finite(),
        impulse.is_finite(),
        (a * impulse).is_finite(),
        mirrors(a, b, true),
    ensures
        (b * impulse).is_finite(),
        mirrors(a * impulse, b * impulse, true),
        ((zero() + a * impulse) + b * impulse).same(zero()),
{
    lemma_one();
    lemma_product_mirrors(a, impulse, b, impulse, true, false);
    lemma_mirror_finite(a * impulse, b * impulse, true);
    let (x, y) = (a * impulse, b * impulse);
    lemma_parts(x);
    lemma_parts(y);
    lemma_parts(zero());
    lemma_add_commutes(zero(), x);
    lemma_add_zero(x, zero());
    assert(mag(0) == 0);
    lemma_sum_exact(zero() + x, y, 0);
    lemma_parts((zero() + x) + y);
}

/// One component of the moment of an opposed pair: `p * q - r * s` twice over.
proof fn lemma_couple(p: F64, q: F64, r: F64, s: F64, p2: F64, q2: F64, r2: F64, s2: F64)
    requires
        p.is_finite() && q.is_finite() && r.is_finite() && s.is_finite(),
        p2.is_finite() && q2.is_finite() && r2.is_finite() && s2.is_finite(),
        mirrors(p, p2, true) && mirrors(q, q2, true) && mirrors(r, r2, true) && mirrors(s, s2, true),
        (p * q).is_finite(),
        (r * s).is_finite(),
        (p * q - r * s).is_finite(),
    ensures
        ((zero() + (p * q - r * s)) + (p2 * q2 - r2 * s2)).same((p * q - r * s) + (p * q - r * s)),
{
    lemma_one();
    lemma_parts(zero());
    lemma_product_mirrors(p, q, p2, q2, true, true);
    lemma_product_mirrors(r, s, r2, s2, true, true);
    lemma_mirror_finite(p * q, p2 * q2, false);
    lemma_mirror_finite(r * s, r2 * s2, false);
    lemma_negate(r * s);
    lemma_negate(r2 * s2);
    lemma_sum_mirrors(p * q, (r * s).negate(), p2 * q2, (r2 * s2).negate(), false);
    let (m, n) = (p * q - r * s, p2 * q2 - r2 * s2);
    lemma_mirror_finite(m, n, false);
    lemma_add_commutes(zero(), m);
    lemma_add_zero(m, zero());
    lemma_sum_mirrors(m, m, zero() + m, n, false);
}

/// A cluster answers only as many on-times, or duties, as it has mounts.
pub proof fn lemma_cluster_arity<M: Numerics>(
    cluster: &RcsCluster,
    math: &M,
    values: Seq<F64>,
    inlet_pressure_pa: F64,
    ambient_pa: F64,
)
    requires
        values.len() != cluster.mounts@.len(),
    ensures
        cluster.delivered(math, values, inlet_pressure_pa, ambient_pa) is Err,
        cluster.average(math, values, inlet_pressure_pa, ambient_pa) is Err,
{
}

/// A gimbal without range has no authority: the force and moment of a command vanish
/// wherever those of a radian are finite.
pub proof fn lemma_fixed_gimbal(position_body_m: Vector, gimbal_axis: Vector, thrust_n: Vector, range_rad: F64)
    requires
        range_rad.same(zero()),
        gimbal_axis.cross(thrust_n).is_finite(),
        position_body_m.cross(gimbal_axis.cross(thrust_n)).is_finite(),
    ensures
        ({
            let effector = gimbal_effector(position_body_m, gimbal_axis, thrust_n, range_rad);
            let (force, moment) = (effector.force_per_command_n, effector.moment_per_command_nm);
            &&& effector.gimbal_axis == gimbal_axis
            &&& force.x.same(zero()) && force.y.same(zero()) && force.z.same(zero())
            &&& moment.x.same(zero()) && moment.y.same(zero()) && moment.z.same(zero())
        }),
{
    let force = gimbal_axis.cross(thrust_n);
    let moment = position_body_m.cross(force);
    lemma_vanishing(force.x, range_rad);
    lemma_vanishing(force.y, range_rad);
    lemma_vanishing(force.z, range_rad);
    lemma_vanishing(moment.x, range_rad);
    lemma_vanishing(moment.y, range_rad);
    lemma_vanishing(moment.z, range_rad);
}

} // verus!
