//! Force and moment of mounted thrusters.
use crate::error::Fault;
use crate::float::accuracy::{
    lemma_times_adds, lemma_times_associates, lemma_times_commutes, lemma_times_order, times, value,
};
use crate::float::{dec, whole, zero, F64};
use crate::float::errors::{allowance, close, lemma_times_difference, lemma_within_more, size, within};
use crate::float::tracking::{
    lemma_product_closes, lemma_tracks_exact_product, lemma_tracks_itself, lemma_tracks_product, lemma_tracks_sum,
    tracks, unlost,
};
use crate::laws::expansion::lemma_size_product;
use crate::mount::{gimbal_effector, gimbal_pair, EngineMount};
use crate::numerics::Numerics;
use crate::rcs::{wrench_with, RcsCluster};
use crate::vector::Vector;
use vstd::prelude::*;

verus! {

/// The terms of one component of a force, none of which is lost to underflow or overflow.
pub open spec fn push_unlost(before: F64, direction: F64, amount: F64) -> bool {
    &&& before.is_finite() && direction.is_finite()
    &&& unlost(direction, amount)
    &&& (before + direction * amount).is_finite()
}

/// The terms of one component of a moment, none of which is lost to underflow or overflow.
pub open spec fn turn_unlost(before: F64, a: F64, d: F64, e: F64, b: F64, amount: F64) -> bool {
    let (first, second) = (a * (d * amount), (e * amount) * b);
    &&& before.is_finite() && a.is_finite() && b.is_finite()
    &&& unlost(a, d * amount) && unlost(e * amount, b)
    &&& (first - second).is_finite() && (before + (first - second)).is_finite()
}

/// What a mount adds to a wrench, of which nothing is lost to underflow or overflow.
pub open spec fn mount_kept(wrench: (Vector, Vector), arm: Vector, direction: Vector, amount: F64) -> bool {
    let (f, m) = wrench;
    &&& amount.is_finite()
    &&& push_unlost(f.x, direction.x, amount)
    &&& push_unlost(f.y, direction.y, amount)
    &&& push_unlost(f.z, direction.z, amount)
    &&& turn_unlost(m.x, arm.y, direction.z, direction.y, arm.z, amount)
    &&& turn_unlost(m.y, arm.z, direction.x, direction.z, arm.x, amount)
    &&& turn_unlost(m.z, arm.x, direction.y, direction.x, arm.y, amount)
}

/// One component grew by `exact`, up to twenty roundings of the terms that bound it.
pub open spec fn grew(before: F64, after: F64, exact: real, scale: real) -> bool {
    size((value(after) - value(before)) - exact) <= times(size(value(before)) + scale, allowance(20))
}

/// A wrench grew by a push along `direction` and by its moment about the origin: about
/// each axis, the arm along the next axis times the push along the one after, less the
/// same turned around.
pub open spec fn pushed(
    before: (Vector, Vector),
    after: (Vector, Vector),
    arm: Vector,
    direction: Vector,
    amount: F64,
) -> bool {
    let n = value(amount);
    let (fx, fy, fz) = (times(value(direction.x), n), times(value(direction.y), n), times(value(direction.z), n));
    let (x, y, z) = (value(arm.x), value(arm.y), value(arm.z));
    &&& grew(before.0.x, after.0.x, fx, size(fx))
    &&& grew(before.0.y, after.0.y, fy, size(fy))
    &&& grew(before.0.z, after.0.z, fz, size(fz))
    &&& grew(before.1.x, after.1.x, times(y, fz) - times(fy, z), times(size(y), size(fz)) + times(size(fy), size(z)))
    &&& grew(before.1.y, after.1.y, times(z, fx) - times(fz, x), times(size(z), size(fx)) + times(size(fz), size(x)))
    &&& grew(before.1.z, after.1.z, times(x, fy) - times(fx, y), times(size(x), size(fy)) + times(size(fx), size(y)))
}

/// One component of a push.
proof fn lemma_push(before: F64, direction: F64, amount: F64)
    requires
        push_unlost(before, direction, amount),
        amount.is_finite(),
    ensures
        ({
            let exact = times(value(direction), value(amount));
            &&& tracks(direction * amount, exact, size(exact), 4)
            &&& grew(before, before + direction * amount, exact, size(exact))
        }),
{
    let exact = times(value(direction), value(amount));
    lemma_tracks_exact_product(direction, amount);
    lemma_tracks_itself(before);
    lemma_tracks_sum(before, direction * amount, value(before), exact, size(value(before)), size(exact), 0, 4);
    lemma_within_more(
        value(before + direction * amount),
        value(before) + exact,
        size(value(before)) + size(exact),
        8,
        size(value(before)) + size(exact),
        20,
    );
}

/// One component of a moment.
proof fn lemma_turn(before: F64, a: F64, d: F64, e: F64, b: F64, amount: F64)
    requires
        turn_unlost(before, a, d, e, b, amount),
        d.is_finite() && unlost(d, amount),
        e.is_finite() && unlost(e, amount),
        amount.is_finite(),
    ensures
        ({
            let (one, other) = (times(value(d), value(amount)), times(value(e), value(amount)));
            grew(
                before,
                before + (a * (d * amount) - (e * amount) * b),
                times(value(a), one) - times(other, value(b)),
                times(size(value(a)), size(one)) + times(size(other), size(value(b))),
            )
        }),
{
    let (one, other) = (times(value(d), value(amount)), times(value(e), value(amount)));
    let (first, second) = (a * (d * amount), (e * amount) * b);
    let (s, t) = (times(size(value(a)), size(one)), times(size(other), size(value(b))));
    lemma_tracks_exact_product(d, amount);
    lemma_tracks_exact_product(e, amount);
    lemma_tracks_itself(a);
    lemma_tracks_itself(b);
    lemma_tracks_itself(before);
    lemma_tracks_product(a, d * amount, value(a), one, size(value(a)), size(one), 0, 4);
    lemma_tracks_product(e * amount, b, other, value(b), size(other), size(value(b)), 4, 0);
    lemma_tracks_sum(first, second, times(value(a), one), times(other, value(b)), s, t, 8, 12);
    lemma_tracks_sum(
        before,
        first - second,
        value(before),
        times(value(a), one) - times(other, value(b)),
        size(value(before)),
        s + t,
        0,
        16,
    );
}

/// A mount adds its push to the force, and the arm crossed with its push to the moment.
pub proof fn lemma_mount_pushes(wrench: (Vector, Vector), arm: Vector, direction: Vector, amount: F64)
    requires
        mount_kept(wrench, arm, direction, amount),
    ensures
        pushed(wrench, wrench_with(wrench, arm, direction, amount), arm, direction, amount),
{
    let (f, m) = wrench;
    lemma_push(f.x, direction.x, amount);
    lemma_push(f.y, direction.y, amount);
    lemma_push(f.z, direction.z, amount);
    lemma_turn(m.x, arm.y, direction.z, direction.y, arm.z, amount);
    lemma_turn(m.y, arm.z, direction.x, direction.z, arm.x, amount);
    lemma_turn(m.z, arm.x, direction.y, direction.x, arm.y, amount);
}

/// A cluster with one mount more.
pub open spec fn one_more(less: &RcsCluster, more: &RcsCluster) -> bool {
    &&& more.mounts@.len() == less.mounts@.len() + 1
    &&& more.mounts@.drop_last() == less.mounts@
}

/// The wrench of the mounts of the lesser cluster, then of the last.
proof fn lemma_wrench_from<M: Numerics>(
    less: &RcsCluster,
    more: &RcsCluster,
    math: &M,
    duties: Seq<F64>,
    inlet_pressure_pa: F64,
    ambient_pa: F64,
    i: int,
    wrench: (Vector, Vector),
)
    requires
        one_more(less, more),
        duties.len() == more.mounts@.len(),
        0 <= i <= less.mounts@.len(),
        more.wrench_from(math, duties, inlet_pressure_pa, ambient_pa, i, wrench) is Ok,
    ensures
        ({
            let last = more.mounts@.last();
            let part = less.wrench_from(math, duties.drop_last(), inlet_pressure_pa, ambient_pa, i, wrench);
            let point = last.thruster.steady(math, inlet_pressure_pa, ambient_pa);
            &&& part is Ok
            &&& point is Ok
            &&& more.wrench_from(math, duties, inlet_pressure_pa, ambient_pa, i, wrench) == Ok::<
                (Vector, Vector),
                Fault,
            >(
                wrench_with(part->Ok_0, last.position_body_m, last.direction_body, point->Ok_0.thrust_n * duties.last()),
            )
        }),
    decreases less.mounts@.len() - i,
{
    let n = less.mounts@.len() as int;
    let mount = more.mounts@[i];
    let point = mount.thruster.steady(math, inlet_pressure_pa, ambient_pa);
    let next = wrench_with(wrench, mount.position_body_m, mount.direction_body, point->Ok_0.thrust_n * duties[i]);
    if i < n {
        assert(less.mounts@[i] == more.mounts@.drop_last()[i]);
        assert(duties.drop_last()[i] == duties[i]);
        lemma_wrench_from(less, more, math, duties, inlet_pressure_pa, ambient_pa, i + 1, next);
    } else {
        assert(more.wrench_from(math, duties, inlet_pressure_pa, ambient_pa, n + 1, next) == Ok::<
            (Vector, Vector),
            Fault,
        >(next));
    }
}

/// The average wrench of a cluster is the sum over its mounts: a mount more adds its
/// steady thrust, for the share of time that it fires, to the force, and its arm crossed
/// with that push to the moment.
pub proof fn lemma_average_adds<M: Numerics>(
    less: &RcsCluster,
    more: &RcsCluster,
    math: &M,
    duties: Seq<F64>,
    inlet_pressure_pa: F64,
    ambient_pa: F64,
)
    requires
        one_more(less, more),
        less.fault() is None,
        more.average(math, duties, inlet_pressure_pa, ambient_pa) is Ok,
    ensures
        ({
            let (whole, part) = (
                more.average(math, duties, inlet_pressure_pa, ambient_pa),
                less.average(math, duties.drop_last(), inlet_pressure_pa, ambient_pa),
            );
            let last = more.mounts@.last();
            let point = last.thruster.steady(math, inlet_pressure_pa, ambient_pa);
            let amount = point->Ok_0.thrust_n * duties.last();
            &&& part is Ok
            &&& point is Ok
            &&& mount_kept(part->Ok_0, last.position_body_m, last.direction_body, amount) ==> pushed(
                part->Ok_0,
                whole->Ok_0,
                last.position_body_m,
                last.direction_body,
                amount,
            )
        }),
{
    let start = (Vector::null(), Vector::null());
    lemma_wrench_from(less, more, math, duties, inlet_pressure_pa, ambient_pa, 0, start);
    let part = less.average(math, duties.drop_last(), inlet_pressure_pa, ambient_pa);
    let last = more.mounts@.last();
    let point = last.thruster.steady(math, inlet_pressure_pa, ambient_pa);
    let amount = point->Ok_0.thrust_n * duties.last();
    if mount_kept(part->Ok_0, last.position_body_m, last.direction_body, amount) {
        lemma_mount_pushes(part->Ok_0, last.position_body_m, last.direction_body, amount);
    }
}

/// A single mount gives its push, and its moment is its arm crossed with that push.
pub proof fn lemma_single_average<M: Numerics>(
    cluster: &RcsCluster,
    math: &M,
    duty: F64,
    inlet_pressure_pa: F64,
    ambient_pa: F64,
)
    requires
        cluster.mounts@.len() == 1,
        cluster.average(math, seq![duty], inlet_pressure_pa, ambient_pa) is Ok,
    ensures
        ({
            let (start, mount) = ((Vector::null(), Vector::null()), cluster.mounts@[0]);
            let point = mount.thruster.steady(math, inlet_pressure_pa, ambient_pa);
            let amount = point->Ok_0.thrust_n * duty;
            &&& point is Ok
            &&& mount_kept(start, mount.position_body_m, mount.direction_body, amount) ==> pushed(
                start,
                cluster.average(math, seq![duty], inlet_pressure_pa, ambient_pa)->Ok_0,
                mount.position_body_m,
                mount.direction_body,
                amount,
            )
        }),
{
    let (start, mount) = ((Vector::null(), Vector::null()), cluster.mounts@[0]);
    let point = mount.thruster.steady(math, inlet_pressure_pa, ambient_pa);
    let amount = point->Ok_0.thrust_n * duty;
    let duties = seq![duty];
    assert(duties[0] == duty);
    let whole = wrench_with(start, mount.position_body_m, mount.direction_body, amount);
    assert(cluster.wrench_from(math, duties, inlet_pressure_pa, ambient_pa, 1, whole) == Ok::<(Vector, Vector), Fault>(
        whole,
    ));
    if mount_kept(start, mount.position_body_m, mount.direction_body, amount) {
        lemma_mount_pushes(start, mount.position_body_m, mount.direction_body, amount);
    }
}

/// The impulse of the mounts of the lesser cluster, then of the last.
proof fn lemma_impulse_from<M: Numerics>(
    less: &RcsCluster,
    more: &RcsCluster,
    math: &M,
    on_times_s: Seq<F64>,
    inlet_pressure_pa: F64,
    ambient_pa: F64,
    i: int,
    wrench: (Vector, Vector),
)
    requires
        one_more(less, more),
        on_times_s.len() == more.mounts@.len(),
        0 <= i <= less.mounts@.len(),
        more.impulse_from(math, on_times_s, inlet_pressure_pa, ambient_pa, i, wrench) is Ok,
    ensures
        ({
            let last = more.mounts@.last();
            let part = less.impulse_from(math, on_times_s.drop_last(), inlet_pressure_pa, ambient_pa, i, wrench);
            let pulse = last.thruster.pulsed(math, on_times_s.last(), inlet_pressure_pa, ambient_pa);
            &&& part is Ok
            &&& pulse is Ok
            &&& more.impulse_from(math, on_times_s, inlet_pressure_pa, ambient_pa, i, wrench) == Ok::<
                (Vector, Vector),
                Fault,
            >(wrench_with(part->Ok_0, last.position_body_m, last.direction_body, pulse->Ok_0.impulse_ns))
        }),
    decreases less.mounts@.len() - i,
{
    let n = less.mounts@.len() as int;
    let mount = more.mounts@[i];
    let pulse = mount.thruster.pulsed(math, on_times_s[i], inlet_pressure_pa, ambient_pa);
    let next = wrench_with(wrench, mount.position_body_m, mount.direction_body, pulse->Ok_0.impulse_ns);
    if i < n {
        assert(less.mounts@[i] == more.mounts@.drop_last()[i]);
        assert(on_times_s.drop_last()[i] == on_times_s[i]);
        lemma_impulse_from(less, more, math, on_times_s, inlet_pressure_pa, ambient_pa, i + 1, next);
    } else {
        assert(more.impulse_from(math, on_times_s, inlet_pressure_pa, ambient_pa, n + 1, next) == Ok::<
            (Vector, Vector),
            Fault,
        >(next));
    }
}

/// The impulse of a cluster is the sum over its mounts: a mount more adds the impulse of
/// its pulse along its direction, and its arm crossed with that to the moment impulse.
pub proof fn lemma_impulse_adds<M: Numerics>(
    less: &RcsCluster,
    more: &RcsCluster,
    math: &M,
    on_times_s: Seq<F64>,
    inlet_pressure_pa: F64,
    ambient_pa: F64,
)
    requires
        one_more(less, more),
        less.fault() is None,
        more.delivered(math, on_times_s, inlet_pressure_pa, ambient_pa) is Ok,
    ensures
        ({
            let (whole, part) = (
                more.delivered(math, on_times_s, inlet_pressure_pa, ambient_pa),
                less.delivered(math, on_times_s.drop_last(), inlet_pressure_pa, ambient_pa),
            );
            let last = more.mounts@.last();
            let pulse = last.thruster.pulsed(math, on_times_s.last(), inlet_pressure_pa, ambient_pa);
            &&& part is Ok
            &&& pulse is Ok
            &&& mount_kept(part->Ok_0, last.position_body_m, last.direction_body, pulse->Ok_0.impulse_ns) ==> pushed(
                part->Ok_0,
                whole->Ok_0,
                last.position_body_m,
                last.direction_body,
                pulse->Ok_0.impulse_ns,
            )
        }),
{
    let start = (Vector::null(), Vector::null());
    lemma_impulse_from(less, more, math, on_times_s, inlet_pressure_pa, ambient_pa, 0, start);
    let part = less.delivered(math, on_times_s.drop_last(), inlet_pressure_pa, ambient_pa);
    let last = more.mounts@.last();
    let pulse = last.thruster.pulsed(math, on_times_s.last(), inlet_pressure_pa, ambient_pa);
    if mount_kept(part->Ok_0, last.position_body_m, last.direction_body, pulse->Ok_0.impulse_ns) {
        lemma_mount_pushes(part->Ok_0, last.position_body_m, last.direction_body, pulse->Ok_0.impulse_ns);
    }
}

/// One component of a cross product, no term of which is lost to underflow or overflow.
pub open spec fn part_unlost(a: F64, b: F64, c: F64, d: F64) -> bool {
    &&& a.is_finite() && b.is_finite() && c.is_finite() && d.is_finite()
    &&& unlost(a, b) && unlost(c, d) && (a * b - c * d).is_finite()
}

/// A cross product, no term of which is lost to underflow or overflow.
pub open spec fn cross_unlost(a: Vector, b: Vector) -> bool {
    &&& part_unlost(a.y, b.z, b.y, a.z)
    &&& part_unlost(a.z, b.x, b.z, a.x)
    &&& part_unlost(a.x, b.y, b.x, a.y)
}

/// One component of the exact cross product of vectors.
pub open spec fn part(a: real, b: real, c: real, d: real) -> real {
    times(a, b) - times(c, d)
}

/// What bounds the terms of such a component.
pub open spec fn part_scale(a: real, b: real, c: real, d: real) -> real {
    times(size(a), size(b)) + times(size(c), size(d))
}

/// One component of a cross product, as it is calculated from factors that stray.
proof fn lemma_part(a: F64, b: F64, c: F64, d: F64, x: real, y: real, s: real, t: real, k: nat)
    requires
        part_unlost(a, b, c, d),
        tracks(b, x, s, k),
        tracks(c, y, t, k),
        k <= 20,
    ensures
        tracks(
            a * b - c * d,
            times(value(a), x) - times(y, value(d)),
            times(size(value(a)), s) + times(t, size(value(d))),
            2 * k + 8,
        ),
{
    lemma_tracks_itself(a);
    lemma_tracks_itself(d);
    lemma_tracks_product(a, b, value(a), x, size(value(a)), s, 0, k);
    lemma_tracks_product(c, d, y, value(d), t, size(value(d)), k, 0);
    lemma_tracks_sum(
        a * b,
        c * d,
        times(value(a), x),
        times(y, value(d)),
        times(size(value(a)), s),
        times(t, size(value(d))),
        k + 4,
        2 * k + 4,
    );
}

/// A gimbal's terms, none of which is lost to underflow or overflow.
pub open spec fn gimbal_unlost(arm: Vector, axis: Vector, thrust: Vector, range: F64) -> bool {
    let force = axis.cross(thrust);
    let moment = arm.cross(force);
    &&& cross_unlost(axis, thrust) && cross_unlost(arm, force) && range.is_finite()
    &&& unlost(force.x, range) && unlost(force.y, range) && unlost(force.z, range)
    &&& unlost(moment.x, range) && unlost(moment.y, range) && unlost(moment.z, range)
}

/// One component of a command's effect: `exact` a radian, times the range.
pub open spec fn commanded(effect: F64, exact: real, scale: real, range: F64, k: nat) -> bool {
    size(value(effect) - times(exact, value(range))) <= times(times(scale, size(value(range))), allowance(k))
}

/// Turning the thrust about a gimbal axis gives, for a radian, the axis crossed with the
/// thrust, and about the origin the arm crossed with that; a command is the range's multiple
/// of both. The force holds up to twenty roundings of its terms, and the moment up to
/// fifty-two.
pub proof fn lemma_gimbal_turns(arm: Vector, axis: Vector, thrust: Vector, range: F64)
    requires
        gimbal_unlost(arm, axis, thrust, range),
    ensures
        ({
            let effector = gimbal_effector(arm, axis, thrust, range);
            let (force, moment) = (effector.force_per_command_n, effector.moment_per_command_nm);
            let (ax, ay, az) = (value(axis.x), value(axis.y), value(axis.z));
            let (tx, ty, tz) = (value(thrust.x), value(thrust.y), value(thrust.z));
            let (x, y, z) = (value(arm.x), value(arm.y), value(arm.z));
            let (fx, fy, fz) = (part(ay, tz, ty, az), part(az, tx, tz, ax), part(ax, ty, tx, ay));
            let (sx, sy, sz) = (
                part_scale(ay, tz, ty, az),
                part_scale(az, tx, tz, ax),
                part_scale(ax, ty, tx, ay),
            );
            &&& commanded(force.x, fx, sx, range, 20)
            &&& commanded(force.y, fy, sy, range, 20)
            &&& commanded(force.z, fz, sz, range, 20)
            &&& commanded(moment.x, part(y, fz, fy, z), times(size(y), sz) + times(sy, size(z)), range, 52)
            &&& commanded(moment.y, part(z, fx, fz, x), times(size(z), sx) + times(sz, size(x)), range, 52)
            &&& commanded(moment.z, part(x, fy, fx, y), times(size(x), sy) + times(sx, size(y)), range, 52)
        }),
{
    let force = axis.cross(thrust);
    let moment = arm.cross(force);
    let (ax, ay, az) = (value(axis.x), value(axis.y), value(axis.z));
    let (tx, ty, tz) = (value(thrust.x), value(thrust.y), value(thrust.z));
    let (x, y, z) = (value(arm.x), value(arm.y), value(arm.z));
    let (fx, fy, fz) = (part(ay, tz, ty, az), part(az, tx, tz, ax), part(ax, ty, tx, ay));
    let (sx, sy, sz) = (part_scale(ay, tz, ty, az), part_scale(az, tx, tz, ax), part_scale(ax, ty, tx, ay));
    lemma_tracks_itself(thrust.x);
    lemma_tracks_itself(thrust.y);
    lemma_tracks_itself(thrust.z);
    lemma_tracks_itself(range);
    lemma_part(axis.y, thrust.z, thrust.y, axis.z, tz, ty, size(tz), size(ty), 0);
    lemma_part(axis.z, thrust.x, thrust.z, axis.x, tx, tz, size(tx), size(tz), 0);
    lemma_part(axis.x, thrust.y, thrust.x, axis.y, ty, tx, size(ty), size(tx), 0);
    let r = value(range);
    lemma_tracks_product(force.x, range, fx, r, sx, size(r), 8, 0);
    lemma_tracks_product(force.y, range, fy, r, sy, size(r), 8, 0);
    lemma_tracks_product(force.z, range, fz, r, sz, size(r), 8, 0);
    lemma_part(arm.y, force.z, force.y, arm.z, fz, fy, sz, sy, 8);
    lemma_part(arm.z, force.x, force.z, arm.x, fx, fz, sx, sz, 8);
    lemma_part(arm.x, force.y, force.x, arm.y, fy, fx, sy, sx, 8);
    lemma_tracks_product(
        moment.x,
        range,
        part(y, fz, fy, z),
        r,
        times(size(y), sz) + times(sy, size(z)),
        size(r),
        24,
        0,
    );
    lemma_tracks_product(
        moment.y,
        range,
        part(z, fx, fz, x),
        r,
        times(size(z), sx) + times(sz, size(x)),
        size(r),
        24,
        0,
    );
    lemma_tracks_product(
        moment.z,
        range,
        part(x, fy, fx, y),
        r,
        times(size(x), sy) + times(sx, size(y)),
        size(r),
        24,
        0,
    );
}

/// A cross product brought to unit length, no term of which is lost to underflow or
/// overflow.
pub open spec fn normal_unlost(a: Vector, b: Vector) -> bool {
    let cross = a.cross(b);
    let share = whole(1) / cross.length();
    &&& cross_unlost(a, b) && share.is_finite()
    &&& unlost(cross.x, share) && unlost(cross.y, share) && unlost(cross.z, share)
}

/// A vector stands upright on another: their products along the axes cancel, up to twenty
/// roundings of `scale`.
pub open spec fn upright(a: Vector, n: Vector, scale: real) -> bool {
    size(
        times(value(a.x), value(n.x)) + times(value(a.y), value(n.y)) + times(value(a.z), value(n.z)),
    ) <= times(scale, allowance(20))
}

/// What bounds the terms of a vector along a cross product of unit length.
pub open spec fn upright_scale(v: Vector, a: Vector, b: Vector, share: real) -> real {
    let (ax, ay, az) = (value(a.x), value(a.y), value(a.z));
    let (bx, by, bz) = (value(b.x), value(b.y), value(b.z));
    times(times(size(value(v.x)), part_scale(ay, bz, by, az)), share) + times(
        times(size(value(v.y)), part_scale(az, bx, bz, ax)),
        share,
    ) + times(times(size(value(v.z)), part_scale(ax, by, bx, ay)), share)
}

/// A product along an axis with a component that strays.
proof fn lemma_along(v: real, n: real, exact: real, scale: real, share: real)
    requires
        within(n, times(exact, share), times(scale, size(share)), 20),
    ensures
        size(times(v, n) - times(times(v, exact), share)) <= times(
            times(times(size(v), scale), size(share)),
            allowance(20),
        ),
{
    lemma_times_associates(v, exact, share);
    lemma_times_difference(n, times(exact, share), v);
    lemma_times_commutes(v, n);
    lemma_times_commutes(v, times(exact, share));
    let off = n - times(exact, share);
    lemma_times_commutes(off, v);
    lemma_size_product(v, off);
    let bound = times(times(scale, size(share)), allowance(20));
    lemma_times_order(size(off), bound, size(v));
    lemma_times_associates(size(v), times(scale, size(share)), allowance(20));
    lemma_times_associates(size(v), scale, size(share));
}

/// A cross product of unit length stands upright on both its factors.
pub proof fn lemma_cross_upright(a: Vector, b: Vector)
    requires
        normal_unlost(a, b),
    ensures
        ({
            let share = size(value(whole(1) / a.cross(b).length()));
            &&& upright(a, a.cross(b).normalized(), upright_scale(a, a, b, share))
            &&& upright(b, a.cross(b).normalized(), upright_scale(b, a, b, share))
        }),
{
    let cross = a.cross(b);
    let unit = whole(1) / cross.length();
    let n = cross.scaled(unit);
    let share = value(unit);
    let (ax, ay, az) = (value(a.x), value(a.y), value(a.z));
    let (bx, by, bz) = (value(b.x), value(b.y), value(b.z));
    let (cx, cy, cz) = (part(ay, bz, by, az), part(az, bx, bz, ax), part(ax, by, bx, ay));
    let (sx, sy, sz) = (part_scale(ay, bz, by, az), part_scale(az, bx, bz, ax), part_scale(ax, by, bx, ay));
    lemma_tracks_itself(b.x);
    lemma_tracks_itself(b.y);
    lemma_tracks_itself(b.z);
    lemma_tracks_itself(unit);
    lemma_part(a.y, b.z, b.y, a.z, bz, by, size(bz), size(by), 0);
    lemma_part(a.z, b.x, b.z, a.x, bx, bz, size(bx), size(bz), 0);
    lemma_part(a.x, b.y, b.x, a.y, by, bx, size(by), size(bx), 0);
    lemma_tracks_product(cross.x, unit, cx, share, sx, size(share), 8, 0);
    lemma_tracks_product(cross.y, unit, cy, share, sy, size(share), 8, 0);
    lemma_tracks_product(cross.z, unit, cz, share, sz, size(share), 8, 0);
    lemma_along(ax, value(n.x), cx, sx, share);
    lemma_along(ay, value(n.y), cy, sy, share);
    lemma_along(az, value(n.z), cz, sz, share);
    lemma_along(bx, value(n.x), cx, sx, share);
    lemma_along(by, value(n.y), cy, sy, share);
    lemma_along(bz, value(n.z), cz, sz, share);
    lemma_upright_exact(ax, ay, az, bx, by, bz);
    // The exact terms cancel.
    lemma_times_adds(times(ax, cx), times(ay, cy), share);
    lemma_times_adds(times(ax, cx) + times(ay, cy), times(az, cz), share);
    lemma_times_adds(times(bx, cx), times(by, cy), share);
    lemma_times_adds(times(bx, cx) + times(by, cy), times(bz, cz), share);
    lemma_times_adds(0 as real, 0 as real, share);
    let (px, py, pz) = (
        times(times(size(ax), sx), size(share)),
        times(times(size(ay), sy), size(share)),
        times(times(size(az), sz), size(share)),
    );
    lemma_times_adds(px, py, allowance(20));
    lemma_times_adds(px + py, pz, allowance(20));
    let (qx, qy, qz) = (
        times(times(size(bx), sx), size(share)),
        times(times(size(by), sy), size(share)),
        times(times(size(bz), sz), size(share)),
    );
    lemma_times_adds(qx, qy, allowance(20));
    lemma_times_adds(qx + qy, qz, allowance(20));
}

/// The exact cross product stands upright on both its factors.
proof fn lemma_upright_exact(ax: real, ay: real, az: real, bx: real, by: real, bz: real)
    ensures
        times(ax, part(ay, bz, by, az)) + times(ay, part(az, bx, bz, ax)) + times(az, part(ax, by, bx, ay)) == (
        0 as real),
        times(bx, part(ay, bz, by, az)) + times(by, part(az, bx, bz, ax)) + times(bz, part(ax, by, bx, ay)) == (
        0 as real),
{
    lemma_spread_part(ax, ay, bz, by, az);
    lemma_spread_part(ay, az, bx, bz, ax);
    lemma_spread_part(az, ax, by, bx, ay);
    lemma_turned_product(ax, ay, bz);
    lemma_turned_product(ax, by, az);
    lemma_turned_product(ay, az, bx);
    lemma_spread_part(bx, ay, bz, by, az);
    lemma_spread_part(by, az, bx, bz, ax);
    lemma_spread_part(bz, ax, by, bx, ay);
    lemma_turned_product(bx, ay, bz);
    lemma_turned_product(bx, by, az);
    lemma_turned_product(by, bz, ax);
}

/// A multiple of a component.
proof fn lemma_spread_part(x: real, a: real, b: real, c: real, d: real)
    ensures
        times(x, part(a, b, c, d)) == times(x, times(a, b)) - times(x, times(c, d)),
{
    lemma_times_difference(times(a, b), times(c, d), x);
    lemma_times_commutes(x, times(a, b));
    lemma_times_commutes(x, times(c, d));
    lemma_times_commutes(x, part(a, b, c, d));
}

/// A product of three, turned round.
proof fn lemma_turned_product(a: real, b: real, c: real)
    ensures
        times(a, times(b, c)) == times(b, times(c, a)),
        times(a, times(b, c)) == times(c, times(a, b)),
{
    lemma_times_commutes(a, times(b, c));
    lemma_times_associates(b, c, a);
    lemma_times_associates(a, b, c);
    lemma_times_commutes(times(a, b), c);
}

/// The body axis that lies well off a thrust axis.
pub open spec fn off_axis(axis: Vector) -> Vector {
    if axis.x.abs() < dec(9, 1) {
        Vector { x: whole(1), y: zero(), z: zero() }
    } else {
        Vector { x: zero(), y: whole(1), z: zero() }
    }
}

/// The two gimbal axes of a mount stand upright on its thrust axis and on each other, and
/// each effector turns the thrust about its own axis.
pub proof fn lemma_gimbal_axes(arm: Vector, axis: Vector, thrust: Vector, range: F64)
    requires
        normal_unlost(axis, off_axis(axis)),
        normal_unlost(axis, gimbal_pair(arm, axis, thrust, range).0.gimbal_axis),
    ensures
        ({
            let (first, second) = gimbal_pair(arm, axis, thrust, range);
            let (a, b, off) = (first.gimbal_axis, second.gimbal_axis, off_axis(axis));
            let (one, other) = (
                size(value(whole(1) / axis.cross(off).length())),
                size(value(whole(1) / axis.cross(a).length())),
            );
            &&& first == gimbal_effector(arm, a, thrust, range)
            &&& second == gimbal_effector(arm, b, thrust, range)
            &&& upright(axis, a, upright_scale(axis, axis, off, one))
            &&& upright(axis, b, upright_scale(axis, axis, a, other))
            &&& upright(a, b, upright_scale(a, axis, a, other))
        }),
{
    lemma_cross_upright(axis, off_axis(axis));
    lemma_cross_upright(axis, gimbal_pair(arm, axis, thrust, range).0.gimbal_axis);
}

/// The thrust of a mount points along its axis, with the size of its engine's thrust.
pub proof fn lemma_mount_axis<M: Numerics>(
    mount: &EngineMount,
    math: &M,
    throttle: F64,
    ambient_pa: F64,
    burn_time_s: F64,
)
    requires
        mount.thrust_vector(math, throttle, ambient_pa, burn_time_s) is Ok,
    ensures
        ({
            let thrust = mount.thrust_vector(math, throttle, ambient_pa, burn_time_s)->Ok_0;
            let point = mount.engine.point(math, throttle, ambient_pa, burn_time_s);
            let axis = mount.thrust_axis_body;
            let f = point->Ok_0.thrust_n;
            &&& point is Ok
            &&& unlost(axis.x, f) && f.is_finite() ==> close(value(thrust.x), times(value(axis.x), value(f)))
            &&& unlost(axis.y, f) && f.is_finite() ==> close(value(thrust.y), times(value(axis.y), value(f)))
            &&& unlost(axis.z, f) && f.is_finite() ==> close(value(thrust.z), times(value(axis.z), value(f)))
        }),
{
    let axis = mount.thrust_axis_body;
    let f = mount.engine.point(math, throttle, ambient_pa, burn_time_s)->Ok_0.thrust_n;
    if unlost(axis.x, f) && f.is_finite() {
        lemma_product_closes(axis.x, f);
    }
    if unlost(axis.y, f) && f.is_finite() {
        lemma_product_closes(axis.y, f);
    }
    if unlost(axis.z, f) && f.is_finite() {
        lemma_product_closes(axis.z, f);
    }
}

} // verus!
