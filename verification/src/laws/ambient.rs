//! What ambient pressure takes from a nozzle: its push on the exit area.
use crate::engine::{CompiledEngine, EngineOperatingPoint};
use crate::error::Fault;
use crate::float::accuracy::{
    amount, lemma_amount, lemma_normal, lemma_over, lemma_times_adds, lemma_times_associates, lemma_times_commutes,
    lemma_times_one, lemma_times_order, lemma_times_positive, lemma_value_order, lemma_zero_value, normal, over,
    times, value,
};
use crate::float::errors::{
    allowance, lemma_allowance, lemma_difference_close, lemma_product_close, lemma_quotient_close,
    lemma_quotient_share, lemma_sum_close, lemma_times_difference, lemma_within_divided, lemma_within_more,
    lemma_within_rounded, lemma_within_same, lemma_within_scaled, lemma_within_sum, precise, size, within,
};
use crate::float::{lemma_one, whole, zero, F64};
use crate::float::nearness::lemma_parts;
use crate::laws::linear::momentum;
use crate::nozzle::NozzleContour;
use crate::numerics::Numerics;
use crate::solid::CompiledSolid;
use vstd::prelude::*;

verus! {

/// A nozzle of positive figures that, against an ambient pressure, loses nothing to
/// underflow or overflow: every step to its thrust keeps full precision, or has nothing
/// to keep.
pub open spec fn push_kept(
    push: F64,
    ratio: F64,
    expansion_ratio: F64,
    chamber_pa: F64,
    area: F64,
    ambient_pa: F64,
) -> bool {
    let exit_pa = ratio * chamber_pa;
    let difference = exit_pa - ambient_pa;
    let share = difference / chamber_pa;
    let cf = push + share * expansion_ratio;
    &&& amount(push) && amount(ambient_pa)
    &&& normal(exit_pa) && normal(chamber_pa)
    &&& amount(expansion_ratio) && expansion_ratio > zero()
    &&& amount(area) && area > zero()
    &&& difference.is_finite()
    &&& precise(share) || difference.units() == 0
    &&& precise(share * expansion_ratio) || share.units() == 0
    &&& cf.is_finite()
    &&& precise(cf * chamber_pa) || cf.units() == 0
    &&& precise(cf * chamber_pa * area) || (cf * chamber_pa).units() == 0
}

/// The thrust of a nozzle against an ambient pressure.
pub open spec fn nozzle_thrust(
    push: F64,
    ratio: F64,
    expansion_ratio: F64,
    chamber_pa: F64,
    area: F64,
    ambient_pa: F64,
) -> F64 {
    (push + (ratio * chamber_pa - ambient_pa) / chamber_pa * expansion_ratio) * chamber_pa * area
}

/// The same over the reals, for an exit pressure.
spec fn ideal_thrust(m: real, exit: real, p: real, c: real, e: real, a: real) -> real {
    times(times(m + times(over(exit - p, c), e), c), a)
}

/// A thrust strays from the ideal one by no more than twenty-four roundings.
proof fn lemma_thrust_strays(push: F64, ratio: F64, expansion_ratio: F64, chamber_pa: F64, area: F64, ambient_pa: F64)
    requires
        push_kept(push, ratio, expansion_ratio, chamber_pa, area, ambient_pa),
    ensures
        ({
            let exit = value(ratio * chamber_pa);
            let (m, p, c, e, a) = (
                value(push),
                value(ambient_pa),
                value(chamber_pa),
                value(expansion_ratio),
                value(area),
            );
            &&& within(
                value(nozzle_thrust(push, ratio, expansion_ratio, chamber_pa, area, ambient_pa)),
                ideal_thrust(m, exit, p, c, e, a),
                ideal_thrust(m, exit, -p, c, e, a),
                24,
            )
            &&& m >= (0 as real) && p >= (0 as real) && exit > (0 as real)
            &&& c > (0 as real) && e > (0 as real) && a > (0 as real)
        }),
{
    let exit_pa = ratio * chamber_pa;
    let d = exit_pa - ambient_pa;
    let q = d / chamber_pa;
    let pressure = q * expansion_ratio;
    let cf = push + pressure;
    lemma_one();
    lemma_normal(exit_pa);
    lemma_normal(chamber_pa);
    lemma_parts(expansion_ratio);
    lemma_value_order(expansion_ratio, expansion_ratio);
    lemma_parts(area);
    lemma_value_order(area, area);
    lemma_amount(push);
    lemma_amount(ambient_pa);
    lemma_parts(push);
    let (m, p, c, e, a) = (value(push), value(ambient_pa), value(chamber_pa), value(expansion_ratio), value(area));
    let exit = value(exit_pa);
    lemma_within_same(exit - p, exit + p);
    lemma_difference_close(exit_pa, ambient_pa);
    lemma_within_rounded(value(d), exit - p, exit - p, exit + p, 0);
    lemma_within_divided(value(d), exit - p, exit + p, 4, c);
    lemma_quotient_close(d, chamber_pa);
    lemma_within_rounded(value(q), over(value(d), c), over(exit - p, c), over(exit + p, c), 4);
    lemma_within_scaled(value(q), over(exit - p, c), over(exit + p, c), 8, e);
    lemma_product_close(q, expansion_ratio);
    let (y, s) = (times(over(exit - p, c), e), times(over(exit + p, c), e));
    lemma_within_rounded(value(pressure), times(value(q), e), y, s, 8);
    lemma_within_same(m, m);
    lemma_within_more(m, m, m, 0, m, 12);
    lemma_within_sum(m, m, value(pressure), y, m, s, 12);
    lemma_sum_close(push, pressure);
    lemma_within_rounded(value(cf), m + value(pressure), m + y, m + s, 12);
    lemma_within_scaled(value(cf), m + y, m + s, 16, c);
    lemma_product_close(cf, chamber_pa);
    lemma_within_rounded(value(cf * chamber_pa), times(value(cf), c), times(m + y, c), times(m + s, c), 16);
    lemma_within_scaled(value(cf * chamber_pa), times(m + y, c), times(m + s, c), 20, a);
    lemma_product_close(cf * chamber_pa, area);
    lemma_within_rounded(
        value(cf * chamber_pa * area),
        times(value(cf * chamber_pa), a),
        times(times(m + y, c), a),
        times(times(m + s, c), a),
        20,
    );
    assert(exit - (-p) == exit + p);
}

/// What ambient pressure takes from a nozzle's thrust is its push on the exit area, to
/// within ninety-six roundings of the vacuum thrust and that push together.
proof fn lemma_ambient_push(push: F64, ratio: F64, expansion_ratio: F64, chamber_pa: F64, area: F64, ambient_pa: F64)
    requires
        push_kept(push, ratio, expansion_ratio, chamber_pa, area, zero()),
        push_kept(push, ratio, expansion_ratio, chamber_pa, area, ambient_pa),
    ensures
        ambient_takes(
            value(nozzle_thrust(push, ratio, expansion_ratio, chamber_pa, area, zero())),
            value(nozzle_thrust(push, ratio, expansion_ratio, chamber_pa, area, ambient_pa)),
            times(times(value(ambient_pa), value(area)), value(expansion_ratio)),
        ),
{
    let vacuum = value(nozzle_thrust(push, ratio, expansion_ratio, chamber_pa, area, zero()));
    let thrust = value(nozzle_thrust(push, ratio, expansion_ratio, chamber_pa, area, ambient_pa));
    let exit = value(ratio * chamber_pa);
    let (m, p, c, e, a) = (value(push), value(ambient_pa), value(chamber_pa), value(expansion_ratio), value(area));
    lemma_one();
    lemma_parts(zero());
    lemma_zero_value();
    lemma_thrust_strays(push, ratio, expansion_ratio, chamber_pa, area, ambient_pa);
    lemma_thrust_strays(push, ratio, expansion_ratio, chamber_pa, area, zero());
    let taken = times(times(p, a), e);
    lemma_ideal_push(m, exit, p, c, e, a);
    lemma_ideal_push(m, exit, -p, c, e, a);
    lemma_times_positive(p, a);
    lemma_times_positive(times(p, a), e);
    let whole = ideal_thrust(m, exit, 0 as real, c, e, a);
    lemma_times_difference(0 as real, p, a);
    lemma_times_adds(0 as real, 0 as real, a);
    lemma_times_difference(0 as real, times(p, a), e);
    lemma_times_adds(0 as real, 0 as real, e);
    let scale = whole + taken;
    assert(ideal_thrust(m, exit, -p, c, e, a) == scale);
    assert(exit - (-(0 as real)) == exit);
    lemma_within_more(vacuum, whole, whole, 24, scale, 24);
    lemma_within_sum(vacuum, whole, thrust, whole - taken, scale, scale, 24);
    // The scale, in terms of the vacuum thrust.
    lemma_allowance(24, 24);
    lemma_allowance(48, 0);
    lemma_times_order(allowance(24), (1 as real) / (2 as real), whole);
    assert(times(whole, (1 as real) / (2 as real)) == whole / (2 as real)) by {
        reveal(times);
    }
    assert(scale <= (vacuum + taken) + (vacuum + taken));
    let sum = vacuum + taken;
    lemma_times_order(scale + scale, sum + sum + sum + sum, allowance(24));
    lemma_times_adds(sum + sum, sum + sum, allowance(24));
    lemma_times_adds(sum, sum, allowance(24));
    lemma_allowance(48, 48);
    lemma_times_adds(allowance(48), allowance(48), sum);
    lemma_times_adds(allowance(24), allowance(24), sum);
    lemma_times_commutes(sum, allowance(24));
    lemma_times_commutes(sum, allowance(96));
}

/// The ideal thrust against a pressure is that in a vacuum less the push on the exit.
proof fn lemma_ideal_push(m: real, exit: real, p: real, c: real, e: real, a: real)
    requires
        c > (0 as real),
    ensures
        ideal_thrust(m, exit, p, c, e, a) == ideal_thrust(m, exit, 0 as real, c, e, a) - times(times(p, a), e),
{
    let share = over(1 as real, c);
    lemma_quotient_share(exit - p, c);
    lemma_quotient_share(exit, c);
    lemma_times_difference(exit, p, share);
    lemma_times_difference(times(exit, share), times(p, share), e);
    let less = times(times(p, share), e);
    let full = m + times(times(exit, share), e);
    lemma_times_difference(full, less, c);
    lemma_times_difference(times(full, c), times(less, c), a);
    // The chamber pressure cancels.
    lemma_over(1 as real, c);
    lemma_times_associates(p, share, e);
    lemma_times_commutes(share, e);
    lemma_times_associates(p, e, share);
    lemma_times_associates(times(p, e), share, c);
    lemma_times_one(times(p, e));
    lemma_times_associates(p, e, a);
    lemma_times_commutes(e, a);
    lemma_times_associates(p, a, e);
}

/// A vacuum thrust less a thrust is `taken`, to within ninety-six roundings of both.
pub open spec fn ambient_takes(vacuum: real, thrust: real, taken: real) -> bool {
    size((vacuum - thrust) - taken) <= times(vacuum + taken, allowance(96))
}

/// A motor whose nozzle loses nothing at a clock and against an ambient pressure.
pub open spec fn motor_kept<M: Numerics>(motor: &CompiledSolid, math: &M, burn_time_s: F64, ambient_pa: F64) -> bool {
    push_kept(
        momentum(math, &motor.thermo_ref(), &motor.exit_state(math), motor.divergence_factor),
        motor.exit_state(math).exit_pressure_ratio,
        motor.expansion_ratio,
        motor.read_at(burn_time_s).chamber_pa,
        motor.throat_area_m2,
        ambient_pa,
    )
}

/// A conical or bell motor pushes against ambient pressure with its exit area: at any
/// clock, vacuum thrust less thrust is ambient pressure times throat area times expansion
/// ratio, up to rounding, as long as nothing underflows or overflows; the flow stays the
/// same.
pub proof fn lemma_motor_ambient<M: Numerics>(
    motor: &CompiledSolid,
    math: &M,
    burn_time_s: F64,
    ambient_pa: F64,
    vacuum: EngineOperatingPoint,
    point: EngineOperatingPoint,
)
    requires
        motor.contour != NozzleContour::Aerospike,
        zero() <= burn_time_s,
        burn_time_s < motor.burn_time_s,
        CompiledEngine::Solid(*motor).point(math, whole(1), zero(), burn_time_s) == Ok::<EngineOperatingPoint, Fault>(
            vacuum,
        ),
        CompiledEngine::Solid(*motor).point(math, whole(1), ambient_pa, burn_time_s) == Ok::<EngineOperatingPoint, Fault>(
            point,
        ),
        motor_kept(motor, math, burn_time_s, zero()),
        motor_kept(motor, math, burn_time_s, ambient_pa),
    ensures
        ambient_takes(
            value(vacuum.thrust_n),
            value(point.thrust_n),
            times(times(value(ambient_pa), value(motor.throat_area_m2)), value(motor.expansion_ratio)),
        ),
        point.mass_flow_kg_s == vacuum.mass_flow_kg_s,
{
    lemma_parts(burn_time_s);
    lemma_parts(motor.burn_time_s);
    lemma_ambient_push(
        momentum(math, &motor.thermo_ref(), &motor.exit_state(math), motor.divergence_factor),
        motor.exit_state(math).exit_pressure_ratio,
        motor.expansion_ratio,
        motor.read_at(burn_time_s).chamber_pa,
        motor.throat_area_m2,
        ambient_pa,
    );
}

} // verus!
