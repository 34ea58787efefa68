//! The grain of a compiled motor only depletes.
use crate::engine::{consumed_from, partial_use, whole_use, CompiledEngine};
use crate::error::Fault;
use crate::float::accuracy::{
    amount, at_most, lemma_normal, lemma_rounds_little, lemma_slack_small, lemma_times_adds, lemma_times_commutes,
    lemma_times_one, lemma_times_order, lemma_times_positive, lemma_value_order, lemma_zero_value, normal, slack,
    step, times, value,
};
use crate::float::{all_finite_in, dec, lemma_one, rounded, whole, zero, F64};
use crate::float::decimals::lemma_half;
use crate::float::errors::{allowance, lemma_allowance, lemma_difference_close, size};
use crate::float::exact::{lemma_div_self, lemma_product_mirrors, lemma_sub_self, lemma_sum_mirrors, mirrors};
use crate::float::locating::ratio;
use crate::float::magnitude::{lemma_mag_increasing, lemma_mag_scaled, mag, HIDDEN, INF_BITS};
use crate::float::nearness::{lemma_near, lemma_parts};
use crate::float::order::{
    lemma_add_commutes, lemma_add_not_negative, lemma_add_order, lemma_between_not_negative, lemma_clamp,
    lemma_div_order, lemma_finite_difference, lemma_mul_not_negative, lemma_mul_sign, lemma_negate, lemma_sum,
    lemma_sum_flag, lemma_sum_sign,
};
use crate::float::range::{
    lemma_powers, lemma_sized, lemma_sized_more, lemma_sized_product, lemma_sized_quotient, lemma_sized_spans,
    lemma_sized_sum, lemma_spans, lemma_spans_more, lemma_spans_product, lemma_spans_sum, sized, spans,
};
use crate::laws::burn::{lemma_burn_through, lemma_trace};
use crate::laws::feeds::lemma_at_least_left;
use crate::laws::grain::{
    change, lemma_at_least_normal, lemma_equal_amounts, lemma_grain_bounds, lemma_used_order, segment_kept, span_kept,
    trace_kept,
};
use crate::numerics::Numerics;
use crate::solid::{BurnPoint, CompiledSolid, SolidMotorSpec};
use vstd::arithmetic::power2::{lemma2_to64, lemma2_to64_rest, lemma_pow2_adds, lemma_pow2_pos, pow2};
use vstd::prelude::*;

verus! {

/// A trace of ordinary figures: every station behind ignition at a time between 2^-60 and
/// 2^60 s, flows between 2^-60 and 2^60 kg/s up to the last, which may be dark, and
/// stations no less than 1e-12 s apart.
pub open spec fn trace_sized(curve: Seq<BurnPoint>) -> bool {
    &&& curve.len() > 1
    &&& curve[0].time_s == zero()
    &&& forall|k: int|
        #![trigger curve[k]]
        0 <= k < curve.len() ==> {
            &&& amount(curve[k].mass_flow_kg_s) && spans(curve[k].mass_flow_kg_s, -60, 60)
            &&& k + 1 < curve.len() ==> sized(curve[k].mass_flow_kg_s, -60, 60)
            &&& k > 0 ==> sized(curve[k].time_s, -60, 60) && dec(1, 12) <= curve[k].time_s - curve[k - 1].time_s
        }
}

/// One half lies between 2^-1 and 2^-1.
proof fn lemma_half_sized()
    ensures
        sized(dec(5, 1), -1, -1),
{
    lemma_half();
    lemma_pow2_adds(1, 1073);
    lemma2_to64();
}

/// The time from one number to a later one.
proof fn lemma_way_sized(from: F64, to: F64)
    requires
        amount(from) && spans(from, -60, 60),
        sized(to, -60, 60),
        from < to,
    ensures
        sized(to - from, -112, 61),
        normal(to - from),
{
    lemma_one();
    lemma_parts(from);
    lemma_parts(to);
    lemma_sized_spans(to, -60, 60);
    lemma_spans_sum(to, from, -60, 60);
    lemma_parts(to - from);
    lemma_negate(from);
    lemma_sum(to, from.negate());
    lemma_near(false, to.units() - from.units(), 1);
    lemma_spans(to - from, -112, 61);
    lemma_sized(to - from, -112, 61);
}

/// The station before is an ordinary time.
proof fn lemma_station_time(curve: Seq<BurnPoint>, k: int)
    requires
        trace_sized(curve),
        0 <= k < curve.len(),
    ensures
        amount(curve[k].time_s),
        spans(curve[k].time_s, -60, 60),
        curve[k].time_s.is_finite(),
{
    lemma_one();
    lemma_parts(zero());
    if k > 0 {
        lemma_sized_spans(curve[k].time_s, -60, 60);
    }
    assert(curve[k] == curve[k]);
}

/// A segment of such a trace loses nothing at an ordinary clock.
proof fn lemma_segment(a: BurnPoint, b: BurnPoint, burn_time_s: F64)
    requires
        amount(a.time_s) && spans(a.time_s, -60, 60),
        sized(b.time_s, -60, 60),
        sized(burn_time_s, -60, 60),
        dec(1, 12) <= b.time_s - a.time_s,
        a.time_s < b.time_s,
        a.time_s < burn_time_s,
        burn_time_s <= b.time_s,
        sized(a.mass_flow_kg_s, -60, 60),
        amount(b.mass_flow_kg_s) && spans(b.mass_flow_kg_s, -60, 60),
    ensures
        segment_kept(a, b, burn_time_s),
        sized(partial_use(a, b, burn_time_s), -200, 400),
{
    let (low, high) = (a.mass_flow_kg_s, b.mass_flow_kg_s);
    let span = b.time_s - a.time_s;
    let way = burn_time_s - a.time_s;
    let share = way / span;
    let now = low + (high - low) * share;
    let part = change(low, high) * share;
    let half = dec(5, 1);
    lemma_one();
    lemma_parts(zero());
    lemma_way_sized(a.time_s, b.time_s);
    lemma_way_sized(a.time_s, burn_time_s);
    lemma_sized_quotient(way, span, -112, 61, -112, 61);
    lemma_sized(share, -173, 173);
    lemma_sized_spans(share, -173, 173);
    lemma_sized(low, -60, 60);
    lemma_sized_spans(low, -60, 60);
    lemma_parts(low);
    lemma_parts(high);
    lemma_parts(share);
    // The way is a share of the span.
    lemma_parts(way);
    lemma_parts(span);
    lemma_parts(a.time_s);
    lemma_parts(b.time_s);
    lemma_parts(burn_time_s);
    lemma_sized(span, -112, 61);
    lemma_sized(way, -112, 61);
    lemma_negate(a.time_s);
    lemma_add_order(burn_time_s, b.time_s, a.time_s.negate());
    lemma_div_self(span);
    lemma_div_order(way, span, span);
    lemma_clamp(share, zero(), whole(1));
    // The flow at the clock.
    lemma_spans_sum(high, low, -60, 60);
    lemma_spans_sum(low, high, -60, 60);
    lemma_spans(change(low, high), -112, 61);
    lemma_change(low, high);
    lemma_spans_product(change(low, high), share, -112, 61, -173, 173);
    lemma_spans(part, -285, 234);
    lemma_parts(part);
    lemma_mul_sign(change(low, high), share);
    lemma_spans_product(high - low, share, -112, 61, -173, 173);
    lemma_spans_more(low, -60, 60, -285, 234);
    lemma_spans_sum(low, (high - low) * share, -285, 234);
    lemma_spans(now, -337, 235);
    lemma_between_not_negative(low, high, share);
    lemma_parts(now);
    lemma_part_back(low, high, share);
    if now.units() == 0 && low <= high {
        lemma_mul_not_negative(high - low, share);
        lemma_parts((high - low) * share);
        lemma_add_not_negative(low, (high - low) * share);
    }
    lemma_now_flag(low, (high - low) * share);
    lemma_powers(0, 1309);
    lemma_sized_more(low, -60, 60, -60, 235);
    lemma_sized_sum(low, now, -60, 235);
    lemma_sized(low + now, -60, 236);
    lemma_half_sized();
    lemma_sized_product(half, low + now, -1, -1, -60, 236);
    lemma_sized(half * (low + now), -61, 235);
    lemma_sized_product(half * (low + now), way, -61, 235, -112, 61);
    lemma_sized(half * (low + now) * way, -173, 296);
    lemma_sized_more(half * (low + now) * way, -173, 296, -200, 400);
    assert(span.max(dec(1, 12)) == span);
    assert(way.max(zero()) == way);
    assert(share.clamp_unit() == share);
}

/// The sign of the difference of two flows.
proof fn lemma_change(low: F64, high: F64)
    requires
        amount(low),
        amount(high),
        change(low, high).is_finite(),
    ensures
        !change(low, high).negative(),
{
    lemma_parts(low);
    lemma_parts(high);
    if low.units() == high.units() {
        lemma_equal_amounts(low, high);
        lemma_sub_self(low);
        lemma_one();
        lemma_parts(zero());
    } else {
        let (least, most) = if low <= high {
            (low, high)
        } else {
            (high, low)
        };
        lemma_negate(least);
        lemma_sum(most, least.negate());
        lemma_near(false, most.units() - least.units(), 1);
        lemma_parts(most - least);
        reveal(F64::spec_add);
    }
}

/// A falling flow that comes to nothing has lost all of itself.
proof fn lemma_part_back(low: F64, high: F64, share: F64)
    requires
        amount(low),
        amount(high),
        sized(share, -173, 173),
        spans(high - low, -112, 61),
        spans(low - high, -112, 61),
        spans((high - low) * share, -285, 234),
        spans(low, -285, 234),
    ensures
        high < low && (low + (high - low) * share).units() == 0 ==> low.units() == (change(low, high) * share).units(),
{
    lemma_parts(low);
    lemma_parts(high);
    lemma_parts(high - low);
    lemma_parts(low - high);
    lemma_parts(share);
    lemma_spans_sum(low, (high - low) * share, -285, 234);
    if high < low {
        lemma_negate(high);
        lemma_negate(low);
        lemma_parts(high.negate());
        lemma_parts(low.negate());
        lemma_sum_mirrors(low, high.negate(), low.negate(), high, true);
        lemma_add_commutes(low.negate(), high);
        assert(mirrors(low - high, high - low, true));
        lemma_product_mirrors(low - high, share, high - low, share, true, false);
    }
}

/// A sum that is not negative and not nothing has no sign, nor has one that cancels.
proof fn lemma_now_flag(x: F64, y: F64)
    requires
        amount(x),
        x.units() > 0,
        y.is_finite(),
        zero() <= x + y,
    ensures
        !(x + y).negative(),
{
    lemma_one();
    lemma_parts(x);
    lemma_parts(y);
    lemma_sum_sign(x, y);
}

/// A whole span of such a trace loses nothing.
proof fn lemma_span(a: BurnPoint, b: BurnPoint)
    requires
        amount(a.time_s) && spans(a.time_s, -60, 60),
        sized(b.time_s, -60, 60),
        a.time_s < b.time_s,
        sized(a.mass_flow_kg_s, -60, 60),
        amount(b.mass_flow_kg_s) && spans(b.mass_flow_kg_s, -60, 60),
    ensures
        span_kept(a, b),
        sized(whole_use(a, b), -200, 400),
{
    let total = a.mass_flow_kg_s + b.mass_flow_kg_s;
    lemma_way_sized(a.time_s, b.time_s);
    lemma_parts(b.mass_flow_kg_s);
    lemma_powers(0, 1134);
    assert(mag(0) == 0);
    lemma_sized_sum(a.mass_flow_kg_s, b.mass_flow_kg_s, -60, 60);
    lemma_sized(total, -60, 61);
    lemma_half_sized();
    lemma_sized_product(dec(5, 1), total, -1, -1, -60, 61);
    lemma_sized(dec(5, 1) * total, -61, 60);
    lemma_sized_product(dec(5, 1) * total, b.time_s - a.time_s, -61, 60, -112, 61);
    lemma_sized(whole_use(a, b), -173, 121);
    lemma_sized_more(whole_use(a, b), -173, 121, -200, 400);
}

/// Such a trace loses nothing at any ordinary clock.
proof fn lemma_trace_kept(curve: Seq<BurnPoint>, burn_time_s: F64)
    requires
        trace_sized(curve),
        sized(burn_time_s, -60, 60),
        forall|k: int| #![trigger curve[k]] 0 < k < curve.len() ==> curve[k - 1].time_s < curve[k].time_s,
    ensures
        trace_kept(curve, burn_time_s),
{
    assert forall|k: int| #![trigger curve[k]] 1 <= k < curve.len() implies {
        &&& span_kept(curve[k - 1], curve[k])
        &&& amount(curve[k - 1].mass_flow_kg_s)
        &&& amount(curve[k].mass_flow_kg_s)
        &&& curve[k - 1].time_s < burn_time_s && burn_time_s <= curve[k].time_s ==> segment_kept(
            curve[k - 1],
            curve[k],
            burn_time_s,
        )
    } by {
        let (a, b) = (curve[k - 1], curve[k]);
        lemma_station_time(curve, k - 1);
        lemma_span(a, b);
        if a.time_s < burn_time_s && burn_time_s <= b.time_s {
            lemma_segment(a, b, burn_time_s);
        }
    }
}

/// What is drawn up to a clock on the trace is an ordinary amount.
proof fn lemma_used_sized(curve: Seq<BurnPoint>, burn_time_s: F64, i: int, used: F64)
    requires
        trace_sized(curve),
        curve.len() <= 200_000,
        sized(burn_time_s, -60, 60),
        forall|k: int| #![trigger curve[k]] 0 < k < curve.len() ==> curve[k - 1].time_s < curve[k].time_s,
        burn_time_s <= curve.last().time_s,
        1 <= i < curve.len(),
        curve[i - 1].time_s < burn_time_s,
        amount(used),
        used.units() <= 2 * i * pow2(1474),
    ensures
        normal(consumed_from(curve, burn_time_s, i, used)),
    decreases curve.len() - i,
{
    let (a, b) = (curve[i - 1], curve[i]);
    lemma_one();
    lemma_parts(used);
    lemma_parts(burn_time_s);
    lemma_station_time(curve, i - 1);
    lemma_station_time(curve, i);
    lemma_parts(b.time_s);
    let more = if b.time_s >= burn_time_s {
        lemma_segment(a, b, burn_time_s);
        partial_use(a, b, burn_time_s)
    } else {
        lemma_span(a, b);
        whole_use(a, b)
    };
    lemma_sized(more, -200, 400);
    lemma_parts(more);
    lemma_heap(used, more, i);
    lemma_add_not_negative(used, more);
    lemma_at_least_normal(more, used + more);
    if !(b.time_s >= burn_time_s) {
        assert(i + 1 < curve.len()) by {
            if i + 1 == curve.len() {
                assert(curve.last() == b);
            }
        }
        lemma_used_sized(curve, burn_time_s, i + 1, used + more);
    }
}

/// One more part of a sum of bounded parts.
proof fn lemma_heap(used: F64, more: F64, i: int)
    requires
        amount(used),
        sized(more, -200, 400),
        1 <= i <= 200_000,
        used.units() <= 2 * i * pow2(1474),
    ensures
        amount(used + more),
        (used + more).units() <= 2 * (i + 1) * pow2(1474),
{
    let (t, d, b) = (used.units(), more.units(), pow2(1474) as int);
    lemma_parts(used);
    lemma_parts(more);
    lemma_pow2_pos(1474);
    lemma_sum(used, more);
    lemma_near(false, t + d, 1);
    lemma_rounds_little(t + d);
    lemma_parts(used + more);
    let sum = mag(rounded(ratio(t + d, 1))) as int;
    assert(sum <= 2 * (i + 1) * b) by (nonlinear_arith)
        requires
            sum * HIDDEN <= (t + d) * (HIDDEN + 1),
            0 <= t <= 2 * i * b,
            0 <= d <= b,
            1 <= i <= 200_000,
            b > 0,
            HIDDEN == 4_503_599_627_370_496,
    ;
    lemma_sum_flag(used, more);
    lemma_pow2_adds(20, 1474);
    lemma2_to64();
    assert(sum < pow2(1494) as int) by (nonlinear_arith)
        requires
            sum <= 2 * (i + 1) * b,
            i <= 200_000,
            b > 0,
            pow2(1494) == 1_048_576 * b,
    ;
    lemma_mag_scaled(HIDDEN as nat, 2046);
    assert(HIDDEN + 2046 * HIDDEN == INF_BITS);
    lemma_pow2_adds(52, 2046);
    lemma2_to64_rest();
    lemma_powers(1494, 2098);
    if (used + more).pattern() >= INF_BITS {
        if (used + more).pattern() > INF_BITS {
            lemma_mag_increasing(INF_BITS as nat, (used + more).pattern());
        }
    }
}

/// The grain of a sound motor only depletes: at any later clock no more of it is left, but
/// for forty-four roundings of the whole grain, as long as nothing of what is drawn up to
/// either clock underflows or overflows.
pub proof fn lemma_grain_depletes(motor: &CompiledSolid, early: F64, late: F64)
    requires
        motor.fault() is None,
        early.is_finite(),
        late.is_finite(),
        early <= late,
        zero() < early && late < motor.burn_time_s ==> {
            let curve = motor.burn_curve@;
            &&& curve[0].time_s < early
            &&& trace_kept(curve, early)
            &&& trace_kept(curve, late)
            &&& normal(consumed_from(curve, early, 1, zero()))
            &&& normal(consumed_from(curve, late, 1, zero()))
        },
    ensures
        ({
            let engine = CompiledEngine::Solid(*motor);
            value(engine.remaining(late)->0) <= value(engine.remaining(early)->0) + times(
                value(motor.propellant_mass_kg),
                allowance(44),
            )
        }),
{
    let curve = motor.burn_curve@;
    let engine = CompiledEngine::Solid(*motor);
    let mass = motor.propellant_mass_kg;
    lemma_one();
    lemma_parts(early);
    lemma_parts(late);
    lemma_parts(motor.burn_time_s);
    lemma_mass(motor);
    lemma_grain_bounds(motor, early);
    lemma_grain_bounds(motor, late);
    lemma_allowance(44, 0);
    lemma_times_positive(value(mass), allowance(44));
    lemma_value_order(engine.remaining(late)->0, engine.remaining(early)->0);
    if zero() < early && late < motor.burn_time_s {
        lemma_parts(zero());
        let (first, second) = (consumed_from(curve, early, 1, zero()), consumed_from(curve, late, 1, zero()));
        lemma_used_order(curve, early, late, 1, zero());
        lemma_left_order(mass, first, second);
    }
}

/// The grain of a compiled motor of ordinary figures only depletes, at any ordinary clocks,
/// before ignition, and past the burn.
pub proof fn lemma_motor_depletes<M: Numerics>(
    spec: &SolidMotorSpec,
    math: &M,
    motor: &CompiledSolid,
    early: F64,
    late: F64,
)
    requires
        spec.compiles_to(math, Ok::<CompiledSolid, Fault>(*motor)),
        motor.fault() is None,
        trace_sized(motor.burn_curve@),
        early <= late,
        sized(early, -60, 60) || early <= zero(),
        sized(late, -60, 60) || late <= zero() || motor.burn_time_s <= late,
        early.is_finite(),
        late.is_finite(),
    ensures
        ({
            let engine = CompiledEngine::Solid(*motor);
            value(engine.remaining(late)->0) <= value(engine.remaining(early)->0) + times(
                value(motor.propellant_mass_kg),
                allowance(44),
            )
        }),
{
    let curve = motor.burn_curve@;
    lemma_one();
    lemma_parts(early);
    lemma_parts(late);
    lemma_parts(motor.burn_time_s);
    lemma_mass(motor);
    lemma_trace(spec, math, *motor);
    if zero() < early && late < motor.burn_time_s {
        lemma_burn_through(spec, math, *motor);
        lemma_sized(early, -60, 60);
        lemma_trace_kept(curve, early);
        lemma_trace_kept(curve, late);
        lemma_pow2_pos(1474);
        lemma_parts(zero());
        assert(curve.last() == curve[curve.len() - 1]);
        lemma_used_sized(curve, early, 1, zero());
        lemma_used_sized(curve, late, 1, zero());
    }
    lemma_grain_depletes(motor, early, late);
}

/// The mass of a sound motor's grain is an amount.
proof fn lemma_mass(motor: &CompiledSolid)
    requires
        motor.fault() is None,
    ensures
        motor.propellant_mass_kg.is_finite(),
        zero() <= motor.propellant_mass_kg,
        motor.burn_time_s.is_finite(),
        value(motor.propellant_mass_kg) >= (0 as real),
{
    lemma_one();
    let values = seq![
        motor.total_impulse_ns,
        motor.avg_isp_s,
        motor.peak_pressure_pa,
        motor.peak_thrust_sl_n,
        motor.c_star_mps,
        motor.exit_temp_k,
        motor.aerospike_base_area_m2,
        motor.throat_radius_m,
        motor.exit_radius_m,
        motor.grain_outer_radius_m,
        motor.grain_length_m,
        motor.throat_area_m2,
        motor.gas_constant_j_kg_k,
        motor.chamber_temp_k,
        motor.burn_time_s,
        motor.propellant_mass_kg,
        motor.exhaust_velocity_mps,
        motor.exit_mach,
        motor.dry_mass_kg,
        motor.gimbal_range_rad,
    ];
    assert(all_finite_in(values));
    assert(values[14].is_finite() && values[15].is_finite());
    lemma_parts(motor.propellant_mass_kg);
    lemma_value_order(motor.propellant_mass_kg, motor.propellant_mass_kg);
}

/// Where more is used, no more is left.
proof fn lemma_left_order(mass: F64, first: F64, second: F64)
    requires
        mass.is_finite(),
        zero() <= mass,
        normal(first),
        normal(second),
        at_most(value(first), value(second), 16),
    ensures
        value((mass - second).max(zero())) <= value((mass - first).max(zero())) + times(value(mass), allowance(44)),
{
    let (m, u, v) = (value(mass), value(first), value(second));
    lemma_one();
    lemma_parts(mass);
    lemma_parts(zero());
    lemma_zero_value();
    lemma_normal(first);
    lemma_normal(second);
    lemma_parts(first);
    lemma_parts(second);
    lemma_value_order(mass, mass);
    lemma_allowance(44, 0);
    lemma_times_positive(m, allowance(44));
    let (a, b) = (mass - first, mass - second);
    lemma_finite_difference(mass, first);
    lemma_finite_difference(mass, second);
    lemma_parts(a);
    lemma_parts(b);
    lemma_at_least_left(a, a.max(zero()));
    lemma_value_order(zero(), a.max(zero()));
    lemma_value_order(b, zero());
    lemma_value_order(b.max(zero()), b);
    lemma_value_order(b, b.max(zero()));
    lemma_value_order(b.max(zero()), zero());
    if b > zero() {
        lemma_difference_close(mass, first);
        lemma_difference_close(mass, second);
        // More than nothing is left: no more than the grain was used.
        lemma_negate(second);
        lemma_sum(mass, second.negate());
        let total = mass.units() - second.units();
        lemma_near(true, if total < 0 { -total } else { total }, 1);
        assert(total >= 0);
        lemma_value_order(second, mass);
        lemma_slack_small(16);
        lemma_times_order(slack(16), (1 as real) + times((2 as real) * (16 as real), step()), v);
        lemma_times_adds(1 as real, times((2 as real) * (16 as real), step()), v);
        lemma_times_one(v);
        lemma_times_commutes(v, (1 as real) + times((2 as real) * (16 as real), step()));
        assert(allowance(32) == times((2 as real) * (16 as real), step()));
        lemma_times_commutes(v, allowance(32));
        lemma_allowance(32, 12);
        lemma_allowance(32, 0);
        lemma_times_order(v, m, allowance(32));
        lemma_times_order(allowance(32), 1 as real, m);
        lemma_times_one(m);
        // The differences and their roundings.
        let e = allowance(2);
        lemma_allowance(2, 2);
        lemma_allowance(4, 2);
        lemma_allowance(6, 6);
        lemma_times_order(size(m - v), m, e);
        lemma_times_order(size(m - u), m + m, e);
        lemma_times_adds(m, m, e);
        lemma_times_adds(allowance(2), allowance(2), m);
        lemma_times_adds(allowance(4), allowance(2), m);
        lemma_times_adds(allowance(32), allowance(12), m);
        lemma_times_adds(allowance(6), allowance(6), m);
        lemma_times_commutes(m, allowance(2));
        lemma_times_commutes(m, allowance(6));
        lemma_times_commutes(m, allowance(12));
        lemma_times_commutes(m, allowance(32));
        lemma_times_commutes(m, allowance(44));
        lemma_times_positive(m, allowance(6));
    }
}

} // verus!
