//! The grain of a solid motor: what is left of it over the burn.
use crate::engine::{consumed_from, curve_fault, partial_use, whole_use, CompiledEngine};
use crate::float::accuracy::{
    about, amount, at_most, kept, lemma_about_bounds, lemma_about_chain, lemma_about_more, lemma_about_order,
    lemma_about_product, lemma_about_same, lemma_about_sum, lemma_amount, lemma_carried, lemma_difference_about,
    lemma_kept_product, lemma_normal, lemma_normal_sum, lemma_over, lemma_quotient_about, lemma_slack,
    lemma_slack_adds, lemma_sum_about, lemma_times_adds, lemma_times_associates, lemma_times_commutes,
    lemma_times_one, lemma_times_order, lemma_times_positive, lemma_times_strict, lemma_twice_less, lemma_value_order,
    normal, over, slack, times, value,
};
use crate::float::{dec, lemma_one, whole, zero, F64};
use crate::float::decimals::{lemma_decimal, lemma_half};
use crate::float::exact::{lemma_div_self, lemma_mul_negated, lemma_sub_self};
use crate::float::magnitude::lemma_mag_increasing;
use crate::float::nearness::{lemma_near, lemma_parts, lemma_same_bits};
use crate::float::order::{
    lemma_add_not_negative, lemma_add_order, lemma_add_up, lemma_between_not_negative, lemma_clamp, lemma_div_order,
    lemma_less, lemma_mul_commutes, lemma_mul_not_negative, lemma_negate, lemma_numbers, lemma_share, lemma_sum,
    lemma_within,
};
use crate::laws::thrust::{lemma_stations, lemma_way};
use crate::solid::{BurnPoint, CompiledSolid};
use vstd::prelude::*;

verus! {

/// A sound motor holds its whole grain at ignition and none from the burn time on;
/// in between it holds no less than nothing and no more than the whole.
pub proof fn lemma_grain_bounds(engine: &CompiledSolid, burn_time_s: F64)
    requires
        engine.fault() is None,
    ensures
        ({
            let left = CompiledEngine::Solid(*engine).remaining(burn_time_s);
            &&& left is Some
            &&& zero() <= left->0
            &&& left->0 <= engine.propellant_mass_kg
            &&& burn_time_s.is_finite() && burn_time_s <= zero() ==> left->0 == engine.propellant_mass_kg
            &&& burn_time_s.is_finite() && engine.burn_time_s <= burn_time_s && zero() < burn_time_s ==> left->0 == zero()
        }),
{
    lemma_one();
    lemma_parts(engine.propellant_mass_kg);
    lemma_parts(burn_time_s);
    let curve = engine.burn_curve@;
    if burn_time_s.is_finite() && !(burn_time_s <= zero()) && !(burn_time_s >= engine.burn_time_s) {
        lemma_used(curve, burn_time_s, 1, zero());
        let used = consumed_from(curve, burn_time_s, 1, zero());
        let mass = engine.propellant_mass_kg;
        if !(mass - used).is_nan() {
            lemma_numbers(mass, used);
            lemma_less(mass, used);
        }
    }
}

proof fn lemma_used(curve: Seq<BurnPoint>, burn_time_s: F64, i: int, used: F64)
    requires
        curve_fault(curve, 0) is None,
        burn_time_s.is_finite(),
        1 <= i,
        !(used < zero()),
    ensures
        !(consumed_from(curve, burn_time_s, i, used) < zero()),
    decreases curve.len() - i,
{
    lemma_one();
    if i < curve.len() {
        lemma_stations(curve, 0);
        let (a, b) = (curve[i - 1], curve[i]);
        lemma_parts(a.time_s);
        lemma_parts(b.time_s);
        lemma_decimal(5, 1);
        if curve[i].time_s >= burn_time_s {
            lemma_way(a, b, burn_time_s);
            let span = (b.time_s - a.time_s).max(dec(1, 12));
            let share = ((burn_time_s - a.time_s) / span).clamp_unit();
            lemma_between_not_negative(a.mass_flow_kg_s, b.mass_flow_kg_s, share);
            let flow_now = a.mass_flow_kg_s + (b.mass_flow_kg_s - a.mass_flow_kg_s) * share;
            let time = (burn_time_s - a.time_s).max(zero());
            lemma_negate(a.time_s);
            lemma_sum(burn_time_s, a.time_s.negate());
            lemma_booked(a.mass_flow_kg_s, flow_now, time);
            lemma_add_up(used, partial_use(a, b, burn_time_s));
        } else {
            lemma_negate(a.time_s);
            lemma_sum(b.time_s, a.time_s.negate());
            lemma_sub_self(a.time_s);
            lemma_add_order(a.time_s, b.time_s, a.time_s.negate());
            lemma_booked(a.mass_flow_kg_s, b.mass_flow_kg_s, b.time_s - a.time_s);
            lemma_add_up(used, whole_use(a, b));
            lemma_used(curve, burn_time_s, i + 1, used + whole_use(a, b));
        }
    }
}

/// What flows over a time is not negative.
proof fn lemma_booked(a: F64, b: F64, time: F64)
    requires
        zero() <= a,
        zero() <= b,
        zero() <= time,
    ensures
        !(dec(5, 1) * (a + b) * time < zero()),
{
    lemma_add_not_negative(a, b);
    lemma_decimal(5, 1);
    lemma_numbers(dec(5, 1) * (a + b), time);
    if !(dec(5, 1) * (a + b) * time).is_nan() {
        lemma_mul_not_negative(dec(5, 1), a + b);
        lemma_mul_not_negative(dec(5, 1) * (a + b), time);
    }
}

/// Half the flow over a way whose share of the span is `share`, between flows `low` and
/// `high`, as a real number.
spec fn drawn(half: real, low: real, high: real, share: real, way: real) -> real {
    times(times(half, times(low, (2 as real) - share) + times(high, share)), way)
}

/// Further on the way, no less is drawn.
proof fn lemma_drawn_order(half: real, low: real, high: real, one: real, other: real, span: real)
    requires
        half >= (0 as real),
        low >= (0 as real),
        high >= (0 as real),
        (0 as real) <= one <= other <= (1 as real),
        span >= (0 as real),
    ensures
        drawn(half, low, high, one, times(one, span)) <= drawn(half, low, high, other, times(other, span)),
{
    let two = 2 as real;
    lemma_turned(half, low, high, one, span);
    lemma_turned(half, low, high, other, span);
    assert(times(two - one, one) <= times(two - other, other)) by {
        reveal(times);
        assert((two - one) * one <= (two - other) * other) by (nonlinear_arith)
            requires
                (0 as real) <= one <= other <= (1 as real),
                two == (2 as real),
        ;
    }
    assert(times(one, one) <= times(other, other)) by {
        lemma_times_order(one, other, one);
        lemma_times_order(one, other, other);
    }
    lemma_times_order(times(two - one, one), times(two - other, other), low);
    lemma_times_order(times(one, one), times(other, other), high);
    let scale = times(half, span);
    lemma_times_positive(half, span);
    lemma_times_order(
        times(low, times(two - one, one)) + times(high, times(one, one)),
        times(low, times(two - other, other)) + times(high, times(other, other)),
        scale,
    );
}

/// What is drawn over a share of a span.
proof fn lemma_turned(half: real, low: real, high: real, share: real, span: real)
    ensures
        drawn(half, low, high, share, times(share, span)) == times(
            times(low, times((2 as real) - share, share)) + times(high, times(share, share)),
            times(half, span),
        ),
{
    let rest = (2 as real) - share;
    let flow = times(low, rest) + times(high, share);
    lemma_times_commutes(half, flow);
    lemma_times_associates(flow, half, times(share, span));
    lemma_times_commutes(share, span);
    lemma_times_associates(half, span, share);
    lemma_times_commutes(times(half, span), share);
    lemma_times_associates(flow, share, times(half, span));
    lemma_times_adds(times(low, rest), times(high, share), share);
    lemma_times_associates(low, rest, share);
    lemma_times_associates(high, share, share);
}

/// The difference of two flows.
pub open spec fn change(low: F64, high: F64) -> F64 {
    if low <= high {
        high - low
    } else {
        low - high
    }
}

/// A clock between two stations, where nothing of what is drawn is lost to underflow or
/// overflow.
pub open spec fn segment_kept(a: BurnPoint, b: BurnPoint, burn_time_s: F64) -> bool {
    let (low, high) = (a.mass_flow_kg_s, b.mass_flow_kg_s);
    let span = b.time_s - a.time_s;
    let way = burn_time_s - a.time_s;
    let share = way / span;
    let now = low + (high - low) * share;
    &&& amount(low) && amount(high)
    &&& dec(1, 12) <= span && normal(span)
    &&& normal(way) && normal(share)
    &&& normal(change(low, high)) || low.units() == high.units()
    &&& kept(change(low, high), share)
    &&& normal(now) || (high < low && low.units() == (change(low, high) * share).units())
    &&& normal(low + now)
    &&& normal(dec(5, 1) * (low + now))
    &&& normal(dec(5, 1) * (low + now) * way)
}

/// Equal amounts are the same number.
pub proof fn lemma_equal_amounts(a: F64, b: F64)
    requires
        amount(a),
        amount(b),
        a.units() == b.units(),
    ensures
        a == b,
{
    lemma_parts(a);
    lemma_parts(b);
    if a.units() != 0 {
        lemma_same_bits(a, b);
    }
}

/// A difference turned around.
proof fn lemma_turned_difference(a: F64, b: F64)
    requires
        amount(a),
        amount(b),
        a.units() < b.units(),
        normal(b - a),
    ensures
        a - b == (b - a).negate(),
{
    lemma_parts(a);
    lemma_parts(b);
    lemma_negate(a);
    lemma_negate(b);
    lemma_parts(a.negate());
    lemma_parts(b.negate());
    lemma_sum(a, b.negate());
    lemma_sum(b, a.negate());
    let less = b.units() - a.units();
    lemma_near(true, less, 1);
    lemma_near(false, less, 1);
    lemma_normal(b - a);
    lemma_negate(b - a);
    lemma_same_bits(a - b, (b - a).negate());
}

/// The flow at a clock and at the station before it add up to what a line between the
/// stations gives, to within five roundings.
proof fn lemma_line(low: F64, high: F64, share: F64, ideal: real)
    requires
        amount(low),
        amount(high),
        normal(share),
        share <= whole(1),
        about(value(share), ideal, 1),
        (0 as real) <= ideal <= (1 as real),
        normal(change(low, high)) || low.units() == high.units(),
        kept(change(low, high), share),
        normal(low + (high - low) * share) || (high < low && low.units() == (change(low, high) * share).units()),
        normal(low + (low + (high - low) * share)),
    ensures
        about(
            value(low + (low + (high - low) * share)),
            times(value(low), (2 as real) - ideal) + times(value(high), ideal),
            5,
        ),
{
    let (l, h) = (value(low), value(high));
    let by = change(low, high);
    let part = by * share;
    let now = low + (high - low) * share;
    let two = 2 as real;
    lemma_one();
    lemma_amount(low);
    lemma_amount(high);
    lemma_normal(share);
    lemma_parts(low);
    lemma_parts(high);
    lemma_about_same(l);
    // The same line, written two ways.
    lemma_times_adds(two, -ideal, l);
    lemma_times_adds(ideal, -ideal, l);
    lemma_times_adds(0 as real, 0 as real, l);
    lemma_times_one(l);
    lemma_times_commutes(l, two - ideal);
    lemma_times_commutes(l, ideal);
    lemma_times_commutes(h, ideal);
    lemma_times_adds(h, -l, ideal);
    lemma_times_adds(l, -l, ideal);
    lemma_times_adds(l, -h, ideal);
    lemma_times_adds(h, -h, ideal);
    lemma_times_adds(0 as real, 0 as real, ideal);
    let line = times(l, two - ideal) + times(h, ideal);
    if low <= high {
        lemma_difference_about(high, low);
        if low.units() == high.units() {
            lemma_equal_amounts(low, high);
            lemma_sub_self(low);
            lemma_parts(zero());
        } else {
            lemma_normal(by);
        }
        lemma_kept_product(by, share);
        lemma_about_product(value(by), h - l, value(share), ideal, 1, 1);
        lemma_about_chain(value(part), times(value(by), value(share)), times(h - l, ideal), 1, 2);
        lemma_amount(part);
        lemma_normal(now);
        lemma_normal_sum(low, part);
        lemma_sum_about(low, part);
        lemma_about_more(l, l, 0, 3);
        lemma_about_sum(l, l, value(part), times(h - l, ideal), 3);
        lemma_about_chain(value(now), l + value(part), l + times(h - l, ideal), 1, 3);
        lemma_about_more(l, l, 0, 4);
        lemma_about_sum(l, l, value(now), l + times(h - l, ideal), 4);
        assert(l + (l + times(h - l, ideal)) == line);
    } else {
        lemma_difference_about(low, high);
        lemma_normal(by);
        lemma_turned_difference(high, low);
        lemma_kept_product(by, share);
        lemma_mul_negated(by, share);
        lemma_parts(part);
        lemma_amount(part);
        lemma_less(low, high);
        lemma_share(by, share);
        lemma_about_product(value(by), l - h, value(share), ideal, 1, 1);
        lemma_about_chain(value(part), times(value(by), value(share)), times(l - h, ideal), 1, 2);
        assert(now == low - part);
        if low.units() == part.units() {
            lemma_equal_amounts(low, part);
            lemma_sub_self(low);
        } else {
            lemma_normal(now);
        }
        lemma_difference_about(low, part);
        lemma_value_order(part, low);
        lemma_value_order(high, low);
        lemma_times_order(ideal, 1 as real, l - h);
        lemma_times_one(l - h);
        lemma_twice_less(l, value(part), times(l - h, ideal), 3);
        lemma_about_more(l, l, 0, 1);
        lemma_about_sum(l, l, value(now), l - value(part), 1);
        lemma_about_chain(
            l + value(now),
            l + (l - value(part)),
            l + (l - times(l - h, ideal)),
            1,
            3,
        );
        assert(l + (l - times(l - h, ideal)) == line);
    }
    lemma_parts(now);
    lemma_parts(zero());
    lemma_normal_sum(low, now);
    lemma_sum_about(low, now);
    lemma_about_chain(value(low + now), l + value(now), line, 1, 4);
}

/// A span between two stations, over the whole of which nothing is lost.
pub open spec fn span_kept(a: BurnPoint, b: BurnPoint) -> bool {
    let total = a.mass_flow_kg_s + b.mass_flow_kg_s;
    &&& normal(b.time_s - a.time_s)
    &&& normal(total)
    &&& normal(dec(5, 1) * total)
    &&& normal(whole_use(a, b))
}

/// What is drawn up to a clock between two stations.
proof fn lemma_partial(a: BurnPoint, b: BurnPoint, burn_time_s: F64)
    requires
        a.time_s.is_finite(),
        b.time_s.is_finite(),
        burn_time_s.is_finite(),
        burn_time_s <= b.time_s,
        segment_kept(a, b, burn_time_s),
    ensures
        ({
            let (span, way) = (value(b.time_s - a.time_s), value(burn_time_s - a.time_s));
            let share = over(way, span);
            &&& (0 as real) <= share <= (1 as real)
            &&& way == times(share, span)
            &&& about(
                value(partial_use(a, b, burn_time_s)),
                drawn(value(dec(5, 1)), value(a.mass_flow_kg_s), value(b.mass_flow_kg_s), share, way),
                7,
            )
            &&& amount(partial_use(a, b, burn_time_s))
        }),
{
    let (low, high) = (a.mass_flow_kg_s, b.mass_flow_kg_s);
    let span = b.time_s - a.time_s;
    let way = burn_time_s - a.time_s;
    let share = way / span;
    let now = low + (high - low) * share;
    let half = dec(5, 1);
    lemma_one();
    lemma_half();
    lemma_parts(zero());
    lemma_normal(span);
    lemma_normal(way);
    lemma_normal(share);
    lemma_parts(span);
    lemma_parts(way);
    lemma_parts(share);
    lemma_add_order(burn_time_s, b.time_s, a.time_s.negate());
    lemma_div_self(span);
    lemma_div_order(way, span, span);
    lemma_clamp(share, zero(), whole(1));
    assert(share.clamp_unit() == share);
    assert(span.max(dec(1, 12)) == span);
    assert(way.max(zero()) == way);
    let (s, w) = (value(span), value(way));
    let ideal = over(w, s);
    lemma_quotient_about(way, span);
    lemma_over(w, s);
    lemma_value_order(way, span);
    if ideal > (1 as real) {
        lemma_times_strict(1 as real, ideal, s);
        lemma_times_one(s);
    }
    lemma_line(low, high, share, ideal);
    let line = times(value(low), (2 as real) - ideal) + times(value(high), ideal);
    lemma_normal(low + now);
    lemma_normal(half * (low + now));
    lemma_normal(half * (low + now) * way);
    lemma_mul_commutes(half, low + now);
    lemma_carried(low + now, half, line, 5);
    lemma_times_commutes(line, value(half));
    lemma_carried(half * (low + now), way, times(value(half), line), 6);
}

/// What is drawn from one station to the next.
proof fn lemma_whole_span(a: BurnPoint, b: BurnPoint)
    requires
        amount(a.mass_flow_kg_s),
        amount(b.mass_flow_kg_s),
        span_kept(a, b),
    ensures
        ({
            let span = value(b.time_s - a.time_s);
            &&& span > (0 as real)
            &&& about(
                value(whole_use(a, b)),
                drawn(
                    value(dec(5, 1)),
                    value(a.mass_flow_kg_s),
                    value(b.mass_flow_kg_s),
                    1 as real,
                    times(1 as real, span),
                ),
                7,
            )
            &&& amount(whole_use(a, b))
        }),
{
    let (low, high) = (a.mass_flow_kg_s, b.mass_flow_kg_s);
    let span = b.time_s - a.time_s;
    let half = dec(5, 1);
    lemma_half();
    lemma_normal(span);
    lemma_normal(low + high);
    lemma_normal(half * (low + high));
    lemma_normal(whole_use(a, b));
    lemma_normal_sum(low, high);
    lemma_sum_about(low, high);
    let line = value(low) + value(high);
    lemma_mul_commutes(half, low + high);
    lemma_carried(low + high, half, line, 1);
    lemma_times_commutes(line, value(half));
    lemma_carried(half * (low + high), span, times(value(half), line), 2);
    lemma_times_one(value(low));
    lemma_times_one(value(high));
    lemma_times_one(value(span));
    lemma_about_more(value(whole_use(a, b)), times(times(value(half), line), value(span)), 3, 7);
}

/// Adding the same amount keeps an order that holds but for rounding.
proof fn lemma_added(used: F64, x: F64, y: F64, k: nat)
    requires
        amount(used),
        amount(x),
        amount(y),
        at_most(value(x), value(y), k),
        normal(used + x),
        normal(used + y),
    ensures
        at_most(value(used + x), value(used + y), k + 2),
{
    let (u, v, w) = (value(used), value(x), value(y));
    lemma_amount(used);
    lemma_amount(x);
    lemma_amount(y);
    lemma_normal_sum(used, x);
    lemma_normal_sum(used, y);
    lemma_sum_about(used, x);
    lemma_sum_about(used, y);
    lemma_about_bounds(value(used + x), u + v, 1);
    lemma_about_bounds(value(used + y), u + w, 1);
    let (s, one) = (slack(k), slack(1));
    lemma_slack(k);
    lemma_slack(1);
    lemma_times_order(1 as real, s, u);
    lemma_times_one(u);
    lemma_times_adds(u, w, s);
    lemma_times_commutes(u, s);
    // Less than the other sum and k roundings, then one rounding on either side.
    let far = times(value(used + y), one);
    lemma_times_order(u + w, far, s);
    lemma_times_order(u + v, times(far, s), one);
    lemma_slack_adds(1, k);
    lemma_slack_adds(1 + k, 1);
    lemma_times_associates(value(used + y), one, s);
    lemma_times_associates(value(used + y), slack(1 + k), one);
}

/// A burn trace and a clock for which nothing of what is drawn is lost to underflow or
/// overflow, and whose stations lie apart.
pub open spec fn trace_kept(curve: Seq<BurnPoint>, burn_time_s: F64) -> bool {
    forall|k: int|
        #![trigger curve[k]]
        1 <= k < curve.len() ==> {
            &&& span_kept(curve[k - 1], curve[k])
            &&& amount(curve[k - 1].mass_flow_kg_s)
            &&& amount(curve[k].mass_flow_kg_s)
            &&& curve[k - 1].time_s < burn_time_s && burn_time_s <= curve[k].time_s ==> segment_kept(
                curve[k - 1],
                curve[k],
                burn_time_s,
            )
        }
}

/// Later stations only add to what is drawn.
proof fn lemma_accumulates(curve: Seq<BurnPoint>, burn_time_s: F64, i: int, used: F64)
    requires
        curve_fault(curve, 0) is None,
        burn_time_s.is_finite(),
        trace_kept(curve, burn_time_s),
        1 <= i,
        i > 1 ==> curve[i - 1].time_s < burn_time_s,
        i == 1 && curve.len() > 0 ==> curve[0].time_s < burn_time_s,
        zero() <= used,
    ensures
        !consumed_from(curve, burn_time_s, i, used).is_nan() ==> used <= consumed_from(curve, burn_time_s, i, used),
    decreases curve.len() - i,
{
    lemma_one();
    lemma_parts(used);
    if i < curve.len() {
        lemma_stations(curve, 0);
        let (a, b) = (curve[i - 1], curve[i]);
        lemma_parts(b.time_s);
        lemma_parts(burn_time_s);
        if b.time_s >= burn_time_s {
            lemma_partial(a, b, burn_time_s);
            lemma_parts(partial_use(a, b, burn_time_s));
            lemma_add_not_negative(used, partial_use(a, b, burn_time_s));
        } else {
            lemma_whole_span(a, b);
            lemma_parts(whole_use(a, b));
            lemma_add_not_negative(used, whole_use(a, b));
            lemma_accumulates(curve, burn_time_s, i + 1, used + whole_use(a, b));
        }
    }
}

/// What is drawn by a later clock is no less, but for sixteen roundings.
pub proof fn lemma_used_order(curve: Seq<BurnPoint>, early: F64, late: F64, i: int, used: F64)
    requires
        curve_fault(curve, 0) is None,
        early.is_finite(),
        late.is_finite(),
        early <= late,
        trace_kept(curve, early),
        trace_kept(curve, late),
        1 <= i <= curve.len(),
        curve[i - 1].time_s < early,
        amount(used),
        normal(consumed_from(curve, early, i, used)),
        normal(consumed_from(curve, late, i, used)),
    ensures
        at_most(value(consumed_from(curve, early, i, used)), value(consumed_from(curve, late, i, used)), 16),
    decreases curve.len() - i,
{
    lemma_one();
    lemma_stations(curve, 0);
    let first = consumed_from(curve, early, i, used);
    let second = consumed_from(curve, late, i, used);
    lemma_normal(first);
    lemma_normal(second);
    lemma_parts(used);
    if i == curve.len() {
        lemma_slack(16);
        lemma_times_order(1 as real, slack(16), value(used));
        lemma_times_one(value(used));
    } else {
        let (a, b) = (curve[i - 1], curve[i]);
        lemma_parts(b.time_s);
        lemma_parts(early);
        lemma_parts(late);
        let (low, high) = (value(a.mass_flow_kg_s), value(b.mass_flow_kg_s));
        let span = b.time_s - a.time_s;
        let half = value(dec(5, 1));
        lemma_half();
        lemma_amount(dec(5, 1));
        lemma_amount(a.mass_flow_kg_s);
        lemma_amount(b.mass_flow_kg_s);
        lemma_whole_span(a, b);
        if b.time_s < early {
            let next = used + whole_use(a, b);
            lemma_parts(whole_use(a, b));
            lemma_add_not_negative(used, whole_use(a, b));
            lemma_accumulates(curve, early, i + 1, next);
            lemma_parts(next);
            lemma_parts(first);
            lemma_within(next, first);
            lemma_used_order(curve, early, late, i + 1, next);
        } else {
            let begun = over(value(early - a.time_s), value(span));
            lemma_partial(a, b, early);
            if b.time_s >= late {
                let further = over(value(late - a.time_s), value(span));
                lemma_partial(a, b, late);
                lemma_negate(a.time_s);
                lemma_sum(early, a.time_s.negate());
                lemma_sum(late, a.time_s.negate());
                lemma_add_order(early, late, a.time_s.negate());
                lemma_value_order(early - a.time_s, late - a.time_s);
                if further < begun {
                    lemma_times_strict(further, begun, value(span));
                }
                lemma_drawn_order(half, low, high, begun, further, value(span));
                lemma_about_order(
                    value(partial_use(a, b, early)),
                    value(partial_use(a, b, late)),
                    drawn(half, low, high, begun, value(early - a.time_s)),
                    drawn(half, low, high, further, value(late - a.time_s)),
                    7,
                );
                lemma_added(used, partial_use(a, b, early), partial_use(a, b, late), 14);
            } else {
                let next = used + whole_use(a, b);
                lemma_parts(whole_use(a, b));
                lemma_add_not_negative(used, whole_use(a, b));
                lemma_accumulates(curve, late, i + 1, next);
                lemma_parts(next);
                lemma_parts(second);
                lemma_within(next, second);
                lemma_at_least_normal(whole_use(a, b), next);
                lemma_drawn_order(half, low, high, begun, 1 as real, value(span));
                lemma_about_order(
                    value(partial_use(a, b, early)),
                    value(whole_use(a, b)),
                    drawn(half, low, high, begun, value(early - a.time_s)),
                    drawn(half, low, high, 1 as real, times(1 as real, value(span))),
                    7,
                );
                lemma_added(used, partial_use(a, b, early), whole_use(a, b), 14);
                lemma_value_order(next, second);
                lemma_slack(16);
                lemma_times_order(value(next), value(second), slack(16));
            }
        }
    }
}

/// What is no less than a normal number is normal.
pub proof fn lemma_at_least_normal(x: F64, y: F64)
    requires
        normal(x),
        x <= y,
        y.is_finite(),
    ensures
        normal(y),
{
    lemma_normal(x);
    lemma_parts(x);
    lemma_parts(y);
    if y.pattern() < x.pattern() {
        lemma_mag_increasing(y.pattern(), x.pattern());
    }
}

} // verus!
