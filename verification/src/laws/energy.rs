//! Energy: what a nozzle makes of the heat released in its chamber.
use crate::engine::CompiledEngine;
use crate::error::Fault;
use crate::float::accuracy::{
    about, kept, lemma_about_bounds, lemma_about_chain, lemma_about_more, lemma_about_product, lemma_about_same,
    lemma_about_sum, lemma_about_turned, lemma_kept_product, lemma_normal, lemma_normal_sum, lemma_over,
    lemma_product_about, lemma_quotient_about, lemma_rest_about, lemma_slack, lemma_slack_adds, lemma_slack_small,
    lemma_sqrt_about, lemma_sum_about, lemma_times_adds, lemma_times_associates, lemma_times_commutes,
    lemma_times_one, lemma_times_order, lemma_times_positive, lemma_times_strict, lemma_times_unique,
    lemma_unit_value, lemma_value_order, normal, over, slack, step, times, value,
};
use crate::float::{dec, lemma_one, whole, F64};
use crate::float::decimals::{lemma_half, lemma_whole};
use crate::float::nearness::lemma_parts;
use crate::fusion::{CompiledFusionTorch, FusionTorchCommand, PulsedFusionSpec};
use crate::liquid::LiquidEngineSpec;
use crate::nuclear::NuclearThermalSpec;
use crate::numerics::Numerics;
use crate::propellant::FluidThermo;
use crate::solid::{CompiledSolid, SolidMotorSpec};
use vstd::arithmetic::power2::{lemma_pow2_pos, pow2};
use vstd::prelude::*;

verus! {

/// The temperature ratio of an expansion to a Mach number.
pub open spec fn temperature_ratio(gamma: F64, mach: F64) -> F64 {
    whole(1) + (gamma - whole(1)) / whole(2) * mach * mach
}

/// The exit temperature of an expansion.
pub open spec fn exit_temp(gamma: F64, chamber_temp_k: F64, mach: F64) -> F64 {
    chamber_temp_k / temperature_ratio(gamma, mach)
}

/// The exhaust velocity of an expansion.
pub open spec fn exhaust_velocity(gamma: F64, gas_constant: F64, chamber_temp_k: F64, mach: F64) -> F64 {
    mach * (gamma * gas_constant * exit_temp(gamma, chamber_temp_k, mach)).sqrt()
}

/// The heat released by a flow.
pub open spec fn heat(flow: F64, gamma: F64, gas_constant: F64, chamber_temp_k: F64) -> F64 {
    flow * (gamma * gas_constant / (gamma - whole(1))) * chamber_temp_k
}

/// The kinetic power of a flow.
pub open spec fn kinetic(flow: F64, velocity: F64) -> F64 {
    dec(5, 1) * flow * velocity * velocity
}

/// No value on the way from heat to exhaust is lost to underflow or overflow.
pub open spec fn ordinary(flow: F64, gamma: F64, gas_constant: F64, chamber_temp_k: F64, mach: F64) -> bool {
    let h = gamma - whole(1);
    let q = gamma * gas_constant;
    let exit = exit_temp(gamma, chamber_temp_k, mach);
    let v = exhaust_velocity(gamma, gas_constant, chamber_temp_k, mach);
    &&& normal(flow) && normal(chamber_temp_k) && normal(mach)
    &&& normal(h) && normal(h / whole(2)) && normal(h / whole(2) * mach) && normal(h / whole(2) * mach * mach)
    &&& normal(temperature_ratio(gamma, mach)) && normal(exit)
    &&& normal(q) && normal(q * exit) && normal((q * exit).sqrt()) && normal(v)
    &&& normal(q / h) && normal(flow * (q / h)) && normal(heat(flow, gamma, gas_constant, chamber_temp_k))
    &&& normal(dec(5, 1) * flow) && normal(dec(5, 1) * flow * v) && normal(kinetic(flow, v))
}

/// One half, one and two over the reals.
proof fn lemma_small_values()
    ensures
        value(dec(5, 1)) + value(dec(5, 1)) == (1 as real),
        value(whole(1)) == (1 as real),
        value(whole(2)) == (2 as real),
        !dec(5, 1).negative() && !whole(1).negative() && !whole(2).negative(),
        dec(5, 1).is_finite() && whole(1).is_finite() && whole(2).is_finite(),
        whole(2).units() > 0,
{
    lemma_one();
    lemma_half();
    lemma_whole(2);
    lemma_pow2_pos(1074);
    lemma_parts(whole(1));
    lemma_parts(whole(2));
    lemma_unit_value(dec(5, 1));
    lemma_unit_value(whole(1));
    lemma_unit_value(whole(2));
    let unit = pow2(1074) as real;
    lemma_times_one(unit);
    let (h, o, t) = (value(dec(5, 1)), value(whole(1)), value(whole(2)));
    lemma_times_adds(h, h, unit);
    lemma_times_unique(h + h, 1 as real, unit);
    lemma_times_unique(o, 1 as real, unit);
    lemma_times_unique(t, 2 as real, unit);
}

/// The temperature ratio is near one more than half the exponent excess times the
/// square of the Mach number.
proof fn lemma_ratio_about(gamma: F64, mach: F64)
    requires
        ({
            let h = gamma - whole(1);
            &&& normal(mach) && normal(h) && normal(h / whole(2)) && normal(h / whole(2) * mach)
            &&& normal(h / whole(2) * mach * mach)
            &&& normal(temperature_ratio(gamma, mach))
        }),
    ensures
        ({
            let h = gamma - whole(1);
            let d = h / whole(2) * mach * mach;
            let m = value(mach);
            &&& about(value(d), times(times(over(value(h), 2 as real), m), m), 3)
            &&& about(value(temperature_ratio(gamma, mach)), (1 as real) + value(d), 1)
        }),
{
    lemma_small_values();
    let h = gamma - whole(1);
    let d1 = h / whole(2);
    let d2 = d1 * mach;
    let d3 = d2 * mach;
    lemma_normal(h);
    lemma_normal(mach);
    lemma_normal(d1);
    lemma_normal(d2);
    lemma_normal(d3);
    lemma_quotient_about(h, whole(2));
    lemma_product_about(d1, mach);
    lemma_product_about(d2, mach);
    let (x, m) = (over(value(h), 2 as real), value(mach));
    lemma_about_same(m);
    lemma_about_product(value(d1), x, m, m, 1, 0);
    lemma_about_chain(value(d2), times(value(d1), m), times(x, m), 1, 1);
    lemma_about_product(value(d2), times(x, m), m, m, 2, 0);
    lemma_about_chain(value(d3), times(value(d2), m), times(times(x, m), m), 1, 2);
    lemma_one();
    lemma_parts(whole(1));
    lemma_parts(d3);
    lemma_sum_about(whole(1), d3);
}

/// The square of the exhaust velocity is near what the expansion leaves of the heat.
proof fn lemma_velocity_about(gamma: F64, gas_constant: F64, chamber_temp_k: F64, mach: F64)
    requires
        ({
            let q = gamma * gas_constant;
            let exit = exit_temp(gamma, chamber_temp_k, mach);
            &&& normal(chamber_temp_k) && normal(mach) && normal(temperature_ratio(gamma, mach)) && normal(exit)
            &&& normal(q) && normal(q * exit) && normal((q * exit).sqrt())
            &&& normal(exhaust_velocity(gamma, gas_constant, chamber_temp_k, mach))
        }),
    ensures
        ({
            let v = value(exhaust_velocity(gamma, gas_constant, chamber_temp_k, mach));
            let m = value(mach);
            let t = over(value(chamber_temp_k), value(temperature_ratio(gamma, mach)));
            about(times(v, v), times(times(m, m), times(value(gamma * gas_constant), t)), 6)
        }),
{
    let q = gamma * gas_constant;
    let ratio = temperature_ratio(gamma, mach);
    let exit = exit_temp(gamma, chamber_temp_k, mach);
    let z = q * exit;
    let s = z.sqrt();
    let v = mach * s;
    lemma_normal(q);
    lemma_normal(ratio);
    lemma_normal(exit);
    lemma_normal(z);
    lemma_normal(s);
    lemma_normal(v);
    lemma_normal(mach);
    lemma_normal(chamber_temp_k);
    lemma_quotient_about(chamber_temp_k, ratio);
    lemma_product_about(q, exit);
    lemma_sqrt_about(z);
    lemma_product_about(mach, s);
    let t = over(value(chamber_temp_k), value(ratio));
    let (vq, vm, vs, vv) = (value(q), value(mach), value(s), value(v));
    lemma_about_same(vq);
    lemma_about_product(vq, vq, value(exit), t, 0, 1);
    lemma_about_chain(value(z), times(vq, value(exit)), times(vq, t), 1, 1);
    lemma_about_chain(times(vs, vs), value(z), times(vq, t), 2, 2);
    let w = times(vm, vs);
    lemma_about_product(vv, w, vv, w, 1, 1);
    let mm = times(vm, vm);
    // The square of a product is the product of the squares.
    lemma_times_associates(vm, vs, w);
    lemma_times_commutes(vs, w);
    lemma_times_associates(vm, vs, vs);
    lemma_times_associates(vm, vm, times(vs, vs));
    assert(times(w, w) == times(mm, times(vs, vs)));
    lemma_times_positive(vm, vm);
    lemma_about_same(mm);
    lemma_about_product(mm, mm, times(vs, vs), times(vq, t), 0, 4);
    lemma_about_chain(times(vv, vv), times(w, w), times(mm, times(vq, t)), 2, 4);
}

/// The kinetic power of the exhaust stays below the heat released, however far the
/// nozzle expands it, up to a temperature ratio of ten million million.
proof fn lemma_kinetic_below_heat(flow: F64, gamma: F64, gas_constant: F64, chamber_temp_k: F64, mach: F64)
    requires
        ordinary(flow, gamma, gas_constant, chamber_temp_k, mach),
        value(temperature_ratio(gamma, mach)) <= (10_000_000_000_000 as real),
    ensures
        kinetic(flow, exhaust_velocity(gamma, gas_constant, chamber_temp_k, mach)) < heat(
            flow,
            gamma,
            gas_constant,
            chamber_temp_k,
        ),
{
    lemma_small_values();
    let h = gamma - whole(1);
    let q = gamma * gas_constant;
    let ratio = temperature_ratio(gamma, mach);
    let d = h / whole(2) * mach * mach;
    let v = exhaust_velocity(gamma, gas_constant, chamber_temp_k, mach);
    let cp = q / h;
    let fc = flow * cp;
    let released = heat(flow, gamma, gas_constant, chamber_temp_k);
    let k1 = dec(5, 1) * flow;
    let k2 = k1 * v;
    let k3 = k2 * v;
    lemma_normal(h);
    lemma_normal(q);
    lemma_normal(ratio);
    lemma_normal(d);
    lemma_normal(v);
    lemma_normal(cp);
    lemma_normal(fc);
    lemma_normal(released);
    lemma_normal(k1);
    lemma_normal(k2);
    lemma_normal(k3);
    lemma_normal(flow);
    lemma_normal(chamber_temp_k);
    lemma_normal(mach);
    lemma_ratio_about(gamma, mach);
    lemma_velocity_about(gamma, gas_constant, chamber_temp_k, mach);
    let (vh, vq, vd, vr) = (value(h), value(q), value(d), value(ratio));
    let (vm, vt, vf, vv) = (value(mach), value(chamber_temp_k), value(flow), value(v));
    // Kinetic power within nine roundings.
    lemma_product_about(dec(5, 1), flow);
    lemma_product_about(k1, v);
    lemma_product_about(k2, v);
    let half = value(dec(5, 1));
    let hf = times(half, vf);
    lemma_about_same(vv);
    lemma_about_product(value(k1), hf, vv, vv, 1, 0);
    lemma_about_chain(value(k2), times(value(k1), vv), times(hf, vv), 1, 1);
    lemma_about_product(value(k2), times(hf, vv), vv, vv, 2, 0);
    lemma_about_chain(value(k3), times(value(k2), vv), times(times(hf, vv), vv), 1, 2);
    let left = times(times(vm, vm), times(vq, over(vt, vr)));
    lemma_times_associates(hf, vv, vv);
    lemma_times_positive(half, vf);
    lemma_about_same(hf);
    lemma_about_product(hf, hf, times(vv, vv), left, 0, 6);
    lemma_about_chain(value(k3), times(hf, times(vv, vv)), times(hf, left), 3, 6);
    // Released heat within three roundings.
    lemma_quotient_about(q, h);
    lemma_product_about(flow, cp);
    lemma_product_about(fc, chamber_temp_k);
    let specific = over(vq, vh);
    lemma_about_same(vf);
    lemma_about_product(vf, vf, value(cp), specific, 0, 1);
    lemma_about_chain(value(fc), times(vf, value(cp)), times(vf, specific), 1, 1);
    lemma_about_same(vt);
    lemma_about_product(value(fc), times(vf, specific), vt, vt, 2, 0);
    lemma_about_chain(value(released), times(value(fc), vt), times(times(vf, specific), vt), 1, 2);
    lemma_times_adds(half, half, vf);
    lemma_times_one(vf);
    assert(hf + hf == vf);
    lemma_compare(vh, vq, vd, vr, vm, vt, vf, hf, value(k3), value(released));
    lemma_value_order(k3, released);
    lemma_parts(k3);
    lemma_parts(released);
}

/// Kinetic power times the temperature ratio is heat times its excess over one.
proof fn lemma_regroup(vh: real, vq: real, vr: real, vm: real, vt: real, vf: real, hf: real)
    requires
        vh > (0 as real),
        vr > (0 as real),
        hf + hf == vf,
    ensures
        times(times(hf, times(times(vm, vm), times(vq, over(vt, vr)))), vr) == times(
            times(times(vf, over(vq, vh)), vt),
            times(times(over(vh, 2 as real), vm), vm),
        ),
{
    let mm = times(vm, vm);
    let (sp, tr, hh) = (over(vq, vh), over(vt, vr), over(vh, 2 as real));
    lemma_over(vq, vh);
    lemma_over(vt, vr);
    lemma_over(vh, 2 as real);
    lemma_times_one(hh);
    assert(hh + hh == vh);
    let sh = times(sp, hh);
    lemma_times_adds(hh, hh, sp);
    assert(vq == sh + sh);
    // On the left, the ratio cancels.
    let a = times(vq, tr);
    let b = times(mm, a);
    lemma_times_associates(hf, b, vr);
    lemma_times_associates(mm, a, vr);
    lemma_times_associates(vq, tr, vr);
    assert(times(times(hf, b), vr) == times(hf, times(mm, times(vq, vt))));
    let st = times(sh, vt);
    lemma_times_adds(sh, sh, vt);
    assert(times(vq, vt) == st + st);
    let ms = times(mm, st);
    lemma_times_adds(st, st, mm);
    lemma_times_adds(ms, ms, hf);
    lemma_times_adds(hf, hf, ms);
    assert(times(hf, times(mm, times(vq, vt))) == times(vf, ms));
    // On the right, the factors are put in the same order.
    lemma_times_associates(hh, vm, vm);
    let hm = times(hh, mm);
    lemma_times_associates(times(vf, sp), vt, hm);
    lemma_times_associates(vf, sp, times(vt, hm));
    lemma_times_commutes(vt, hm);
    lemma_times_associates(hh, mm, vt);
    lemma_times_associates(sp, hh, times(mm, vt));
    lemma_times_associates(mm, sh, vt);
    lemma_times_commutes(mm, sh);
    lemma_times_associates(sh, mm, vt);
    assert(times(sp, times(vt, hm)) == ms);
}

/// The comparison itself, over the reals.
proof fn lemma_compare(
    vh: real,
    vq: real,
    vd: real,
    vr: real,
    vm: real,
    vt: real,
    vf: real,
    hf: real,
    power: real,
    released: real,
)
    requires
        vh > (0 as real),
        vd > (0 as real),
        vr > (0 as real),
        hf + hf == vf,
        released > (0 as real),
        vr <= (10_000_000_000_000 as real),
        about(vd, times(times(over(vh, 2 as real), vm), vm), 3),
        about(vr, (1 as real) + vd, 1),
        about(power, times(hf, times(times(vm, vm), times(vq, over(vt, vr)))), 9),
        about(released, times(times(vf, over(vq, vh)), vt), 3),
    ensures
        power < released,
{
    let one = 1 as real;
    let base = times(times(vf, over(vq, vh)), vt);
    let x = times(times(over(vh, 2 as real), vm), vm);
    let full = times(hf, times(times(vm, vm), times(vq, over(vt, vr))));
    lemma_regroup(vh, vq, vr, vm, vt, vf, hf);
    lemma_about_bounds(vd, x, 3);
    lemma_about_bounds(vr, one + vd, 1);
    lemma_about_bounds(power, full, 9);
    lemma_about_bounds(released, base, 3);
    lemma_slack(1);
    lemma_slack(3);
    lemma_slack(9);
    let (s1, s3, s9) = (slack(1), slack(3), slack(9));
    let y = one + vd;
    // Power times the ratio, in terms of the heat.
    lemma_times_order(power, times(full, s9), vr);
    lemma_times_associates(full, s9, vr);
    lemma_times_commutes(s9, vr);
    lemma_times_associates(full, vr, s9);
    assert(times(power, vr) <= times(times(base, x), s9));
    let ds = times(vd, s3);
    lemma_times_order(x, ds, base);
    lemma_times_positive(vd, s3);
    lemma_times_order(base, times(released, s3), ds);
    let rs = times(released, s3);
    assert(times(base, x) <= times(rs, ds));
    lemma_times_order(times(base, x), times(rs, ds), s9);
    // All slack in one place.
    let s33 = times(s3, s3);
    lemma_times_associates(released, s3, ds);
    lemma_times_commutes(s3, ds);
    lemma_times_associates(vd, s3, s3);
    assert(times(rs, ds) == times(released, times(vd, s33)));
    let ds33 = times(vd, s33);
    lemma_times_associates(released, ds33, s9);
    lemma_times_associates(vd, s33, s9);
    let s339 = times(s33, s9);
    let lost = times(vd, s339);
    assert(times(power, vr) <= times(released, lost));
    // What is left of the whole is more than what the roundings can hide.
    lemma_slack_adds(3, 3);
    lemma_slack_adds(6, 9);
    lemma_slack_adds(15, 1);
    assert(s339 == slack(15));
    let s16 = slack(16);
    lemma_times_associates(vd, s339, s1);
    assert(times(lost, s1) == times(vd, s16));
    lemma_slack_small(16);
    lemma_hidden(vd, vr, s1, s16);
    assert(times(vd, s16) < y);
    if lost >= vr {
        lemma_times_order(vr, lost, s1);
    }
    assert(lost < vr);
    if power >= released {
        lemma_times_order(released, power, vr);
        lemma_times_strict(lost, vr, released);
    }
}

/// Sixteen roundings hide less than one part of what is left.
proof fn lemma_hidden(vd: real, vr: real, s1: real, s16: real)
    requires
        vd > (0 as real),
        (0 as real) < vr,
        vr <= (10_000_000_000_000 as real),
        s1 == slack(1),
        s16 == slack(16),
        (1 as real) + vd <= times(vr, s1),
    ensures
        times(vd, s16) < (1 as real) + vd,
{
    let one = 1 as real;
    lemma_slack_small(1);
    lemma_slack_small(16);
    lemma_times_one(step());
    let e = step();
    lemma_thirty_two(e);
    // The ratio, with its slack, is below twice its bound.
    lemma_times_order(s1, 2 as real, vr);
    lemma_times_one(vr);
    assert(vd <= (20_000_000_000_000 as real));
    let f = (32 as real) * e;
    lemma_times_order(s16, one + f, vd);
    lemma_times_adds(one, f, vd);
    lemma_times_one(vd);
    lemma_times_order(vd, 20_000_000_000_000 as real, f);
    lemma_twenty(f);
}

proof fn lemma_thirty_two(e: real)
    ensures
        times((2 as real) * (16 as real), e) == (32 as real) * e,
        times((2 as real) * (1 as real), e) == (2 as real) * e,
{
    reveal(times);
}

proof fn lemma_twenty(f: real)
    requires
        f == (32 as real) * step(),
    ensures
        times(20_000_000_000_000 as real, f) < (1 as real),
{
    reveal(times);
}

/// An engine whose exhaust is that of its own chamber, expanded to its exit Mach number.
pub open spec fn expands(engine: &CompiledEngine) -> bool {
    match engine {
        CompiledEngine::Liquid(engine) => engine.exhaust_velocity_mps == exhaust_velocity(
            engine.gamma,
            engine.gas_constant_j_kg_k,
            engine.chamber_temp_k,
            engine.exit_mach,
        ),
        CompiledEngine::Solid(engine) => engine.exhaust_velocity_mps == exhaust_velocity(
            engine.gamma,
            engine.gas_constant_j_kg_k,
            engine.chamber_temp_k,
            engine.exit_mach,
        ),
    }
}

/// An engine in whose power figures nothing is lost to underflow or overflow, with a
/// temperature ratio below ten million million.
pub open spec fn ordinary_power(engine: &CompiledEngine) -> bool {
    match engine {
        CompiledEngine::Liquid(engine) => ordinary(
            engine.full_flow_kg_s,
            engine.gamma,
            engine.gas_constant_j_kg_k,
            engine.chamber_temp_k,
            engine.exit_mach,
        ) && value(temperature_ratio(engine.gamma, engine.exit_mach)) <= (10_000_000_000_000 as real),
        CompiledEngine::Solid(engine) => ordinary(
            engine.average_flow_kg_s(),
            engine.gamma,
            engine.gas_constant_j_kg_k,
            engine.chamber_temp_k,
            engine.exit_mach,
        ) && value(temperature_ratio(engine.gamma, engine.exit_mach)) <= (10_000_000_000_000 as real),
    }
}

/// Compilation gives engines whose exhaust is that of their own chamber.
pub proof fn lemma_compiled_expands<M: Numerics>(math: &M)
    ensures
        forall|spec: LiquidEngineSpec, fluids: FluidThermo|
            #![trigger spec.compiled(math, &fluids)]
            spec.compiled(math, &fluids) is Ok ==> expands(
                &CompiledEngine::Liquid(spec.compiled(math, &fluids)->Ok_0),
            ),
        forall|spec: NuclearThermalSpec|
            #![trigger spec.compiled(math)]
            spec.compiled(math) is Ok ==> expands(&CompiledEngine::Liquid(spec.compiled(math)->Ok_0.0)),
        forall|spec: SolidMotorSpec, motor: CompiledSolid|
            #![trigger spec.compiles_to(math, Ok::<CompiledSolid, Fault>(motor))]
            spec.compiles_to(math, Ok::<CompiledSolid, Fault>(motor)) ==> expands(&CompiledEngine::Solid(motor)),
{
}

/// The exhaust of an engine never carries more kinetic power than its chamber releases.
pub proof fn lemma_exhaust_below_chamber(engine: &CompiledEngine)
    requires
        expands(engine),
        ordinary_power(engine),
    ensures
        engine.exhaust_kinetic_power_w() < engine.chamber_power_w(),
{
    match engine {
        CompiledEngine::Liquid(engine) => {
            lemma_kinetic_below_heat(
                engine.full_flow_kg_s,
                engine.gamma,
                engine.gas_constant_j_kg_k,
                engine.chamber_temp_k,
                engine.exit_mach,
            );
        },
        CompiledEngine::Solid(engine) => {
            lemma_kinetic_below_heat(
                engine.average_flow_kg_s(),
                engine.gamma,
                engine.gas_constant_j_kg_k,
                engine.chamber_temp_k,
                engine.exit_mach,
            );
        },
    }
}

/// A share between zero and one of full precision, whose rest is of full precision or
/// nothing.
pub open spec fn ordinary_share(share: F64) -> bool {
    normal(share) && share <= whole(1) && (normal(whole(1) - share) || share.same(whole(1)))
}

/// No term of an energy balance is lost to underflow or overflow: of fusion energy `f`
/// and driver energy `d`, the share `c` is charged, of which `p` couples to the plasma,
/// of which `n` leaves as jet energy.
pub open spec fn ordinary_balance(f: F64, d: F64, c: F64, p: F64, n: F64, jet: F64) -> bool {
    let inner = f * c * p * (whole(1) - n);
    let waste = d + f * (whole(1) - c) + f * c * (whole(1) - p);
    &&& normal(f) && normal(d)
    &&& ordinary_share(c) && ordinary_share(p) && ordinary_share(n)
    &&& kept(f, c) && kept(f * c, p) && kept(f * c * p, whole(1) - n)
    &&& kept(f, whole(1) - c) && kept(f * c, whole(1) - p)
    &&& normal(d + f * (whole(1) - c)) && normal(waste)
    &&& normal(jet + inner) && normal(jet + inner + waste)
    &&& normal(f + d)
}

/// Jet energy, the energy that the exhaust keeps and waste heat add up to fusion energy
/// and driver energy, to within seven roundings.
proof fn lemma_balance_closes(f: F64, d: F64, c: F64, p: F64, n: F64, jet: F64)
    requires
        ordinary_balance(f, d, c, p, n, jet),
        jet.is_finite(),
        !jet.negative(),
        about(value(jet), times(value(f), times(times(value(c), value(p)), value(n))), 3),
    ensures
        about(
            value(jet + f * c * p * (whole(1) - n) + (d + f * (whole(1) - c) + f * c * (whole(1) - p))),
            value(f + d),
            7,
        ),
{
    lemma_small_values();
    lemma_normal(f);
    lemma_normal(d);
    lemma_normal(c);
    lemma_normal(p);
    lemma_normal(n);
    lemma_rest_about(c);
    lemma_rest_about(p);
    lemma_rest_about(n);
    let one = 1 as real;
    let (vf, vd, vc, vp, vn) = (value(f), value(d), value(c), value(p), value(n));
    let (rc, rp, rn) = (one - vc, one - vp, one - vn);
    lemma_about_same(vf);
    lemma_about_same(vp);
    lemma_about_same(vd);
    let cp = times(vc, vp);
    let jet_exact = times(vf, times(cp, vn));
    // Exhaust: three products and a rest.
    lemma_kept_product(f, c);
    lemma_kept_product(f * c, p);
    lemma_kept_product(f * c * p, whole(1) - n);
    let fc = times(vf, vc);
    let fcp = times(fc, vp);
    lemma_about_product(value(f * c), fc, vp, vp, 1, 0);
    lemma_about_chain(value(f * c * p), times(value(f * c), vp), fcp, 1, 1);
    lemma_about_product(value(f * c * p), fcp, value(whole(1) - n), rn, 2, 1);
    let inner = f * c * p * (whole(1) - n);
    let inner_exact = times(fcp, rn);
    lemma_about_chain(value(inner), times(value(f * c * p), value(whole(1) - n)), inner_exact, 1, 3);
    // Waste: the driver, the neutral share and what does not couple.
    lemma_kept_product(f, whole(1) - c);
    lemma_kept_product(f * c, whole(1) - p);
    lemma_about_product(vf, vf, value(whole(1) - c), rc, 0, 1);
    let neutral = f * (whole(1) - c);
    let neutral_exact = times(vf, rc);
    lemma_about_chain(value(neutral), times(vf, value(whole(1) - c)), neutral_exact, 1, 1);
    lemma_about_product(value(f * c), fc, value(whole(1) - p), rp, 1, 1);
    let loose = f * c * (whole(1) - p);
    let loose_exact = times(fc, rp);
    lemma_about_chain(value(loose), times(value(f * c), value(whole(1) - p)), loose_exact, 1, 2);
    lemma_normal(d + neutral);
    lemma_parts(neutral);
    lemma_parts(loose);
    lemma_sum_about(d, neutral);
    lemma_about_more(vd, vd, 0, 2);
    lemma_about_sum(vd, vd, value(neutral), neutral_exact, 2);
    lemma_about_chain(value(d + neutral), vd + value(neutral), vd + neutral_exact, 1, 2);
    lemma_sum_about(d + neutral, loose);
    lemma_about_sum(value(d + neutral), vd + neutral_exact, value(loose), loose_exact, 3);
    let waste = d + neutral + loose;
    let waste_exact = vd + neutral_exact + loose_exact;
    lemma_about_chain(value(waste), value(d + neutral) + value(loose), waste_exact, 1, 3);
    // All together.
    lemma_normal(jet + inner);
    lemma_parts(jet);
    lemma_parts(inner);
    lemma_normal_sum(jet, inner);
    lemma_about_more(value(jet), jet_exact, 3, 4);
    lemma_sum_about(jet, inner);
    lemma_about_sum(value(jet), jet_exact, value(inner), inner_exact, 4);
    lemma_about_chain(value(jet + inner), value(jet) + value(inner), jet_exact + inner_exact, 1, 4);
    lemma_normal(waste);
    lemma_sum_about(jet + inner, waste);
    lemma_about_more(value(waste), waste_exact, 4, 5);
    lemma_about_sum(value(jet + inner), jet_exact + inner_exact, value(waste), waste_exact, 5);
    let whole_exact = jet_exact + inner_exact + waste_exact;
    lemma_about_chain(value(jet + inner + waste), value(jet + inner) + value(waste), whole_exact, 1, 5);
    // The shares add up.
    lemma_times_associates(vf, cp, vn);
    lemma_times_associates(vf, vc, vp);
    lemma_times_adds(vn, rn, fcp);
    lemma_times_one(fcp);
    assert(jet_exact + inner_exact == fcp);
    lemma_times_adds(vp, rp, fc);
    lemma_times_one(fc);
    lemma_times_adds(vc, rc, vf);
    lemma_times_one(vf);
    assert(whole_exact == vf + vd);
    lemma_sum_about(f, d);
    lemma_about_turned(value(f + d), vf + vd, 1);
    lemma_about_chain(value(jet + inner + waste), vf + vd, value(f + d), 6, 1);
}

/// The jet energy, by either order of its factors.
proof fn lemma_jet_about(f: F64, c: F64, p: F64, n: F64)
    requires
        normal(f),
        ordinary_share(c),
        ordinary_share(p),
        ordinary_share(n),
    ensures
        kept(c, p) && kept(c * p, n) && kept(f, c * p * n) ==> {
            let jet = f * (c * p * n);
            jet.is_finite() && !jet.negative() && about(
                value(jet),
                times(value(f), times(times(value(c), value(p)), value(n))),
                3,
            )
        },
        kept(f, c) && kept(p, n) && kept(f * c, p * n) ==> {
            let jet = f * c * (p * n);
            jet.is_finite() && !jet.negative() && about(
                value(jet),
                times(value(f), times(times(value(c), value(p)), value(n))),
                3,
            )
        },
{
    lemma_normal(f);
    lemma_normal(c);
    lemma_normal(p);
    lemma_normal(n);
    let (vf, vc, vp, vn) = (value(f), value(c), value(p), value(n));
    let cp = times(vc, vp);
    lemma_about_same(vf);
    lemma_about_same(vn);
    if kept(c, p) && kept(c * p, n) && kept(f, c * p * n) {
        lemma_kept_product(c, p);
        lemma_kept_product(c * p, n);
        lemma_kept_product(f, c * p * n);
        lemma_about_product(value(c * p), cp, vn, vn, 1, 0);
        lemma_about_chain(value(c * p * n), times(value(c * p), vn), times(cp, vn), 1, 1);
        lemma_about_product(vf, vf, value(c * p * n), times(cp, vn), 0, 2);
        lemma_about_chain(value(f * (c * p * n)), times(vf, value(c * p * n)), times(vf, times(cp, vn)), 1, 2);
    }
    if kept(f, c) && kept(p, n) && kept(f * c, p * n) {
        lemma_kept_product(f, c);
        lemma_kept_product(p, n);
        lemma_kept_product(f * c, p * n);
        let (fc, pn) = (times(vf, vc), times(vp, vn));
        lemma_about_product(value(f * c), fc, value(p * n), pn, 1, 1);
        lemma_about_chain(value(f * c * (p * n)), times(value(f * c), value(p * n)), times(fc, pn), 1, 2);
        lemma_times_associates(vf, vc, pn);
        lemma_times_associates(vc, vp, vn);
    }
}

/// First law of the torch: jet power, the power that the exhaust keeps and waste heat
/// add up to fusion power and driver power, to within seven roundings.
pub proof fn lemma_torch_first_law(engine: &CompiledFusionTorch, command: FusionTorchCommand)
    requires
        ({
            let point = engine.balance(command);
            let c = engine.charged_energy_fraction;
            let p = engine.plasma_coupling_efficiency;
            let n = engine.magnetic_nozzle_efficiency;
            &&& ordinary_balance(point.fusion_power_w, point.driver_power_w, c, p, n, point.jet_kinetic_power_w)
            &&& kept(c, p) && kept(c * p, n) && kept(point.fusion_power_w, c * p * n)
        }),
    ensures
        ({
            let point = engine.balance(command);
            about(
                value(point.jet_kinetic_power_w + point.exhaust_internal_power_w + point.waste_heat_w),
                value(point.fusion_power_w + point.driver_power_w),
                7,
            )
        }),
{
    let point = engine.balance(command);
    let c = engine.charged_energy_fraction;
    let p = engine.plasma_coupling_efficiency;
    let n = engine.magnetic_nozzle_efficiency;
    lemma_jet_about(point.fusion_power_w, c, p, n);
    lemma_balance_closes(point.fusion_power_w, point.driver_power_w, c, p, n, point.jet_kinetic_power_w);
}

/// No term of a pulse's energy balance is lost to underflow or overflow.
pub open spec fn ordinary_pulse<M: Numerics>(spec: &PulsedFusionSpec, math: &M) -> bool {
    let engine = spec.sized(math);
    let c = spec.reaction.data().charged_energy_fraction;
    let p = spec.plasma_coupling_efficiency;
    let n = spec.magnetic_nozzle_efficiency;
    let f = engine.fusion_energy_per_pulse_j;
    &&& ordinary_balance(f, engine.driver_energy_per_pulse_j, c, p, n, engine.jet_energy_per_pulse_j)
    &&& kept(p, n) && kept(f * c, p * n)
}

/// First law of a pulse: jet energy, the energy that the exhaust keeps and waste heat of
/// a pulse add up to its fusion energy and driver energy, to within seven roundings.
pub proof fn lemma_pulse_first_law<M: Numerics>(spec: &PulsedFusionSpec, math: &M)
    requires
        ordinary_pulse(spec, math),
    ensures
        ({
            let engine = spec.sized(math);
            about(
                value(
                    engine.jet_energy_per_pulse_j + engine.exhaust_internal_energy_per_pulse_j
                        + engine.waste_heat_per_pulse_j,
                ),
                value(engine.fusion_energy_per_pulse_j + engine.driver_energy_per_pulse_j),
                7,
            )
        }),
{
    let engine = spec.sized(math);
    let c = spec.reaction.data().charged_energy_fraction;
    let p = spec.plasma_coupling_efficiency;
    let n = spec.magnetic_nozzle_efficiency;
    let f = engine.fusion_energy_per_pulse_j;
    lemma_jet_about(f, c, p, n);
    lemma_balance_closes(f, engine.driver_energy_per_pulse_j, c, p, n, engine.jet_energy_per_pulse_j);
}

} // verus!
