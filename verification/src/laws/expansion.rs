//! Expansion of a gas: what it loses in temperature it gains in speed, and a nozzle's
//! thrust is the momentum of its jet and the pressure on its exit.
use crate::air::{attached_flow, convergent_nozzle, critical_ratio, flow_function, nozzle_gross_efficiency, NozzleFlow};
use crate::constants::nozzle_efficiency;
use crate::float::accuracy::{
    about, lemma_about_bounds, lemma_about_chain, lemma_about_more, lemma_about_product, lemma_about_quotient,
    lemma_about_same, lemma_about_sum, lemma_about_turned, lemma_difference_about, lemma_normal, lemma_over,
    lemma_rest_about, lemma_times_adds, lemma_times_associates, lemma_times_commutes, lemma_times_one,
    lemma_times_positive, lemma_times_unique, lemma_value_order, normal, over, slack, times, value,
};
use crate::float::decimals::{lemma_decimal_between, lemma_whole};
use crate::float::errors::{allowance, lemma_size_times, lemma_times_difference, lemma_within_more, precise, size};
use crate::float::exact::{lemma_add_zero, lemma_nothing_over, lemma_sub_self, lemma_vanishing};
use crate::float::{lemma_one, whole, zero, F64};
use crate::float::nearness::lemma_parts;
use crate::float::order::{lemma_finite_terms, lemma_mul_commutes};
use crate::float::range::lemma_sized;
use crate::float::tracking::{
    lemma_about_itself, lemma_about_over, lemma_about_plus, lemma_about_root, lemma_about_times,
    lemma_tracks_exact_product, lemma_tracks_itself, lemma_tracks_product, lemma_tracks_quotient, lemma_tracks_sum,
    lemma_whole_value, tracks, unlost,
};
use crate::laws::stream::lemma_square_product;
use crate::nozzle::{area_ratio_from_mach, characteristic_velocity, exit_state_at, thrust_coefficient, NozzleExitState};
use crate::numerics::{powf, Numerics};
use crate::propellant::PropellantThermo;
use vstd::arithmetic::power2::{lemma2_to64, lemma_pow2_adds};
use vstd::arithmetic::power::pow;
use vstd::prelude::*;

verus! {

/// A gas of heat ratio `g` keeps its total enthalpy: at speed `v` and temperature `y` it has
/// what it had at rest at temperature `t`, up to `k` roundings. `gr` is the heat ratio
/// times the gas constant.
pub open spec fn enthalpy_kept(g: real, gr: real, v: real, y: real, t: real, k: nat) -> bool {
    about(times(g - (1 as real), times(v, v)) + times(times(2 as real, gr), y), times(times(2 as real, gr), t), k)
}

/// Enthalpy of a square and a temperature that stray.
proof fn lemma_enthalpy(g: real, gr: real, v: real, y: real, t: real, x: real, z: real, k: nat)
    requires
        g > (1 as real),
        gr > (0 as real),
        about(times(v, v), x, k),
        about(y, z, k),
        times(g - (1 as real), x) + times(times(2 as real, gr), z) == times(times(2 as real, gr), t),
    ensures
        enthalpy_kept(g, gr, v, y, t, k),
{
    let (one, heat) = (g - (1 as real), times(2 as real, gr));
    lemma_times_positive(2 as real, gr);
    lemma_about_same(one);
    lemma_about_same(heat);
    lemma_about_product(one, one, times(v, v), x, 0, k);
    lemma_about_product(heat, heat, y, z, 0, k);
    lemma_about_sum(times(one, times(v, v)), times(one, x), times(heat, y), times(heat, z), k);
}

/// Heat ratio less one, as it is calculated.
pub proof fn lemma_less_one(gamma: F64)
    requires
        normal(gamma),
        normal(gamma - whole(1)),
        whole(1) <= gamma,
    ensures
        about(value(gamma - whole(1)), value(gamma) - (1 as real), 1),
        value(gamma) - (1 as real) > (0 as real),
{
    lemma_normal(gamma);
    lemma_normal(gamma - whole(1));
    lemma_whole_value(1);
    lemma_one();
    lemma_parts(gamma);
    lemma_difference_about(gamma, whole(1));
    lemma_value_order(whole(1), gamma);
    if value(gamma) == (1 as real) {
        lemma_about_bounds(value(gamma - whole(1)), 0 as real, 1);
        lemma_times_adds(0 as real, 0 as real, slack(1));
    }
}

/// A speed of sound, no term of which is lost to underflow or overflow.
pub open spec fn sound_kept(gamma: F64, gas_r: F64, temp_k: F64) -> bool {
    &&& normal(gamma) && normal(gas_r) && normal(temp_k) && normal(gamma * gas_r) && normal(gamma * gas_r * temp_k)
    &&& normal((gamma * gas_r * temp_k).sqrt())
}

/// The square of the speed of sound.
proof fn lemma_sound(gamma: F64, gas_r: F64, temp_k: F64)
    requires
        sound_kept(gamma, gas_r, temp_k),
    ensures
        ({
            let a = value((gamma * gas_r * temp_k).sqrt());
            about(times(a, a), times(times(value(gamma), value(gas_r)), value(temp_k)), 4)
        }),
{
    lemma_normal(gamma);
    lemma_normal(gas_r);
    lemma_normal(temp_k);
    lemma_normal(gamma * gas_r);
    lemma_normal(gamma * gas_r * temp_k);
    lemma_about_itself(gamma);
    lemma_about_itself(gas_r);
    lemma_about_itself(temp_k);
    let gr = times(value(gamma), value(gas_r));
    lemma_about_times(gamma, gas_r, value(gamma), value(gas_r), 0, 0);
    lemma_about_times(gamma * gas_r, temp_k, gr, value(temp_k), 1, 0);
    lemma_about_root(gamma * gas_r * temp_k, times(gr, value(temp_k)), 2);
}

/// An expansion to a Mach number, no term of which is lost to underflow or overflow.
pub open spec fn expansion_kept(gamma: F64, gas_r: F64, total_k: F64, mach: F64) -> bool {
    let half = (gamma - whole(1)) / whole(2);
    let factor = whole(1) + half * mach * mach;
    let temp_k = total_k / factor;
    &&& normal(total_k) && normal(mach) && whole(1) <= gamma && normal(gamma - whole(1)) && normal(half)
    &&& normal(half * mach) && normal(half * mach * mach) && normal(factor)
    &&& sound_kept(gamma, gas_r, temp_k) && normal(mach * (gamma * gas_r * temp_k).sqrt())
}

/// A gas expanded to a Mach number keeps its total enthalpy, to within twelve roundings,
/// and its speed is that many times the speed of sound, to within six.
proof fn lemma_expanded(gamma: F64, gas_r: F64, total_k: F64, mach: F64)
    requires
        expansion_kept(gamma, gas_r, total_k, mach),
    ensures
        ({
            let factor = whole(1) + (gamma - whole(1)) / whole(2) * mach * mach;
            let temp_k = total_k / factor;
            let v = value(mach * (gamma * gas_r * temp_k).sqrt());
            let gr = times(value(gamma), value(gas_r));
            &&& enthalpy_kept(value(gamma), gr, v, value(temp_k), value(total_k), 12)
            &&& about(times(v, v), times(times(value(mach), value(mach)), times(gr, value(temp_k))), 6)
        }),
{
    let (two, one) = (2 as real, 1 as real);
    let half = (gamma - whole(1)) / whole(2);
    let factor = whole(1) + half * mach * mach;
    let temp_k = total_k / factor;
    let sound = (gamma * gas_r * temp_k).sqrt();
    let (g, m, t, y) = (value(gamma), value(mach), value(total_k), value(temp_k));
    let gr = times(g, value(gas_r));
    lemma_normal(gamma);
    lemma_normal(gas_r);
    lemma_normal(total_k);
    lemma_normal(temp_k);
    lemma_normal(mach);
    lemma_normal(gamma - whole(1));
    lemma_normal(half);
    lemma_normal(half * mach);
    lemma_normal(half * mach * mach);
    lemma_normal(factor);
    lemma_normal(sound);
    lemma_whole_value(1);
    lemma_whole_value(2);
    lemma_sized_two();
    lemma_about_itself(whole(1));
    lemma_about_itself(whole(2));
    lemma_about_itself(mach);
    lemma_about_itself(total_k);
    lemma_about_itself(sound);
    lemma_less_one(gamma);
    let h = over(g - one, two);
    lemma_over(g - one, two);
    lemma_about_over(gamma - whole(1), whole(2), g - one, two, 1, 0);
    lemma_about_times(half, mach, h, m, 2, 0);
    lemma_about_times(half * mach, mach, times(h, m), m, 3, 0);
    let swing = times(times(h, m), m);
    lemma_about_plus(whole(1), half * mach * mach, one, swing, 0, 4);
    let f = one + swing;
    lemma_times_positive(h, m);
    lemma_times_positive(times(h, m), m);
    lemma_about_over(total_k, factor, t, f, 0, 5);
    let z = over(t, f);
    lemma_over(t, f);
    // The speed.
    lemma_sound(gamma, gas_r, temp_k);
    lemma_about_times(mach, sound, m, value(sound), 0, 0);
    let v = value(mach * sound);
    lemma_about_product(v, times(m, value(sound)), v, times(m, value(sound)), 1, 1);
    lemma_square_product(m, value(sound));
    lemma_times_positive(m, m);
    lemma_about_same(times(m, m));
    lemma_about_product(times(m, m), times(m, m), times(value(sound), value(sound)), times(gr, y), 0, 4);
    lemma_about_chain(
        times(v, v),
        times(times(m, m), times(value(sound), value(sound))),
        times(times(m, m), times(gr, y)),
        2,
        4,
    );
    lemma_times_positive(g, value(gas_r));
    lemma_about_same(gr);
    lemma_about_product(gr, gr, y, z, 0, 6);
    lemma_about_product(times(m, m), times(m, m), times(gr, y), times(gr, z), 0, 6);
    let x = times(times(m, m), times(gr, z));
    lemma_about_chain(times(v, v), times(times(m, m), times(gr, y)), x, 6, 6);
    lemma_about_more(y, z, 6, 12);
    lemma_swing(g, gr, m, h, z, t);
    lemma_enthalpy(g, gr, v, y, t, x, z, 12);
}

/// Two is an ordinary number.
pub proof fn lemma_sized_two()
    ensures
        normal(whole(2)),
        normal(whole(1)),
{
    lemma_whole_value(1);
    lemma_whole_value(2);
    lemma_whole(1);
    lemma_whole(2);
    lemma2_to64();
    lemma_pow2_adds(1074, 1);
    lemma_sized(whole(2), 1, 1);
    lemma_sized(whole(1), 0, 0);
}

/// The enthalpy of a swing.
proof fn lemma_swing(g: real, gr: real, m: real, h: real, z: real, t: real)
    requires
        times(h, 2 as real) == g - (1 as real),
        times(z, (1 as real) + times(times(h, m), m)) == t,
    ensures
        times(g - (1 as real), times(times(m, m), times(gr, z))) + times(times(2 as real, gr), z) == times(
            times(2 as real, gr),
            t,
        ),
{
    let (two, one, swing) = (2 as real, 1 as real, times(times(h, m), m));
    let w = times(gr, z);
    // (g - 1) m m w == 2 swing w
    lemma_times_commutes(h, two);
    lemma_times_associates(two, h, times(times(m, m), w));
    lemma_times_associates(h, times(m, m), w);
    lemma_times_associates(h, m, m);
    // 2 gr z == 2 w
    lemma_times_associates(two, gr, z);
    // 2 gr t == 2 (w (1 + swing))
    lemma_times_associates(two, gr, t);
    lemma_times_associates(gr, z, one + swing);
    lemma_times_adds(one, swing, w);
    lemma_times_one(w);
    lemma_times_commutes(w, one + swing);
    lemma_times_commutes(w, swing);
    lemma_times_adds(times(swing, w), w, two);
}

/// An engine's exhaust keeps the total enthalpy of its chamber: what it has lost in
/// temperature it has gained in speed, to within twelve roundings; and its speed is its
/// Mach number times the speed of sound at the exit, to within six.
pub proof fn lemma_exhaust_enthalpy<M: Numerics>(math: &M, thermo: &PropellantThermo, exit_mach: F64)
    requires
        expansion_kept(thermo.gamma, thermo.gas_constant_j_kg_k, thermo.chamber_temp_k, exit_mach),
    ensures
        ({
            let exit = exit_state_at(math, thermo, exit_mach);
            let gr = times(value(thermo.gamma), value(thermo.gas_constant_j_kg_k));
            let (v, y, m) = (value(exit.exhaust_velocity_mps), value(exit.exit_temp_k), value(exit.exit_mach));
            &&& enthalpy_kept(value(thermo.gamma), gr, v, y, value(thermo.chamber_temp_k), 12)
            &&& about(times(v, v), times(times(m, m), times(gr, y)), 6)
        }),
{
    lemma_expanded(thermo.gamma, thermo.gas_constant_j_kg_k, thermo.chamber_temp_k, exit_mach);
}

/// The two reckonings of a choked flow, no term of which is lost to underflow or overflow.
pub open spec fn choked_kept(gamma: F64, gas_r: F64, temp_k: F64, power: F64) -> bool {
    &&& normal(gamma) && normal(gas_r) && normal(temp_k) && normal(power) && normal(gas_r * temp_k)
    &&& normal((gas_r * temp_k).sqrt()) && normal(gamma.sqrt()) && normal(gamma.sqrt() * power)
    &&& normal((gas_r * temp_k).sqrt() / (gamma.sqrt() * power))
    &&& normal(gamma / (gas_r * temp_k)) && normal((gamma / (gas_r * temp_k)).sqrt())
    &&& normal(power * (gamma / (gas_r * temp_k)).sqrt())
}

/// The square of the characteristic velocity.
proof fn lemma_characteristic(gamma: F64, gas_r: F64, temp_k: F64, power: F64)
    requires
        choked_kept(gamma, gas_r, temp_k, power),
    ensures
        ({
            let c = value((gas_r * temp_k).sqrt() / (gamma.sqrt() * power));
            let (g, p, rt) = (value(gamma), value(power), times(value(gas_r), value(temp_k)));
            &&& about(times(c, c), over(rt, times(g, times(p, p))), 9)
            &&& rt > (0 as real) && times(p, p) > (0 as real) && times(g, times(p, p)) > (0 as real)
        }),
{
    let heat = gas_r * temp_k;
    let (s, root, bottom) = (heat.sqrt(), gamma.sqrt(), gamma.sqrt() * power);
    let (g, p) = (value(gamma), value(power));
    lemma_normal(gamma);
    lemma_normal(gas_r);
    lemma_normal(temp_k);
    lemma_normal(power);
    lemma_normal(heat);
    lemma_normal(s);
    lemma_normal(root);
    lemma_normal(bottom);
    lemma_about_itself(gamma);
    lemma_about_itself(gas_r);
    lemma_about_itself(temp_k);
    lemma_about_itself(power);
    lemma_about_itself(s);
    lemma_about_itself(root);
    lemma_about_itself(bottom);
    let rt = times(value(gas_r), value(temp_k));
    lemma_times_positive(value(gas_r), value(temp_k));
    lemma_about_times(gas_r, temp_k, value(gas_r), value(temp_k), 0, 0);
    lemma_about_root(heat, rt, 1);
    lemma_about_root(gamma, g, 0);
    // bottom^2 ~ g p^2
    lemma_about_times(root, power, value(root), p, 0, 0);
    let b = value(bottom);
    lemma_about_product(b, times(value(root), p), b, times(value(root), p), 1, 1);
    lemma_square_product(value(root), p);
    lemma_times_positive(p, p);
    lemma_about_same(times(p, p));
    lemma_about_product(times(value(root), value(root)), g, times(p, p), times(p, p), 2, 0);
    let gp = times(g, times(p, p));
    lemma_about_chain(times(b, b), times(times(value(root), value(root)), times(p, p)), gp, 2, 2);
    lemma_times_positive(g, times(p, p));
    // c^2 ~ rt / (g p^2)
    let c = value(s / bottom);
    lemma_about_over(s, bottom, value(s), b, 0, 0);
    lemma_about_product(c, over(value(s), b), c, over(value(s), b), 1, 1);
    lemma_times_positive(b, b);
    lemma_square_quotient(value(s), b);
    lemma_about_quotient(times(value(s), value(s)), rt, times(b, b), gp, 3, 4);
    lemma_about_chain(
        times(c, c),
        over(times(value(s), value(s)), times(b, b)),
        over(rt, gp),
        2,
        7,
    );
}

/// The throat of a rocket and that of a jet choke alike: the flow that a pressure drives
/// through a unit of throat is one over the characteristic velocity of the gas, and this is
/// the flow function of a nozzle. The square of their product is one, to within fifteen
/// roundings.
pub proof fn lemma_throats_choke_alike<M: Numerics>(math: &M, thermo: &PropellantThermo)
    requires
        ({
            let gamma = thermo.gamma;
            choked_kept(
                gamma,
                thermo.gas_constant_j_kg_k,
                thermo.chamber_temp_k,
                powf(
                    math,
                    whole(2) / (gamma + whole(1)),
                    (gamma + whole(1)) / (whole(2) * (gamma - whole(1))),
                ),
            )
        }),
    ensures
        ({
            let (c, f) = (
                value(characteristic_velocity(math, thermo)),
                value(flow_function(math, thermo.chamber_temp_k, thermo.gamma, thermo.gas_constant_j_kg_k)),
            );
            about(times(times(c, f), times(c, f)), 1 as real, 15)
        }),
{
    let (gamma, gas_r, temp_k) = (thermo.gamma, thermo.gas_constant_j_kg_k, thermo.chamber_temp_k);
    let power = powf(math, whole(2) / (gamma + whole(1)), (gamma + whole(1)) / (whole(2) * (gamma - whole(1))));
    let heat = gas_r * temp_k;
    let ratio = gamma / heat;
    let tail = ratio.sqrt();
    let (g, p) = (value(gamma), value(power));
    lemma_normal(gamma);
    lemma_normal(gas_r);
    lemma_normal(temp_k);
    lemma_normal(power);
    lemma_normal(heat);
    lemma_normal(ratio);
    lemma_normal(tail);
    lemma_about_itself(gamma);
    lemma_about_itself(gas_r);
    lemma_about_itself(temp_k);
    lemma_about_itself(power);
    lemma_about_itself(tail);
    let rt = times(value(gas_r), value(temp_k));
    lemma_about_times(gas_r, temp_k, value(gas_r), value(temp_k), 0, 0);
    lemma_characteristic(gamma, gas_r, temp_k, power);
    let gp = times(g, times(p, p));
    let c = value(characteristic_velocity(math, thermo));
    lemma_about_same(times(p, p));
    // f^2 ~ p^2 g / rt
    lemma_about_over(gamma, heat, g, rt, 0, 1);
    lemma_about_root(ratio, over(g, rt), 2);
    let f = value(power * tail);
    lemma_about_times(power, tail, p, value(tail), 0, 0);
    lemma_about_product(f, times(p, value(tail)), f, times(p, value(tail)), 1, 1);
    lemma_square_product(p, value(tail));
    lemma_about_product(times(p, p), times(p, p), times(value(tail), value(tail)), over(g, rt), 0, 4);
    lemma_about_chain(
        times(f, f),
        times(times(p, p), times(value(tail), value(tail))),
        times(times(p, p), over(g, rt)),
        2,
        4,
    );
    lemma_about_product(times(c, c), over(rt, gp), times(f, f), times(times(p, p), over(g, rt)), 9, 6);
    lemma_square_product(c, f);
    // rt / (g p^2) * p^2 * g / rt == 1
    let (first, second) = (over(rt, gp), times(times(p, p), over(g, rt)));
    lemma_over(rt, gp);
    lemma_over(g, rt);
    lemma_times_associates(times(p, p), over(g, rt), rt);
    lemma_times_commutes(times(p, p), g);
    // first gp == rt, second rt == gp
    lemma_times_associates(first, second, rt);
    lemma_times_one(rt);
    lemma_times_unique(times(first, second), 1 as real, rt);
}

/// The square of a quotient.
proof fn lemma_square_quotient(a: real, b: real)
    requires
        b > (0 as real),
    ensures
        times(over(a, b), over(a, b)) == over(times(a, a), times(b, b)),
{
    let q = over(a, b);
    lemma_times_positive(b, b);
    lemma_over(a, b);
    lemma_over(times(a, a), times(b, b));
    lemma_square_product(q, b);
    lemma_times_unique(times(q, q), over(times(a, a), times(b, b)), times(b, b));
}

/// The flow of a nozzle is a jet of speed `v` that keeps the total enthalpy of the gas, to
/// within twelve roundings, and its gross thrust is the nozzle's share of the momentum of
/// that jet and the excess of exit over ambient pressure on the exit area, to within
/// sixteen.
pub open spec fn jet_of(
    flow: NozzleFlow,
    mdot_kg_s: F64,
    total_k: F64,
    area_m2: F64,
    gamma: F64,
    gas_r: F64,
    ambient_pa: F64,
    v: real,
) -> bool {
    let momentum = times(times(value(nozzle_gross_efficiency()), value(mdot_kg_s)), v);
    let (exit, ambient, area) = (value(flow.exit_pressure_pa), value(ambient_pa), value(area_m2));
    let bound = size(momentum) + times(size(exit) + size(ambient), size(area));
    &&& v >= (0 as real)
    &&& enthalpy_kept(
        value(gamma),
        times(value(gamma), value(gas_r)),
        v,
        value(flow.exit_temp_k),
        value(total_k),
        12,
    )
    &&& size(value(flow.thrust_gross_n) - (momentum + times(exit - ambient, area))) <= times(bound, allowance(16))
}

/// The push of a jet, no term of which is lost to underflow or overflow.
pub open spec fn gross_kept(mdot_kg_s: F64, speed: F64, exit_pa: F64, ambient_pa: F64, area_m2: F64) -> bool {
    let eta = nozzle_gross_efficiency();
    let jet = eta * mdot_kg_s * speed;
    &&& mdot_kg_s.is_finite() && speed.is_finite() && exit_pa.is_finite() && ambient_pa.is_finite()
    &&& area_m2.is_finite()
    &&& unlost(eta, mdot_kg_s) && unlost(eta * mdot_kg_s, speed) && (exit_pa - ambient_pa).is_finite()
    &&& unlost(exit_pa - ambient_pa, area_m2) && (jet + (exit_pa - ambient_pa) * area_m2).is_finite()
}

/// Momentum and pressure of a push, as they are calculated.
proof fn lemma_pushes(mdot_kg_s: F64, speed: F64, exit_pa: F64, ambient_pa: F64, area_m2: F64)
    requires
        gross_kept(mdot_kg_s, speed, exit_pa, ambient_pa, area_m2),
    ensures
        ({
            let eta = nozzle_gross_efficiency();
            let momentum = times(times(value(eta), value(mdot_kg_s)), value(speed));
            let (exit, ambient, area) = (value(exit_pa), value(ambient_pa), value(area_m2));
            let thrust = eta * mdot_kg_s * speed + (exit_pa - ambient_pa) * area_m2;
            &&& tracks(
                thrust,
                momentum + times(exit - ambient, area),
                size(momentum) + times(size(exit) + size(ambient), size(area)),
                16,
            )
            &&& tracks(eta * mdot_kg_s * speed, momentum, size(momentum), 12)
        }),
{
    let eta = nozzle_gross_efficiency();
    reveal_with_fuel(pow, 3);
    lemma_decimal_between(95, 2, 0, 1);
    let (e, m, v) = (value(eta), value(mdot_kg_s), value(speed));
    lemma_tracks_exact_product(eta, mdot_kg_s);
    lemma_tracks_itself(speed);
    lemma_tracks_itself(exit_pa);
    lemma_tracks_itself(ambient_pa);
    lemma_tracks_itself(area_m2);
    lemma_tracks_product(eta * mdot_kg_s, speed, times(e, m), v, size(times(e, m)), size(v), 4, 0);
    let momentum = times(times(e, m), v);
    assert(times(size(times(e, m)), size(v)) == size(momentum)) by {
        lemma_size_product(times(e, m), v);
    }
    let (exit, ambient, area) = (value(exit_pa), value(ambient_pa), value(area_m2));
    lemma_tracks_sum(exit_pa, ambient_pa, exit, ambient, size(exit), size(ambient), 0, 0);
    lemma_tracks_product(
        exit_pa - ambient_pa,
        area_m2,
        exit - ambient,
        area,
        size(exit) + size(ambient),
        size(area),
        4,
        0,
    );
    lemma_tracks_sum(
        eta * mdot_kg_s * speed,
        (exit_pa - ambient_pa) * area_m2,
        momentum,
        times(exit - ambient, area),
        size(momentum),
        times(size(exit) + size(ambient), size(area)),
        12,
        12,
    );
}

/// The size of a product is the product of the sizes.
pub proof fn lemma_size_product(a: real, b: real)
    ensures
        size(times(a, b)) == times(size(a), size(b)),
{
    lemma_size_times(a, size(b));
    if b < (0 as real) {
        lemma_times_difference(0 as real, b, a);
        lemma_times_commutes(a, b);
        lemma_times_commutes(a, -b);
        lemma_times_adds(0 as real, 0 as real, a);
    }
}

/// A sonic exit, no term of which is lost to underflow or overflow.
pub open spec fn sonic_kept(total_k: F64, gamma: F64, gas_r: F64) -> bool {
    let temp_k = total_k * whole(2) / (gamma + whole(1));
    &&& normal(total_k) && normal(total_k * whole(2)) && normal(gamma + whole(1)) && whole(1) < gamma
    &&& sound_kept(gamma, gas_r, temp_k)
}

/// A sonic exit keeps the total enthalpy.
proof fn lemma_sonic(total_k: F64, gamma: F64, gas_r: F64)
    requires
        sonic_kept(total_k, gamma, gas_r),
    ensures
        ({
            let temp_k = total_k * whole(2) / (gamma + whole(1));
            let v = value((gamma * gas_r * temp_k).sqrt());
            enthalpy_kept(value(gamma), times(value(gamma), value(gas_r)), v, value(temp_k), value(total_k), 12)
        }),
{
    let (two, one) = (2 as real, 1 as real);
    let temp_k = total_k * whole(2) / (gamma + whole(1));
    let speed = (gamma * gas_r * temp_k).sqrt();
    let (g, t, y) = (value(gamma), value(total_k), value(temp_k));
    let gr = times(g, value(gas_r));
    lemma_normal(gamma);
    lemma_normal(gas_r);
    lemma_normal(total_k);
    lemma_normal(total_k * whole(2));
    lemma_normal(gamma + whole(1));
    lemma_normal(temp_k);
    lemma_sized_two();
    lemma_normal(whole(1));
    lemma_whole_value(1);
    lemma_whole_value(2);
    lemma_value_order(gamma, whole(1));
    lemma_about_itself(gamma);
    lemma_about_itself(total_k);
    lemma_about_itself(whole(1));
    lemma_about_itself(whole(2));
    lemma_about_times(total_k, whole(2), t, two, 0, 0);
    lemma_about_plus(gamma, whole(1), g, one, 0, 0);
    lemma_about_over(total_k * whole(2), gamma + whole(1), times(t, two), g + one, 1, 1);
    let z = over(times(t, two), g + one);
    lemma_over(times(t, two), g + one);
    lemma_sound(gamma, gas_r, temp_k);
    let v = value(speed);
    lemma_times_positive(g, value(gas_r));
    lemma_about_same(gr);
    lemma_about_product(gr, gr, y, z, 0, 3);
    lemma_about_chain(times(v, v), times(gr, y), times(gr, z), 4, 3);
    lemma_about_more(times(v, v), times(gr, z), 7, 12);
    lemma_about_more(y, z, 3, 12);
    // (g - 1) gr z + 2 gr z == (g + 1) gr z == 2 gr t
    let w = times(gr, z);
    lemma_times_adds(g - one, two, w);
    lemma_times_associates(two, gr, z);
    lemma_times_commutes(g + one, w);
    lemma_times_associates(gr, z, g + one);
    lemma_times_associates(gr, t, two);
    lemma_times_commutes(times(gr, t), two);
    lemma_times_associates(two, gr, t);
    lemma_enthalpy(g, gr, v, y, t, times(gr, z), z, 12);
}

/// An expansion down to ambient pressure, no term of which is lost to underflow or
/// overflow; `left` is the share of the temperature that is left.
pub open spec fn subsonic_kept(total_k: F64, gamma: F64, gas_r: F64, left: F64) -> bool {
    let heat = whole(2) * gamma * gas_r;
    let rate = heat / (gamma - whole(1));
    let square = rate * total_k * (whole(1) - left);
    &&& normal(total_k) && normal(gamma) && normal(gas_r) && whole(1) <= gamma && normal(gamma - whole(1))
    &&& normal(left) && left <= whole(1) && normal(whole(1) - left)
    &&& normal(whole(2) * gamma) && normal(heat) && normal(rate) && normal(rate * total_k) && normal(square)
    &&& normal(square.sqrt()) && normal(total_k * left)
}

/// An expansion down to ambient pressure keeps the total enthalpy.
proof fn lemma_subsonic(total_k: F64, gamma: F64, gas_r: F64, left: F64)
    requires
        subsonic_kept(total_k, gamma, gas_r, left),
    ensures
        ({
            let v = value(
                (whole(2) * gamma * gas_r / (gamma - whole(1)) * total_k * (whole(1) - left)).sqrt(),
            );
            enthalpy_kept(
                value(gamma),
                times(value(gamma), value(gas_r)),
                v,
                value(total_k * left),
                value(total_k),
                12,
            )
        }),
{
    let (two, one) = (2 as real, 1 as real);
    let heat = whole(2) * gamma * gas_r;
    let rate = heat / (gamma - whole(1));
    let square = rate * total_k * (whole(1) - left);
    let (g, t, x) = (value(gamma), value(total_k), value(left));
    let gr = times(g, value(gas_r));
    lemma_normal(gamma);
    lemma_normal(gas_r);
    lemma_normal(total_k);
    lemma_normal(left);
    lemma_normal(whole(1) - left);
    lemma_normal(gamma - whole(1));
    lemma_normal(whole(2) * gamma);
    lemma_normal(heat);
    lemma_normal(rate);
    lemma_normal(rate * total_k);
    lemma_normal(square);
    lemma_normal(total_k * left);
    lemma_sized_two();
    lemma_normal(whole(2));
    lemma_whole_value(1);
    lemma_whole_value(2);
    lemma_one();
    lemma_parts(left);
    lemma_about_itself(gamma);
    lemma_about_itself(gas_r);
    lemma_about_itself(total_k);
    lemma_about_itself(left);
    lemma_about_itself(whole(2));
    lemma_less_one(gamma);
    lemma_rest_about(left);
    lemma_about_times(whole(2), gamma, two, g, 0, 0);
    lemma_about_times(whole(2) * gamma, gas_r, times(two, g), value(gas_r), 1, 0);
    lemma_times_associates(two, g, value(gas_r));
    let h = times(two, gr);
    lemma_about_over(heat, gamma - whole(1), h, g - one, 2, 1);
    let q = over(h, g - one);
    lemma_over(h, g - one);
    lemma_about_times(rate, total_k, q, t, 4, 0);
    lemma_about_times(rate * total_k, whole(1) - left, times(q, t), one - x, 5, 1);
    let ideal = times(times(q, t), one - x);
    lemma_about_root(square, ideal, 7);
    let v = value(square.sqrt());
    lemma_about_more(times(v, v), ideal, 9, 12);
    lemma_about_times(total_k, left, t, x, 0, 0);
    lemma_about_more(value(total_k * left), times(t, x), 1, 12);
    // (g - 1) q t (1 - x) + 2 gr t x == 2 gr t
    lemma_times_commutes(q, g - one);
    lemma_times_associates(g - one, times(q, t), one - x);
    lemma_times_associates(g - one, q, t);
    lemma_times_associates(h, t, x);
    let all = times(h, t);
    lemma_times_adds(one - x, x, all);
    lemma_times_one(all);
    lemma_times_positive(g, value(gas_r));
    lemma_enthalpy(g, gr, v, value(total_k * left), t, ideal, times(t, x), 12);
}

/// A convergent nozzle that flows, no term of which is lost to underflow or overflow.
pub open spec fn convergent_kept<M: Numerics>(
    math: &M,
    mdot_kg_s: F64,
    total_k: F64,
    total_pa: F64,
    area_m2: F64,
    gamma: F64,
    gas_r: F64,
    ambient_pa: F64,
) -> bool {
    let crit = critical_ratio(math, gamma);
    &&& zero() < mdot_kg_s && zero() < total_pa && zero() < area_m2 && ambient_pa < total_pa
    &&& if total_pa / ambient_pa.max(whole(1)) > crit {
        let temp_k = total_k * whole(2) / (gamma + whole(1));
        &&& sonic_kept(total_k, gamma, gas_r)
        &&& gross_kept(mdot_kg_s, (gamma * gas_r * temp_k).sqrt(), total_pa / crit, ambient_pa, area_m2)
    } else {
        let left = powf(math, ambient_pa / total_pa, (gamma - whole(1)) / gamma);
        let speed = (whole(2) * gamma * gas_r / (gamma - whole(1)) * total_k * (whole(1) - left)).sqrt();
        &&& subsonic_kept(total_k, gamma, gas_r, left)
        &&& gross_kept(mdot_kg_s, speed, ambient_pa, ambient_pa, area_m2)
    }
}

/// A convergent nozzle that flows, choked or not, gives the thrust of one jet that has
/// gained in speed what the gas has lost in temperature.
pub proof fn lemma_convergent_jet<M: Numerics>(
    math: &M,
    mdot_kg_s: F64,
    total_k: F64,
    total_pa: F64,
    area_m2: F64,
    gamma: F64,
    gas_r: F64,
    ambient_pa: F64,
)
    requires
        convergent_kept(math, mdot_kg_s, total_k, total_pa, area_m2, gamma, gas_r, ambient_pa),
    ensures
        exists|v: real| #[trigger]
            jet_of(
                convergent_nozzle(math, mdot_kg_s, total_k, total_pa, area_m2, gamma, gas_r, ambient_pa),
                mdot_kg_s,
                total_k,
                area_m2,
                gamma,
                gas_r,
                ambient_pa,
                v,
            ),
{
    let flow = convergent_nozzle(math, mdot_kg_s, total_k, total_pa, area_m2, gamma, gas_r, ambient_pa);
    let crit = critical_ratio(math, gamma);
    let eta = value(nozzle_gross_efficiency());
    lemma_one();
    lemma_parts(mdot_kg_s);
    lemma_parts(total_pa);
    lemma_parts(area_m2);
    lemma_parts(ambient_pa);
    if total_pa / ambient_pa.max(whole(1)) > crit {
        let temp_k = total_k * whole(2) / (gamma + whole(1));
        let speed = (gamma * gas_r * temp_k).sqrt();
        lemma_sonic(total_k, gamma, gas_r);
        lemma_pushes(mdot_kg_s, speed, total_pa / crit, ambient_pa, area_m2);
        lemma_normal(speed);
        assert(jet_of(flow, mdot_kg_s, total_k, area_m2, gamma, gas_r, ambient_pa, value(speed)));
    } else {
        let left = powf(math, ambient_pa / total_pa, (gamma - whole(1)) / gamma);
        let speed = (whole(2) * gamma * gas_r / (gamma - whole(1)) * total_k * (whole(1) - left)).sqrt();
        lemma_subsonic(total_k, gamma, gas_r, left);
        lemma_pushes(mdot_kg_s, speed, ambient_pa, ambient_pa, area_m2);
        lemma_normal(speed);
        let momentum = times(times(eta, value(mdot_kg_s)), value(speed));
        let (ambient, area) = (value(ambient_pa), value(area_m2));
        let extra = times(size(ambient) + size(ambient), size(area));
        lemma_times_adds(0 as real, 0 as real, area);
        lemma_times_positive(size(ambient) + size(ambient), size(area));
        lemma_within_more(
            value(flow.thrust_gross_n),
            momentum,
            size(momentum),
            12,
            size(momentum) + extra,
            16,
        );
        assert(jet_of(flow, mdot_kg_s, total_k, area_m2, gamma, gas_r, ambient_pa, value(speed)));
    }
}

/// An attached supersonic flow gives the thrust of one jet that has gained in speed what
/// the gas has lost in temperature.
pub proof fn lemma_attached_jet(
    mdot_kg_s: F64,
    total_k: F64,
    area_m2: F64,
    gamma: F64,
    gas_r: F64,
    ambient_pa: F64,
    exit_mach: F64,
    exit_pa: F64,
)
    requires
        expansion_kept(gamma, gas_r, total_k, exit_mach),
        gross_kept(
            mdot_kg_s,
            exit_mach * (gamma * gas_r * (total_k / (whole(1) + (gamma - whole(1)) / whole(2) * exit_mach
                * exit_mach))).sqrt(),
            exit_pa,
            ambient_pa,
            area_m2,
        ),
    ensures
        exists|v: real| #[trigger]
            jet_of(
                attached_flow(mdot_kg_s, total_k, area_m2, gamma, gas_r, ambient_pa, exit_mach, exit_pa),
                mdot_kg_s,
                total_k,
                area_m2,
                gamma,
                gas_r,
                ambient_pa,
                v,
            ),
{
    let flow = attached_flow(mdot_kg_s, total_k, area_m2, gamma, gas_r, ambient_pa, exit_mach, exit_pa);
    let temp_k = total_k / (whole(1) + (gamma - whole(1)) / whole(2) * exit_mach * exit_mach);
    let speed = exit_mach * (gamma * gas_r * temp_k).sqrt();
    lemma_expanded(gamma, gas_r, total_k, exit_mach);
    lemma_pushes(mdot_kg_s, speed, exit_pa, ambient_pa, area_m2);
    lemma_normal(speed);
    assert(jet_of(flow, mdot_kg_s, total_k, area_m2, gamma, gas_r, ambient_pa, value(speed)));
}

/// A matched nozzle, no term of which is lost to underflow or overflow: `choke` and
/// `double` are the host's powers of the throat, and `left` is the share of the chamber
/// temperature that is left at the exit.
pub open spec fn matched_kept(
    gamma: F64,
    gas_r: F64,
    chamber_k: F64,
    divergence: F64,
    choke: F64,
    double: F64,
    left: F64,
) -> bool {
    let (eta, heat) = (nozzle_efficiency(), whole(2) * gamma * gamma);
    let rate = heat / (gamma - whole(1));
    let square = rate * double * (whole(1) - left);
    &&& choked_kept(gamma, gas_r, chamber_k, choke)
    &&& whole(1) <= gamma && normal(gamma - whole(1)) && normal(divergence) && normal(eta) && normal(divergence * eta)
    &&& normal(double) && normal(left) && left <= whole(1) && normal(whole(1) - left)
    &&& normal(whole(2) * gamma) && normal(heat) && normal(rate) && normal(rate * double) && normal(square)
    &&& normal(square.sqrt()) && normal(divergence * eta * square.sqrt())
}

/// The host's powers are what powers are, up to `k` roundings: twice the exponent is the
/// square, and the exit has the share `left` of the chamber's temperature.
pub open spec fn powers_agree(choke: F64, double: F64, left: F64, chamber_k: F64, exit_k: F64, k: nat) -> bool {
    &&& about(value(double), times(value(choke), value(choke)), k)
    &&& about(value(exit_k), times(value(chamber_k), value(left)), k)
}

/// The push of a flow, at matched pressure, is its momentum: thrust coefficient times
/// characteristic velocity is the divergence and nozzle losses' share of a speed that keeps
/// the total enthalpy of the chamber, to within twenty-two roundings and those of the
/// host's powers.
proof fn lemma_matched(
    gamma: F64,
    gas_r: F64,
    chamber_k: F64,
    exit_k: F64,
    divergence: F64,
    choke: F64,
    double: F64,
    left: F64,
    k: nat,
)
    requires
        matched_kept(gamma, gas_r, chamber_k, divergence, choke, double, left),
        powers_agree(choke, double, left, chamber_k, exit_k, k),
    ensures
        ({
            let eta = nozzle_efficiency();
            let square = whole(2) * gamma * gamma / (gamma - whole(1)) * double * (whole(1) - left);
            let push = value(divergence * eta * square.sqrt());
            let c = value((gas_r * chamber_k).sqrt() / (gamma.sqrt() * choke));
            let share = times(value(divergence), value(eta));
            let (keep, heat) = (times(share, share), times(2 as real, times(value(gamma), value(gas_r))));
            about(
                times(value(gamma) - (1 as real), times(times(push, c), times(push, c))) + times(
                    keep,
                    times(heat, value(exit_k)),
                ),
                times(keep, times(heat, value(chamber_k))),
                22 + k,
            )
        }),
{
    let (two, one) = (2 as real, 1 as real);
    let eta = nozzle_efficiency();
    let heat = whole(2) * gamma * gamma;
    let rate = heat / (gamma - whole(1));
    let square = rate * double * (whole(1) - left);
    let root = square.sqrt();
    let (g, r, t, x, d) = (value(gamma), value(gas_r), value(chamber_k), value(left), value(double));
    lemma_normal(gamma);
    lemma_normal(gas_r);
    lemma_normal(chamber_k);
    lemma_normal(left);
    lemma_normal(double);
    lemma_normal(divergence);
    lemma_normal(eta);
    lemma_normal(divergence * eta);
    lemma_normal(whole(1) - left);
    lemma_normal(gamma - whole(1));
    lemma_normal(whole(2) * gamma);
    lemma_normal(heat);
    lemma_normal(rate);
    lemma_normal(rate * double);
    lemma_normal(square);
    lemma_normal(root);
    lemma_sized_two();
    lemma_normal(whole(2));
    lemma_whole_value(1);
    lemma_whole_value(2);
    lemma_one();
    lemma_parts(left);
    lemma_about_itself(gamma);
    lemma_about_itself(double);
    lemma_about_itself(divergence);
    lemma_about_itself(eta);
    lemma_about_itself(root);
    lemma_about_itself(whole(2));
    lemma_less_one(gamma);
    lemma_rest_about(left);
    // The square under the root.
    lemma_about_times(whole(2), gamma, two, g, 0, 0);
    lemma_about_times(whole(2) * gamma, gamma, times(two, g), g, 1, 0);
    let h = times(times(two, g), g);
    lemma_about_over(heat, gamma - whole(1), h, g - one, 2, 1);
    let q = over(h, g - one);
    lemma_over(h, g - one);
    lemma_about_times(rate, double, q, d, 4, 0);
    lemma_about_times(rate * double, whole(1) - left, times(q, d), one - x, 5, 1);
    let under = times(times(q, d), one - x);
    lemma_about_root(square, under, 7);
    // The push.
    let s = value(root);
    lemma_about_times(divergence, eta, value(divergence), value(eta), 0, 0);
    let share = times(value(divergence), value(eta));
    lemma_about_times(divergence * eta, root, share, s, 1, 0);
    let push = value(divergence * eta * root);
    lemma_about_product(push, times(share, s), push, times(share, s), 2, 2);
    lemma_square_product(share, s);
    let keep = times(share, share);
    lemma_times_positive(value(divergence), value(eta));
    lemma_times_positive(share, share);
    lemma_about_same(keep);
    lemma_about_product(keep, keep, times(s, s), under, 0, 9);
    lemma_about_chain(times(push, push), times(keep, times(s, s)), times(keep, under), 4, 9);
    // Times the square of the characteristic velocity.
    lemma_characteristic(gamma, gas_r, chamber_k, choke);
    let c = value((gas_r * chamber_k).sqrt() / (gamma.sqrt() * choke));
    let (p, rt) = (value(choke), times(r, t));
    let pp = times(p, p);
    let gp = times(g, pp);
    let cc = over(rt, gp);
    lemma_over(rt, gp);
    lemma_about_product(times(push, push), times(keep, under), times(c, c), cc, 13, 9);
    lemma_square_product(push, c);
    lemma_about_same(g - one);
    lemma_about_product(
        g - one,
        g - one,
        times(times(push, push), times(c, c)),
        times(times(keep, under), cc),
        0,
        22,
    );
    let first = times(g - one, times(times(keep, under), cc));
    let power = times(g - one, times(times(push, c), times(push, c)));
    // With the square in place of the double power.
    let pure = times(keep, times(times(two, times(g, r)), times(t, one - x)));
    lemma_reduced(keep, g, r, t, one - x, d, pp, q, cc);
    let (ratio, base) = (over(d, pp), times(times(two, times(g, r)), times(t, one - x)));
    lemma_over(d, pp);
    lemma_about_ratio(d, pp, k);
    lemma_times_positive(g, r);
    lemma_times_positive(two, times(g, r));
    lemma_value_order(left, whole(1));
    lemma_times_positive(t, one - x);
    lemma_times_positive(times(two, times(g, r)), times(t, one - x));
    lemma_times_positive(keep, base);
    lemma_about_same(pure);
    lemma_about_product(pure, pure, ratio, one, 0, k);
    lemma_times_one(pure);
    lemma_about_chain(power, first, pure, 22, k);
    // And the heat that is left.
    let warm = times(two, times(g, r));
    lemma_about_same(warm);
    lemma_about_product(warm, warm, value(exit_k), times(t, x), 0, k);
    lemma_about_product(keep, keep, times(warm, value(exit_k)), times(warm, times(t, x)), 0, k);
    let rest = times(keep, times(warm, times(t, x)));
    lemma_about_more(times(keep, times(warm, value(exit_k))), rest, k, 22 + k);
    lemma_about_sum(power, pure, times(keep, times(warm, value(exit_k))), rest, 22 + k);
    lemma_times_adds(times(warm, times(t, one - x)), times(warm, times(t, x)), keep);
    lemma_times_adds(times(t, one - x), times(t, x), warm);
    lemma_times_adds(one - x, x, t);
    lemma_times_one(t);
}

/// What agrees has a ratio of about one.
proof fn lemma_about_ratio(d: real, pp: real, k: nat)
    requires
        about(d, pp, k),
        pp > (0 as real),
    ensures
        about(over(d, pp), 1 as real, k),
{
    lemma_about_same(pp);
    lemma_about_quotient(d, pp, pp, pp, k, 0);
    lemma_over(pp, pp);
    lemma_times_one(pp);
    lemma_times_unique(over(pp, pp), 1 as real, pp);
}

/// What the squares of push and characteristic velocity multiply to.
proof fn lemma_reduced(keep: real, g: real, r: real, t: real, rest: real, d: real, pp: real, q: real, cc: real)
    requires
        g > (1 as real),
        pp > (0 as real),
        times(q, g - (1 as real)) == times(times(2 as real, g), g),
        times(cc, times(g, pp)) == times(r, t),
        times(g, pp) > (0 as real),
    ensures
        times(g - (1 as real), times(times(keep, times(times(q, d), rest)), cc)) == times(
            times(keep, times(times(2 as real, times(g, r)), times(t, rest))),
            over(d, pp),
        ),
{
    let (two, f) = (2 as real, over(d, pp));
    let less = g - (1 as real);
    lemma_over(d, pp);
    // d == f pp; (g - 1) q == 2 g g; cc g pp == r t
    // left == keep ((less q) (d (rest cc)))
    let left = times(less, times(times(keep, times(times(q, d), rest)), cc));
    lemma_times_associates(keep, times(times(q, d), rest), cc);
    lemma_times_associates(times(q, d), rest, cc);
    lemma_times_associates(q, d, times(rest, cc));
    let tail = times(d, times(rest, cc));
    lemma_times_associates(less, keep, times(q, tail));
    lemma_times_commutes(less, keep);
    lemma_times_associates(keep, less, times(q, tail));
    lemma_times_associates(less, q, tail);
    lemma_times_commutes(less, q);
    let gg = times(times(two, g), g);
    assert(left == times(keep, times(gg, tail)));
    // gg tail == (2 g) (g (d (rest cc))), and g d cc == f (g pp cc) == f r t
    lemma_times_associates(times(two, g), g, tail);
    lemma_times_commutes(rest, cc);
    lemma_times_associates(d, cc, rest);
    lemma_times_associates(g, times(d, cc), rest);
    lemma_times_associates(f, pp, cc);
    lemma_times_associates(g, f, times(pp, cc));
    lemma_times_commutes(g, f);
    lemma_times_associates(f, g, times(pp, cc));
    lemma_times_associates(g, pp, cc);
    lemma_times_commutes(times(g, pp), cc);
    let rt = times(r, t);
    assert(times(g, times(d, cc)) == times(f, rt));
    // (2 g) ((f rt) rest) == ((2 (g r)) (t rest)) f
    lemma_times_associates(f, rt, rest);
    lemma_times_associates(r, t, rest);
    lemma_times_commutes(f, times(r, times(t, rest)));
    lemma_times_associates(times(two, g), times(r, times(t, rest)), f);
    lemma_times_associates(times(two, g), r, times(t, rest));
    lemma_times_associates(two, g, r);
    lemma_times_associates(keep, times(times(two, times(g, r)), times(t, rest)), f);
}

/// Thrust of a unit of flow at matched pressure is momentum. Where the exit is at ambient
/// pressure, thrust coefficient times characteristic velocity is the share, by divergence
/// and nozzle efficiency, of a speed that keeps the total enthalpy from chamber to exit, to
/// within twenty-two roundings and those of the host's powers.
pub proof fn lemma_matched_thrust<M: Numerics>(
    math: &M,
    thermo: &PropellantThermo,
    chamber_pa: F64,
    exit: &NozzleExitState,
    expansion_ratio: F64,
    divergence: F64,
    k: nat,
)
    requires
        ({
            let gamma = thermo.gamma;
            let base = whole(2) / (gamma + whole(1));
            let choke = powf(math, base, (gamma + whole(1)) / (whole(2) * (gamma - whole(1))));
            let double = powf(math, base, (gamma + whole(1)) / (gamma - whole(1)));
            let left = powf(math, exit.exit_pressure_ratio, (gamma - whole(1)) / gamma);
            &&& matched_kept(gamma, thermo.gas_constant_j_kg_k, thermo.chamber_temp_k, divergence, choke, double, left)
            &&& powers_agree(choke, double, left, thermo.chamber_temp_k, exit.exit_temp_k, k)
        }),
        normal(chamber_pa),
        (exit.exit_pressure_ratio * chamber_pa).is_finite(),
        normal(expansion_ratio),
    ensures
        ({
            let cf = thrust_coefficient(
                math,
                thermo,
                chamber_pa,
                exit,
                expansion_ratio,
                exit.exit_pressure_ratio * chamber_pa,
                divergence,
            );
            let (push, c, g) = (value(cf), value(characteristic_velocity(math, thermo)), value(thermo.gamma));
            let share = times(value(divergence), value(nozzle_efficiency()));
            let (keep, heat) = (
                times(share, share),
                times(2 as real, times(g, value(thermo.gas_constant_j_kg_k))),
            );
            about(
                times(g - (1 as real), times(times(push, c), times(push, c))) + times(
                    keep,
                    times(heat, value(exit.exit_temp_k)),
                ),
                times(keep, times(heat, value(thermo.chamber_temp_k))),
                22 + k,
            )
        }),
{
    let gamma = thermo.gamma;
    let base = whole(2) / (gamma + whole(1));
    let choke = powf(math, base, (gamma + whole(1)) / (whole(2) * (gamma - whole(1))));
    let double = powf(math, base, (gamma + whole(1)) / (gamma - whole(1)));
    let left = powf(math, exit.exit_pressure_ratio, (gamma - whole(1)) / gamma);
    let matched = exit.exit_pressure_ratio * chamber_pa;
    lemma_matched(
        gamma,
        thermo.gas_constant_j_kg_k,
        thermo.chamber_temp_k,
        exit.exit_temp_k,
        divergence,
        choke,
        double,
        left,
        k,
    );
    let square = whole(2) * gamma * gamma / (gamma - whole(1)) * double * (whole(1) - left);
    let momentum = divergence * nozzle_efficiency() * square.sqrt();
    lemma_normal(momentum);
    lemma_normal(chamber_pa);
    lemma_normal(expansion_ratio);
    lemma_one();
    lemma_parts(zero());
    lemma_parts(chamber_pa);
    lemma_parts(expansion_ratio);
    lemma_sub_self(matched);
    lemma_nothing_over(zero(), chamber_pa);
    let nothing = zero() / chamber_pa;
    lemma_mul_commutes(nothing, expansion_ratio);
    lemma_vanishing(expansion_ratio, nothing);
    lemma_add_zero(momentum, nothing * expansion_ratio);
}

/// The pressure term of a thrust coefficient, no part of which is lost to underflow or
/// overflow.
pub open spec fn excess_kept(chamber_pa: F64, ratio: F64, expansion_ratio: F64, ambient_pa: F64, matched: F64) -> bool {
    let excess = (ratio * chamber_pa - ambient_pa) / chamber_pa;
    &&& normal(chamber_pa) && normal(expansion_ratio) && ambient_pa.is_finite() && (ratio * chamber_pa).is_finite()
    &&& (ratio * chamber_pa - ambient_pa).is_finite()
    &&& precise(excess) || (ratio * chamber_pa - ambient_pa).units() == 0
    &&& unlost(excess, expansion_ratio) && matched.is_finite() && (matched + excess * expansion_ratio).is_finite()
}

/// Off its matched pressure a nozzle gains or loses the excess of exit over ambient pressure
/// on its exit area, up to thirty-six roundings of the terms: the thrust coefficient differs
/// from the matched one by that excess over the chamber pressure, times the expansion
/// ratio.
pub proof fn lemma_pressure_thrust<M: Numerics>(
    math: &M,
    thermo: &PropellantThermo,
    chamber_pa: F64,
    exit: &NozzleExitState,
    expansion_ratio: F64,
    ambient_pa: F64,
    divergence: F64,
)
    requires
        ({
            let exit_pa = exit.exit_pressure_ratio * chamber_pa;
            let matched = thrust_coefficient(math, thermo, chamber_pa, exit, expansion_ratio, exit_pa, divergence);
            &&& excess_kept(chamber_pa, exit.exit_pressure_ratio, expansion_ratio, ambient_pa, matched)
            &&& normal(matched)
        }),
    ensures
        ({
            let exit_pa = exit.exit_pressure_ratio * chamber_pa;
            let cf = value(thrust_coefficient(math, thermo, chamber_pa, exit, expansion_ratio, ambient_pa, divergence));
            let matched = value(
                thrust_coefficient(math, thermo, chamber_pa, exit, expansion_ratio, exit_pa, divergence),
            );
            let excess = times(over(value(exit_pa) - value(ambient_pa), value(chamber_pa)), value(expansion_ratio));
            let bound = times(
                over(size(value(exit_pa)) + size(value(ambient_pa)), value(chamber_pa)),
                value(expansion_ratio),
            );
            size((cf - matched) - excess) <= times(size(matched) + bound, allowance(36))
        }),
{
    let ratio = exit.exit_pressure_ratio;
    let exit_pa = ratio * chamber_pa;
    let matched = thrust_coefficient(math, thermo, chamber_pa, exit, expansion_ratio, exit_pa, divergence);
    let difference = exit_pa - ambient_pa;
    let excess = difference / chamber_pa;
    let (p, e) = (value(chamber_pa), value(expansion_ratio));
    lemma_normal(chamber_pa);
    lemma_normal(expansion_ratio);
    lemma_normal(matched);
    lemma_one();
    lemma_parts(zero());
    lemma_parts(chamber_pa);
    lemma_parts(expansion_ratio);
    // The matched coefficient is the momentum term.
    let gamma = thermo.gamma;
    let momentum = divergence * nozzle_efficiency() * ((whole(2) * gamma * gamma / (gamma - whole(1))) * powf(
        math,
        whole(2) / (gamma + whole(1)),
        (gamma + whole(1)) / (gamma - whole(1)),
    ) * (whole(1) - powf(math, ratio, (gamma - whole(1)) / gamma))).sqrt();
    lemma_sub_self(exit_pa);
    lemma_nothing_over(zero(), chamber_pa);
    let nothing = zero() / chamber_pa;
    lemma_mul_commutes(nothing, expansion_ratio);
    lemma_vanishing(expansion_ratio, nothing);
    lemma_parts(nothing * expansion_ratio);
    lemma_finite_terms(momentum, nothing * expansion_ratio);
    lemma_add_zero(momentum, nothing * expansion_ratio);
    lemma_value_order(momentum, matched);
    lemma_value_order(matched, momentum);
    // And the rest is the excess.
    lemma_tracks_itself(exit_pa);
    lemma_tracks_itself(ambient_pa);
    lemma_tracks_itself(expansion_ratio);
    lemma_tracks_itself(chamber_pa);
    lemma_tracks_itself(momentum);
    let (x, a) = (value(exit_pa), value(ambient_pa));
    lemma_tracks_sum(exit_pa, ambient_pa, x, a, size(x), size(a), 0, 0);
    lemma_tracks_quotient(difference, chamber_pa, x - a, p, size(x) + size(a), 4, 0);
    lemma_tracks_product(
        excess,
        expansion_ratio,
        over(x - a, p),
        e,
        over(size(x) + size(a), p),
        e,
        12,
        0,
    );
    lemma_tracks_sum(
        momentum,
        excess * expansion_ratio,
        value(momentum),
        times(over(x - a, p), e),
        size(value(momentum)),
        times(over(size(x) + size(a), p), e),
        0,
        28,
    );
    let cf = momentum + excess * expansion_ratio;
    let bound = size(value(momentum)) + times(over(size(x) + size(a), p), e);
    lemma_within_more(value(cf), value(momentum) + times(over(x - a, p), e), bound, 32, bound, 36);
}

/// Throat and exit of a nozzle, no term of which is lost to underflow or overflow: `choke`
/// and `wide` are the host's powers of throat and area ratio.
pub open spec fn passage_kept(thermo: &PropellantThermo, mach: F64, choke: F64, wide: F64, ratio: F64) -> bool {
    &&& expansion_kept(thermo.gamma, thermo.gas_constant_j_kg_k, thermo.chamber_temp_k, mach)
    &&& choked_kept(thermo.gamma, thermo.gas_constant_j_kg_k, thermo.chamber_temp_k, choke)
    &&& normal(wide) && normal(wide / mach) && normal(ratio)
}

/// What passes the throat passes the exit. Where the host's powers agree to `k` roundings
/// (the powers of area and pressure ratio, squared and times the temperature ratio, are the
/// square of the throat's), the area ratio times the exit's pressure and speed over its
/// gas constant and temperature is the chamber pressure over the characteristic velocity:
/// the squares agree to within eighteen roundings and those.
pub proof fn lemma_continuity<M: Numerics>(math: &M, thermo: &PropellantThermo, mach: F64, k: nat)
    requires
        ({
            let gamma = thermo.gamma;
            let factor = whole(1) + (gamma - whole(1)) / whole(2) * mach * mach;
            let base = whole(2) / (gamma + whole(1));
            let exponent = (gamma + whole(1)) / (whole(2) * (gamma - whole(1)));
            let (choke, wide) = (powf(math, base, exponent), powf(math, base * factor, exponent));
            let ratio = exit_state_at(math, thermo, mach).exit_pressure_ratio;
            let both = times(value(wide), value(ratio));
            &&& passage_kept(thermo, mach, choke, wide, ratio)
            &&& about(times(times(both, both), value(factor)), times(value(choke), value(choke)), k)
        }),
    ensures
        ({
            let exit = exit_state_at(math, thermo, mach);
            let passed = times(
                times(
                    times(value(area_ratio_from_mach(math, thermo.gamma, mach)), value(exit.exit_pressure_ratio)),
                    value(exit.exhaust_velocity_mps),
                ),
                value(characteristic_velocity(math, thermo)),
            );
            let heat = times(value(thermo.gas_constant_j_kg_k), value(exit.exit_temp_k));
            about(times(passed, passed), times(heat, heat), 18 + k)
        }),
{
    let (gamma, gas_r, chamber_k) = (thermo.gamma, thermo.gas_constant_j_kg_k, thermo.chamber_temp_k);
    let factor = whole(1) + (gamma - whole(1)) / whole(2) * mach * mach;
    let base = whole(2) / (gamma + whole(1));
    let exponent = (gamma + whole(1)) / (whole(2) * (gamma - whole(1)));
    let (choke, wide) = (powf(math, base, exponent), powf(math, base * factor, exponent));
    let exit = exit_state_at(math, thermo, mach);
    let ratio = exit.exit_pressure_ratio;
    let (m, w, q, c, v) = (
        value(mach),
        value(wide),
        value(ratio),
        value(characteristic_velocity(math, thermo)),
        value(exit.exhaust_velocity_mps),
    );
    let (g, r, t, y, f, p) = (
        value(gamma),
        value(gas_r),
        value(chamber_k),
        value(exit.exit_temp_k),
        value(factor),
        value(choke),
    );
    lemma_normal(mach);
    lemma_normal(wide);
    lemma_normal(ratio);
    lemma_normal(gamma);
    lemma_normal(gas_r);
    lemma_normal(chamber_k);
    lemma_normal(factor);
    lemma_normal(exit.exit_temp_k);
    lemma_about_itself(mach);
    lemma_about_itself(wide);
    lemma_about_itself(chamber_k);
    lemma_about_itself(factor);
    // The squares of the four.
    let e = value(wide / mach);
    lemma_about_over(wide, mach, w, m, 0, 0);
    lemma_about_product(e, over(w, m), e, over(w, m), 1, 1);
    lemma_square_quotient(w, m);
    let (ww, mm, qq) = (times(w, w), times(m, m), times(q, q));
    lemma_times_positive(m, m);
    lemma_times_positive(w, w);
    lemma_times_positive(q, q);
    lemma_expanded(gamma, gas_r, chamber_k, mach);
    let (gr, pp, rt) = (times(g, r), times(p, p), times(r, t));
    lemma_characteristic(gamma, gas_r, chamber_k, choke);
    let gp = times(g, pp);
    // Together.
    lemma_about_same(qq);
    lemma_about_product(times(e, e), over(ww, mm), qq, qq, 2, 0);
    let first = times(over(ww, mm), qq);
    let second = times(mm, times(gr, y));
    lemma_about_product(times(times(e, e), qq), first, times(v, v), second, 2, 6);
    lemma_about_product(
        times(times(times(e, e), qq), times(v, v)),
        times(first, second),
        times(c, c),
        over(rt, gp),
        8,
        9,
    );
    let passed = times(times(times(e, q), v), c);
    lemma_square_product(times(times(e, q), v), c);
    lemma_square_product(times(e, q), v);
    lemma_square_product(e, q);
    let all = times(times(first, second), over(rt, gp));
    assert(about(times(passed, passed), all, 17));
    // all == ((ww qq) / pp) (r y) (r t)
    lemma_over(ww, mm);
    lemma_over(rt, gp);
    lemma_over(times(ww, qq), pp);
    let (h, ry) = (over(times(ww, qq), pp), times(r, y));
    lemma_passage(ww, mm, qq, g, r, y, rt, pp, over(ww, mm), over(rt, gp), h);
    // r t ~ r (y f)
    lemma_about_over(chamber_k, factor, t, f, 0, 0);
    lemma_over(t, f);
    lemma_about_same(f);
    lemma_about_product(y, over(t, f), f, f, 1, 0);
    lemma_about_turned(times(y, f), t, 1);
    lemma_about_same(r);
    lemma_about_product(r, r, t, times(y, f), 0, 1);
    lemma_times_positive(r, y);
    lemma_times_positive(times(ww, qq), 1 as real);
    lemma_times_positive(ww, qq);
    lemma_over(times(ww, qq), pp);
    lemma_times_positive(h, ry);
    lemma_about_same(times(h, ry));
    lemma_about_product(times(h, ry), times(h, ry), rt, times(r, times(y, f)), 0, 1);
    lemma_about_chain(
        times(passed, passed),
        times(times(h, ry), rt),
        times(times(h, ry), times(r, times(y, f))),
        17,
        1,
    );
    // h f ~ 1
    lemma_square_product(w, q);
    lemma_about_ratio(times(times(ww, qq), f), pp, k);
    lemma_over(times(times(ww, qq), f), pp);
    let hf = over(times(times(ww, qq), f), pp);
    assert(hf == times(h, f)) by {
        lemma_times_associates(h, f, pp);
        lemma_times_commutes(f, pp);
        lemma_times_associates(h, pp, f);
        lemma_times_unique(hf, times(h, f), pp);
    }
    // (h ry) (r (y f)) == (h f) (ry ry)
    lemma_times_associates(r, y, f);
    lemma_times_associates(h, ry, times(ry, f));
    lemma_times_associates(ry, ry, f);
    lemma_times_commutes(times(ry, ry), f);
    lemma_times_associates(h, f, times(ry, ry));
    lemma_times_positive(ry, ry);
    lemma_about_same(times(ry, ry));
    lemma_about_product(hf, 1 as real, times(ry, ry), times(ry, ry), k, 0);
    lemma_times_one(times(ry, ry));
    lemma_about_chain(
        times(passed, passed),
        times(times(h, ry), times(r, times(y, f))),
        times(ry, ry),
        18,
        k,
    );
}

/// The factors of a passage, gathered.
proof fn lemma_passage(
    ww: real,
    mm: real,
    qq: real,
    g: real,
    r: real,
    y: real,
    rt: real,
    pp: real,
    a: real,
    b: real,
    h: real,
)
    requires
        times(a, mm) == ww,
        times(b, times(g, pp)) == rt,
        times(h, pp) == times(ww, qq),
        pp > (0 as real),
        g > (0 as real),
    ensures
        times(times(times(a, qq), times(mm, times(times(g, r), y))), b) == times(times(h, times(r, y)), rt),
{
    let (ry, w) = (times(r, y), times(times(g, r), y));
    // (a qq) (mm w) == (ww qq) w == (h pp) w
    lemma_times_associates(a, qq, times(mm, w));
    lemma_times_associates(qq, mm, w);
    lemma_times_commutes(qq, mm);
    lemma_times_associates(mm, qq, w);
    lemma_times_associates(a, mm, times(qq, w));
    lemma_times_associates(ww, qq, w);
    let left = times(times(h, pp), w);
    assert(times(times(a, qq), times(mm, w)) == left);
    // w == g ry, so (h pp) (g ry) b == h ry (g pp b) == h ry rt
    lemma_times_associates(g, r, y);
    lemma_times_associates(h, pp, times(g, ry));
    lemma_times_associates(pp, g, ry);
    lemma_times_commutes(pp, g);
    lemma_times_commutes(times(g, pp), ry);
    // left == h (ry (g pp))
    lemma_times_associates(h, times(ry, times(g, pp)), b);
    lemma_times_associates(ry, times(g, pp), b);
    lemma_times_commutes(times(g, pp), b);
    lemma_times_associates(h, ry, rt);
}

} // verus!
