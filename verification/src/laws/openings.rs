//! What openings pass, how fast sound is and how warm rammed air gets.
use crate::air::{adapted_exit_area, air_gamma, flow_function, size_nozzle_area, FlightCondition};
use crate::cycle_core::ram_temp_k;
use crate::engine::{CompiledEngine, EngineOperatingPoint};
use crate::estoc::CompiledEstoc;
use crate::float::accuracy::{
    about, amount, lemma_about_chain, lemma_about_product, lemma_about_same, lemma_about_turned,
    lemma_difference_about, lemma_over, lemma_times_associates, lemma_times_commutes, lemma_times_positive, normal,
    over, times, value,
};
use crate::float::{dec, lemma_one, whole, zero, F64};
use crate::float::errors::size;
use crate::float::nearness::lemma_parts;
use crate::float::order::lemma_mul_commutes;
use crate::float::tracking::{
    lemma_about_itself, lemma_about_over, lemma_about_plus, lemma_about_root, lemma_half_value,
    lemma_tracks_exact_product, lemma_tracks_itself, lemma_tracks_sum, lemma_whole_value, tracks, unlost,
};
use crate::laws::expansion::lemma_less_one;
use crate::laws::sizing::{lemma_constants, lemma_own, lemma_term, lemma_terms};
use crate::laws::stream::lemma_square_product;
use crate::numerics::{powf, Numerics};
use crate::shaft::ShaftBalance;
use crate::vector::Vector;
use vstd::prelude::*;

verus! {

/// An adapted nozzle, no term of which is lost to underflow or overflow.
pub open spec fn adapted_kept(flow: F64, temp: F64, ambient: F64, gas_r: F64, cp: F64, expansion: F64) -> bool {
    let heat = whole(2) * cp * temp * (whole(1) - expansion);
    let exit_temp = temp * expansion;
    let density = ambient / (gas_r * exit_temp);
    &&& normal(flow) && normal(temp) && normal(ambient) && normal(gas_r) && normal(cp) && normal(expansion)
    &&& normal(whole(2) * cp) && normal(whole(2) * cp * temp)
    &&& expansion.units() <= whole(1).units() && normal(whole(1) - expansion) && normal(heat) && normal(heat.sqrt())
    &&& normal(exit_temp) && normal(gas_r * exit_temp) && normal(density) && normal(density * heat.sqrt())
    &&& normal(flow / (density * heat.sqrt()))
}

/// An adapted nozzle is as wide as its jet: squared, pressure times area times the speed
/// that the drop in temperature gives is flow times gas constant times the temperature
/// that is left, to within sixteen roundings.
pub proof fn lemma_adapted_area<M: Numerics>(
    math: &M,
    mdot_kg_s: F64,
    total_temp_k: F64,
    total_pressure_pa: F64,
    ambient_pa: F64,
    gamma: F64,
    gas_r: F64,
    cp: F64,
)
    requires
        adapted_kept(
            mdot_kg_s,
            total_temp_k,
            ambient_pa,
            gas_r,
            cp,
            powf(math, ambient_pa / total_pressure_pa, (gamma - whole(1)) / gamma),
        ),
    ensures
        ({
            let area = value(
                adapted_exit_area(math, mdot_kg_s, total_temp_k, total_pressure_pa, ambient_pa, gamma, gas_r, cp),
            );
            let left = value(powf(math, ambient_pa / total_pressure_pa, (gamma - whole(1)) / gamma));
            let (p, t) = (value(ambient_pa), value(total_temp_k));
            let speed_squared = times(times(times(2 as real, value(cp)), t), (1 as real) - left);
            let carried = times(value(mdot_kg_s), times(value(gas_r), times(t, left)));
            about(times(times(area, area), times(speed_squared, times(p, p))), times(carried, carried), 16)
        }),
{
    lemma_constants();
    let e = powf(math, ambient_pa / total_pressure_pa, (gamma - whole(1)) / gamma);
    let (m, t, p, r) = (mdot_kg_s, total_temp_k, ambient_pa, gas_r);
    let heat = whole(2) * cp * t * (whole(1) - e);
    let v = heat.sqrt();
    let exit_temp = t * e;
    let density = p / (r * exit_temp);
    let area = m / (density * v);
    lemma_whole_value(1);
    lemma_whole_value(2);
    lemma_own(whole(2));
    lemma_own(m);
    lemma_own(t);
    lemma_own(p);
    lemma_own(r);
    lemma_own(cp);
    lemma_own(e);
    lemma_own(heat);
    lemma_own(v);
    lemma_own(r * exit_temp);
    lemma_own(density * v);
    let two = 2 as real;
    lemma_difference_about(whole(1), e);
    lemma_term(whole(2), cp, two, value(cp), 0, 0);
    lemma_term(whole(2) * cp, t, times(two, value(cp)), value(t), 1, 0);
    let energy = times(times(times(two, value(cp)), value(t)), (1 as real) - value(e));
    lemma_term(whole(2) * cp * t, whole(1) - e, times(times(two, value(cp)), value(t)), (1 as real) - value(e), 2, 1);
    lemma_about_root(heat, energy, 4);
    lemma_term(t, e, value(t), value(e), 0, 0);
    let thermal = times(value(r), times(value(t), value(e)));
    lemma_term(r, exit_temp, value(r), times(value(t), value(e)), 0, 1);
    lemma_times_positive(value(t), value(e));
    lemma_times_positive(value(r), times(value(t), value(e)));
    lemma_about_over(p, r * exit_temp, value(p), thermal, 0, 2);
    lemma_over(value(p), thermal);
    let dense = over(value(p), thermal);
    lemma_term(density, v, dense, value(v), 3, 0);
    let flux = times(dense, value(v));
    lemma_times_positive(dense, value(v));
    lemma_about_over(m, density * v, value(m), flux, 0, 4);
    lemma_over(value(m), flux);
    let (x, speed, q) = (value(area), value(v), value(p));
    lemma_about_same(flux);
    lemma_about_product(x, over(value(m), flux), flux, flux, 5, 0);
    lemma_about_same(thermal);
    lemma_about_product(times(x, flux), value(m), thermal, thermal, 5, 0);
    // Area times speed times pressure.
    lemma_times_associates(x, flux, thermal);
    lemma_times_commutes(dense, speed);
    lemma_times_associates(speed, dense, thermal);
    let push = times(x, times(speed, q));
    let carried = times(value(m), thermal);
    assert(about(push, carried, 5));
    lemma_about_product(push, carried, push, carried, 5, 5);
    lemma_square_product(x, times(speed, q));
    lemma_square_product(speed, q);
    let (xx, vv, qq) = (times(x, x), times(speed, speed), times(q, q));
    lemma_times_positive(q, q);
    lemma_own(area);
    lemma_times_positive(x, x);
    lemma_about_same(qq);
    lemma_about_same(xx);
    lemma_about_product(vv, energy, qq, qq, 6, 0);
    lemma_about_product(xx, xx, times(vv, qq), times(energy, qq), 0, 6);
    lemma_about_turned(times(xx, times(vv, qq)), times(xx, times(energy, qq)), 6);
    lemma_about_chain(times(xx, times(energy, qq)), times(push, push), times(carried, carried), 6, 10);
}

/// A choked throat is sized for its flow and a margin of eight in a hundred: what it passes
/// at its pressure is the flow and the margin, to within three roundings.
pub proof fn lemma_throat_margin<M: Numerics>(
    math: &M,
    mdot_kg_s: F64,
    total_temp_k: F64,
    total_pressure_pa: F64,
    gamma: F64,
    gas_r: F64,
)
    requires
        ({
            let passes = flow_function(math, total_temp_k, gamma, gas_r);
            let choked = total_pressure_pa * passes;
            &&& normal(mdot_kg_s) && normal(total_pressure_pa) && normal(passes) && normal(choked)
            &&& normal(mdot_kg_s / choked) && normal(mdot_kg_s / choked * dec(108, 2))
        }),
    ensures
        about(
            times(
                value(size_nozzle_area(math, mdot_kg_s, total_temp_k, total_pressure_pa, gamma, gas_r)),
                times(value(total_pressure_pa), value(flow_function(math, total_temp_k, gamma, gas_r))),
            ),
            times(value(mdot_kg_s), value(dec(108, 2))),
            3,
        ),
{
    lemma_constants();
    let passes = flow_function(math, total_temp_k, gamma, gas_r);
    let (m, p, margin) = (mdot_kg_s, total_pressure_pa, dec(108, 2));
    let choked = p * passes;
    lemma_own(m);
    lemma_own(p);
    lemma_own(passes);
    lemma_own(choked);
    lemma_own(margin);
    let exact = times(value(p), value(passes));
    lemma_term(p, passes, value(p), value(passes), 0, 0);
    lemma_times_positive(value(p), value(passes));
    lemma_about_over(m, choked, value(m), exact, 0, 1);
    let bare = over(value(m), exact);
    lemma_over(value(m), exact);
    lemma_term(m / choked, margin, bare, value(margin), 2, 0);
    lemma_about_same(exact);
    lemma_about_product(value(m / choked * margin), times(bare, value(margin)), exact, exact, 3, 0);
    lemma_times_associates(bare, value(margin), exact);
    lemma_times_commutes(value(margin), exact);
    lemma_times_associates(bare, exact, value(margin));
}

/// The square of the speed of sound is the ratio of heat capacities times gas constant
/// times temperature, to within four roundings.
pub proof fn lemma_sound(condition: &FlightCondition)
    requires
        ({
            let (g, r) = (condition.composition.mean_heat_capacity_ratio, condition.composition.gas_constant_j_kg_k);
            let t = condition.ambient_temp_k;
            &&& normal(g) && normal(r) && normal(t) && whole(1) < g && normal(g * r) && normal(g * r * t)
            &&& normal((g * r * t).sqrt())
        }),
    ensures
        ({
            let (g, r) = (condition.composition.mean_heat_capacity_ratio, condition.composition.gas_constant_j_kg_k);
            let speed = value(condition.speed_of_sound_mps());
            about(times(speed, speed), times(times(value(g), value(r)), value(condition.ambient_temp_k)), 4)
        }),
{
    let (g, r) = (condition.composition.mean_heat_capacity_ratio, condition.composition.gas_constant_j_kg_k);
    let t = condition.ambient_temp_k;
    lemma_own(g);
    lemma_own(r);
    lemma_own(t);
    lemma_own(g * r * t);
    lemma_term(g, r, value(g), value(r), 0, 0);
    lemma_term(g * r, t, times(value(g), value(r)), value(t), 1, 0);
    lemma_about_root(g * r * t, times(times(value(g), value(r)), value(t)), 2);
    lemma_one();
    lemma_parts(g);
    lemma_parts(r);
    lemma_parts(t);
    lemma_parts(whole(1));
    lemma_parts(zero());
}

/// Rammed air, no term of which is lost to underflow or overflow; `rise` is the part of
/// the heat-capacity ratio that goes with the square of the Mach number.
pub open spec fn ram_kept(condition: &FlightCondition, rise: F64) -> bool {
    let (t, mach) = (condition.ambient_temp_k, condition.mach);
    &&& normal(air_gamma() - whole(1)) && normal(rise)
    &&& normal(t) && normal(mach) && normal(rise * mach) && normal(rise * mach * mach)
    &&& normal(whole(1) + rise * mach * mach) && normal(t * (whole(1) + rise * mach * mach))
}

/// The ram rise of temperature.
proof fn lemma_rise(condition: &FlightCondition, rise: F64, exact: real)
    requires
        ram_kept(condition, rise),
        about(value(rise), exact, 2),
    ensures
        ({
            let mach = condition.mach;
            about(
                value(condition.ambient_temp_k * (whole(1) + rise * mach * mach)),
                times(value(condition.ambient_temp_k), (1 as real) + times(times(exact, value(mach)), value(mach))),
                6,
            )
        }),
{
    lemma_constants();
    let (t, mach) = (condition.ambient_temp_k, condition.mach);
    lemma_whole_value(1);
    lemma_own(whole(1));
    lemma_own(t);
    lemma_own(mach);
    lemma_term(rise, mach, exact, value(mach), 2, 0);
    lemma_term(rise * mach, mach, times(exact, value(mach)), value(mach), 3, 0);
    let square = times(times(exact, value(mach)), value(mach));
    lemma_terms(whole(1), rise * mach * mach, 1 as real, square, 0, 4);
    lemma_term(t, whole(1) + rise * mach * mach, value(t), (1 as real) + square, 0, 5);
}

/// Air brought to rest warms by half the excess of its heat-capacity ratio over one times
/// the square of the Mach number, to within six roundings: in the cycle and before the
/// precooler alike.
pub proof fn lemma_ram_warms(engine: &CompiledEstoc, condition: &FlightCondition)
    requires
        ram_kept(condition, (air_gamma() - whole(1)) / whole(2)),
        ram_kept(condition, (air_gamma() - whole(1)) * dec(5, 1)),
    ensures
        ({
            let (t, mach, excess) = (value(condition.ambient_temp_k), value(condition.mach), value(air_gamma()) - (1 as real));
            &&& about(
                value(ram_temp_k(condition)),
                times(t, (1 as real) + times(times(over(excess, 2 as real), mach), mach)),
                6,
            )
            &&& about(
                value(engine.ram_temp_k(condition)),
                times(t, (1 as real) + times(times(times(excess, value(dec(5, 1))), mach), mach)),
                6,
            )
            &&& value(dec(5, 1)) + value(dec(5, 1)) == (1 as real)
        }),
{
    lemma_constants();
    let g = air_gamma();
    let excess = value(g) - (1 as real);
    lemma_less_one(g);
    lemma_whole_value(2);
    lemma_one();
    lemma_half_value();
    lemma_own(dec(5, 1));
    lemma_own(g - whole(1));
    lemma_about_itself(whole(2));
    lemma_about_over(g - whole(1), whole(2), excess, 2 as real, 1, 0);
    lemma_rise(condition, (g - whole(1)) / whole(2), over(excess, 2 as real));
    lemma_term(g - whole(1), dec(5, 1), excess, value(dec(5, 1)), 1, 0);
    lemma_rise(condition, (g - whole(1)) * dec(5, 1), times(excess, value(dec(5, 1))));
}

/// The power left on a shaft, what is asked of it and what friction takes make up what it
/// is given, to within eight roundings of their sizes.
pub proof fn lemma_net_power(balance: &ShaftBalance)
    requires
        balance.capacity_w.is_finite(),
        balance.demand_w.is_finite(),
        balance.friction_w.is_finite(),
        (balance.capacity_w - balance.demand_w).is_finite(),
        balance.net_w().is_finite(),
    ensures
        ({
            let (given, asked, lost) = (value(balance.capacity_w), value(balance.demand_w), value(balance.friction_w));
            tracks(balance.net_w(), given - asked - lost, size(given) + size(asked) + size(lost), 8)
        }),
{
    let (a, b, c) = (balance.capacity_w, balance.demand_w, balance.friction_w);
    lemma_tracks_itself(a);
    lemma_tracks_itself(b);
    lemma_tracks_itself(c);
    lemma_tracks_sum(a, b, value(a), value(b), size(value(a)), size(value(b)), 0, 0);
    lemma_tracks_sum(
        a - b,
        c,
        value(a) - value(b),
        value(c),
        size(value(a)) + size(value(b)),
        size(value(c)),
        4,
        0,
    );
}

/// The dot product takes its factors in either order, and is the sum of the products of
/// like components, to within twelve roundings of their sizes.
pub proof fn lemma_dot(a: Vector, b: Vector)
    requires
        a.x.is_finite() && a.y.is_finite() && a.z.is_finite(),
        b.x.is_finite() && b.y.is_finite() && b.z.is_finite(),
        unlost(a.x, b.x) && unlost(a.y, b.y) && unlost(a.z, b.z),
        (a.x * b.x + a.y * b.y).is_finite(),
        a.dot(b).is_finite(),
    ensures
        a.dot(b) == b.dot(a),
        ({
            let (x, y, z) = (
                times(value(a.x), value(b.x)),
                times(value(a.y), value(b.y)),
                times(value(a.z), value(b.z)),
            );
            tracks(a.dot(b), x + y + z, size(x) + size(y) + size(z), 12)
        }),
{
    let (x, y, z) = (times(value(a.x), value(b.x)), times(value(a.y), value(b.y)), times(value(a.z), value(b.z)));
    lemma_tracks_exact_product(a.x, b.x);
    lemma_tracks_exact_product(a.y, b.y);
    lemma_tracks_exact_product(a.z, b.z);
    lemma_tracks_sum(a.x * b.x, a.y * b.y, x, y, size(x), size(y), 4, 4);
    lemma_tracks_sum(a.x * b.x + a.y * b.y, a.z * b.z, x + y, z, size(x) + size(y), size(z), 8, 4);
    lemma_mul_commutes(a.x, b.x);
    lemma_mul_commutes(a.y, b.y);
    lemma_mul_commutes(a.z, b.z);
}

/// A liquid engine is baked dry, a motor with its grain. The plume of either is the
/// engine's own exit and propellant, and the point's stream.
pub proof fn lemma_baked_as_carried(engine: &CompiledEngine, point: &EngineOperatingPoint)
    ensures
        ({
            let plume = engine.plume_state(point);
            &&& plume.mass_flow_kg_s == point.mass_flow_kg_s && plume.exit_pressure_pa == point.exit_pressure_pa
            &&& plume.exhaust_velocity_mps == point.exhaust_velocity_mps
            &&& plume.exit_temp_k == point.exit_temp_k && plume.exit_mach == point.exit_mach
        }),
        engine is Liquid ==> {
            &&& engine.bake_mass_kg() == engine->Liquid_0.dry_mass_kg
            &&& engine.plume_state(point).exit_radius_m == engine->Liquid_0.exit_radius_m
            &&& engine.plume_state(point).propellant == engine->Liquid_0.propellant
        },
        engine is Solid ==> {
            let motor = engine->Solid_0;
            &&& engine.plume_state(point).exit_radius_m == motor.exit_radius_m
            &&& engine.plume_state(point).propellant == motor.propellant
            &&& amount(motor.dry_mass_kg) && amount(motor.propellant_mass_kg) && normal(motor.dry_mass_kg + motor.propellant_mass_kg) ==> about(
                value(engine.bake_mass_kg()),
                value(motor.dry_mass_kg) + value(motor.propellant_mass_kg),
                1,
            )
        },
{
    if let CompiledEngine::Solid(motor) = engine {
        if amount(motor.dry_mass_kg) && amount(motor.propellant_mass_kg) && normal(motor.dry_mass_kg + motor.propellant_mass_kg) {
            lemma_about_itself(motor.dry_mass_kg);
            lemma_about_itself(motor.propellant_mass_kg);
            lemma_about_plus(
                motor.dry_mass_kg,
                motor.propellant_mass_kg,
                value(motor.dry_mass_kg),
                value(motor.propellant_mass_kg),
                0,
                0,
            );
        }
    }
}

} // verus!
