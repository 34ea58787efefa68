//! Streams and heats of the combined-cycle engine.
use crate::air::{air_cp_j_kg_k, AirOperatingPoint, FlightCondition};
use crate::constants::standard_gravity_mps2;
use crate::estoc::{CompiledEjector, CompiledEstoc, EstocPrecoolerSpec, HeatExchange};
use crate::float::accuracy::{
    about, amount, lemma_about_product, lemma_about_same, lemma_amount, lemma_normal, lemma_over, lemma_times_adds,
    lemma_times_associates, lemma_times_commutes, lemma_times_positive, normal, over, times, value,
};
use crate::float::{dec, lemma_one, whole, zero, F64};
use crate::float::errors::{allowance, lemma_within_more, size};
use crate::float::nearness::lemma_parts;
use crate::float::order::lemma_less;
use crate::float::tracking::{
    lemma_about_itself, lemma_about_over, lemma_about_plus, lemma_about_root, lemma_about_times, lemma_half_value,
    lemma_tracks_exact_product, lemma_tracks_itself, lemma_tracks_product, lemma_tracks_quotient, lemma_tracks_sum,
    lemma_whole_value, unlost,
};
use crate::laws::expansion::lemma_size_product;
use crate::laws::stream::{lemma_doubled_half, squares};
use crate::nozzle::{pressure_ratio_at, thrust_coefficient, NozzleExitState};
use crate::numerics::Numerics;
use crate::propellant::PropellantThermo;
use crate::shaft::ShaftBalance;
use vstd::prelude::*;

verus! {

/// A mixing, no term of which is lost to underflow or overflow.
pub open spec fn mixing_kept(motive: F64, mixed: F64, speed: F64, efficiency: F64) -> bool {
    let half = dec(5, 1) * motive;
    let power = half * (speed * speed);
    let square = whole(2) * power * efficiency / mixed;
    &&& normal(motive) && normal(mixed) && normal(speed) && normal(efficiency) && normal(speed * speed) && normal(half)
    &&& normal(power) && normal(whole(2) * power) && normal(whole(2) * power * efficiency) && normal(square)
    &&& normal(square.sqrt())
}

/// Mixing keeps its share of the rocket's power: the kinetic power of the mixed stream is
/// the mixing efficiency's share of that of the rocket's jet, to within eight roundings, on
/// a host that squares by one multiplication. Air is entrained at the ambient density
/// through the capture area at the airspeed. Specific impulse counts what the tanks give.
pub proof fn lemma_mixing_power<M: Numerics>(
    engine: &CompiledEstoc,
    math: &M,
    throttle: F64,
    condition: &FlightCondition,
    ejector: CompiledEjector,
)
    requires
        ({
            let rocket = engine.rocket_point(math, throttle, condition.ambient_pa);
            let point = engine.mixed_point(math, throttle, condition, ejector);
            let motive = rocket.fuel_flow_kg_s + rocket.oxidizer_flow_kg_s;
            mixing_kept(
                motive,
                motive + point.air_flow_kg_s,
                rocket.exhaust_velocity_mps,
                ejector.spec.mixing_efficiency,
            )
        }),
        forall|x: F64| #[trigger] squares(math, x),
    ensures
        ({
            let rocket = engine.rocket_point(math, throttle, condition.ambient_pa);
            let point = engine.mixed_point(math, throttle, condition, ejector);
            let motive = point.fuel_flow_kg_s + point.oxidizer_flow_kg_s;
            let mixed = motive + point.air_flow_kg_s;
            let (v, w) = (value(point.exhaust_velocity_mps), value(rocket.exhaust_velocity_mps));
            &&& about(
                times(value(mixed), times(v, v)),
                times(times(value(motive), times(w, w)), value(ejector.spec.mixing_efficiency)),
                8,
            )
            &&& point.isp_total_s == point.thrust_n / (motive * standard_gravity_mps2())
            &&& point.exit_pressure_pa == condition.ambient_pa
            &&& engine.ejector == Some(ejector) ==> point.air_flow_kg_s == condition.ambient_pa / (whole(287)
                * condition.ambient_temp_k) * ejector.spec.capture_area_m2 * condition.airspeed_mps
        }),
{
    let rocket = engine.rocket_point(math, throttle, condition.ambient_pa);
    let point = engine.mixed_point(math, throttle, condition, ejector);
    let motive = rocket.fuel_flow_kg_s + rocket.oxidizer_flow_kg_s;
    let (mixed, speed) = (motive + point.air_flow_kg_s, rocket.exhaust_velocity_mps);
    let eff = ejector.spec.mixing_efficiency;
    assert(squares(math, speed));
    let half = dec(5, 1) * motive;
    let power = half * (speed * speed);
    let top = whole(2) * power * eff;
    let square = top / mixed;
    let (n, m, w, e, h) = (value(motive), value(mixed), value(speed), value(eff), value(dec(5, 1)));
    lemma_one();
    lemma_normal(motive);
    lemma_parts(motive);
    lemma_normal(mixed);
    lemma_normal(speed);
    lemma_normal(eff);
    lemma_normal(speed * speed);
    lemma_normal(half);
    lemma_normal(power);
    lemma_normal(whole(2) * power);
    lemma_normal(top);
    lemma_normal(square);
    lemma_half_value();
    lemma_normal(dec(5, 1));
    lemma_whole_value(2);
    lemma_about_itself(dec(5, 1));
    lemma_about_itself(whole(2));
    lemma_about_itself(motive);
    lemma_about_itself(mixed);
    lemma_about_itself(speed);
    lemma_about_itself(eff);
    lemma_about_times(speed, speed, w, w, 0, 0);
    lemma_about_times(dec(5, 1), motive, h, n, 0, 0);
    lemma_about_times(half, speed * speed, times(h, n), times(w, w), 1, 1);
    let ideal = times(times(h, n), times(w, w));
    lemma_about_times(whole(2), power, 2 as real, ideal, 0, 3);
    // 2 (h n) w w == n w w
    lemma_times_commutes(h, n);
    lemma_times_associates(n, h, times(w, w));
    lemma_doubled_half(n, h, times(w, w));
    let jet = times(n, times(w, w));
    lemma_about_times(whole(2) * power, eff, jet, e, 4, 0);
    lemma_about_over(top, mixed, times(jet, e), m, 5, 0);
    let ratio = over(times(jet, e), m);
    lemma_about_root(square, ratio, 6);
    let v = value(square.sqrt());
    lemma_about_same(m);
    lemma_about_product(m, m, times(v, v), ratio, 0, 8);
    lemma_over(times(jet, e), m);
    lemma_times_commutes(m, ratio);
}

/// The rocket of a combined-cycle engine splits its flow by the mixture ratio. Fuel and as
/// many times the ratio of oxidizer make up the throttled flow, to within two roundings;
/// oxidizer is all that is not fuel; pressure and flow follow the throttle; and specific
/// impulse is the thrust of a unit of weight flow.
pub proof fn lemma_rocket_split<M: Numerics>(engine: &CompiledEstoc, math: &M, throttle: F64, ambient_pa: F64)
    requires
        normal(engine.rocket_flow_kg_s * throttle),
        amount(engine.oxidizer_fuel_ratio),
        normal(whole(1) + engine.oxidizer_fuel_ratio),
        normal(engine.rocket_point(math, throttle, ambient_pa).fuel_flow_kg_s),
    ensures
        ({
            let point = engine.rocket_point(math, throttle, ambient_pa);
            let flow = engine.rocket_flow_kg_s * throttle;
            &&& about(
                times(value(point.fuel_flow_kg_s), (1 as real) + value(engine.oxidizer_fuel_ratio)),
                value(flow),
                2,
            )
            &&& point.oxidizer_flow_kg_s == flow - point.fuel_flow_kg_s
            &&& point.bulk_fuel_flow_kg_s == point.fuel_flow_kg_s && point.boost_fuel_flow_kg_s == zero()
            &&& point.air_flow_kg_s == zero()
            &&& point.isp_total_s == point.thrust_n / (flow * standard_gravity_mps2())
        }),
{
    let point = engine.rocket_point(math, throttle, ambient_pa);
    let (flow, ratio) = (engine.rocket_flow_kg_s * throttle, engine.oxidizer_fuel_ratio);
    let (all, r) = (whole(1) + ratio, (1 as real) + value(ratio));
    lemma_one();
    lemma_normal(flow);
    lemma_parts(flow);
    lemma_normal(all);
    lemma_amount(ratio);
    lemma_whole_value(1);
    lemma_about_itself(whole(1));
    lemma_about_itself(ratio);
    lemma_about_itself(flow);
    lemma_about_plus(whole(1), ratio, 1 as real, value(ratio), 0, 0);
    lemma_about_over(flow, all, value(flow), r, 0, 1);
    lemma_about_same(r);
    lemma_about_product(value(point.fuel_flow_kg_s), over(value(flow), r), r, r, 2, 0);
    lemma_over(value(flow), r);
}

/// The heats of a precooler after a step, no term of which is lost to underflow or
/// overflow.
pub open spec fn cooler_kept(precooler: &EstocPrecoolerSpec, point: AirOperatingPoint, prior_k: F64, dt_s: F64) -> bool {
    let capacity = precooler.wall_mass_kg * precooler.wall_specific_heat_j_kg_k;
    let (heat, energy) = (point.precooler_wall_heat_flow_w, point.precooler_wall_heat_flow_w * dt_s);
    &&& normal(precooler.wall_mass_kg) && normal(precooler.wall_specific_heat_j_kg_k) && normal(capacity)
    &&& normal(heat) && normal(dt_s) && normal(energy) && normal(energy / capacity) && normal(prior_k)
    &&& normal(prior_k + energy / capacity)
}

/// A precooler's wall stores what it takes up: unless it reaches its limit, its heat capacity
/// times its new temperature is that of its old one and the heat flow into it over the
/// step, to within four roundings. It never passes its limit.
pub proof fn lemma_wall_stores(
    engine: &CompiledEstoc,
    precooler: &EstocPrecoolerSpec,
    point: AirOperatingPoint,
    balance: ShaftBalance,
    prior_k: F64,
    dt_s: F64,
)
    requires
        cooler_kept(precooler, point, prior_k, dt_s),
        !precooler.wall_max_temp_k.is_nan(),
    ensures
        ({
            let cooled = engine.after_matching(precooler, point, balance, prior_k, dt_s);
            let capacity = times(value(precooler.wall_mass_kg), value(precooler.wall_specific_heat_j_kg_k));
            &&& cooled.wall_temp_k <= precooler.wall_max_temp_k
            &&& cooled.wall_temp_k < precooler.wall_max_temp_k ==> about(
                times(value(cooled.wall_temp_k), capacity),
                times(value(prior_k), capacity) + times(value(point.precooler_wall_heat_flow_w), value(dt_s)),
                4,
            )
            &&& cooled.point == point
        }),
{
    let cooled = engine.after_matching(precooler, point, balance, prior_k, dt_s);
    let (mass, cp) = (precooler.wall_mass_kg, precooler.wall_specific_heat_j_kg_k);
    let (capacity, heat) = (mass * cp, point.precooler_wall_heat_flow_w);
    let energy = heat * dt_s;
    lemma_one();
    lemma_normal(mass);
    lemma_normal(cp);
    lemma_normal(capacity);
    lemma_normal(heat);
    lemma_normal(dt_s);
    lemma_parts(dt_s);
    lemma_normal(energy);
    lemma_normal(energy / capacity);
    lemma_normal(prior_k);
    let raised = prior_k + energy / capacity;
    lemma_normal(raised);
    lemma_parts(raised);
    lemma_about_itself(mass);
    lemma_about_itself(cp);
    lemma_about_itself(heat);
    lemma_about_itself(dt_s);
    lemma_about_itself(prior_k);
    let (c, q) = (times(value(mass), value(cp)), times(value(heat), value(dt_s)));
    lemma_times_positive(value(mass), value(cp));
    lemma_about_times(mass, cp, value(mass), value(cp), 0, 0);
    lemma_about_times(heat, dt_s, value(heat), value(dt_s), 0, 0);
    lemma_about_over(energy, capacity, q, c, 1, 1);
    lemma_about_plus(prior_k, energy / capacity, value(prior_k), over(q, c), 0, 3);
    lemma_about_same(c);
    lemma_about_product(value(raised), value(prior_k) + over(q, c), c, c, 4, 0);
    lemma_times_adds(value(prior_k), over(q, c), c);
    lemma_over(q, c);
}

/// What a precooler is to move splits into coolant and wall: neither takes more than there
/// is, the wall no more than its headroom, and the coolant no more than it can carry.
pub proof fn lemma_heat_split(exchange: &HeatExchange, total_w: F64)
    requires
        zero() <= total_w,
        zero() <= exchange.wall_headroom_w,
        ({
            let (coolant, wall) = exchange.partition(total_w);
            zero() <= coolant && !(total_w - coolant).is_nan()
        }),
    ensures
        ({
            let (coolant, wall) = exchange.partition(total_w);
            &&& coolant <= total_w
            &&& zero() <= wall && wall <= exchange.wall_headroom_w
            &&& wall <= total_w
            &&& !exchange.boosted ==> coolant <= zero()
        }),
{
    let (coolant, wall) = exchange.partition(total_w);
    lemma_one();
    lemma_parts(total_w);
    lemma_parts(coolant);
    lemma_parts(exchange.wall_headroom_w);
    lemma_less(total_w, coolant);
}

/// The air of a precooler, no term of which is lost to underflow or overflow.
pub open spec fn chilled_kept(exchange: &HeatExchange, heat_w: F64) -> bool {
    let drop = heat_w / exchange.air_capacity_w_k;
    &&& normal(exchange.t_ram) && normal(exchange.air_capacity_w_k) && amount(heat_w)
    &&& normal(drop) || heat_w.units() == 0
    &&& (exchange.t_ram - drop).is_finite()
}

/// A precooler takes out of the air what coolant and wall take up: unless the air would fall
/// below a kelvin, its heat capacity times its drop from the ram temperature to the
/// compressor's face is the heat that both take, up to twelve roundings of the terms. The
/// coolant flows no faster than its rating.
pub proof fn lemma_air_chilled(engine: &CompiledEstoc, precooler: &EstocPrecoolerSpec, exchange: &HeatExchange)
    requires
        ({
            let (coolant, wall) = exchange.partition(exchange.heat_flow_w());
            chilled_kept(exchange, coolant + wall)
        }),
        !precooler.maximum_coolant_flow_kg_s.is_nan(),
    ensures
        ({
            let input = engine.conditioning(precooler, exchange);
            let heat = input.coolant_heat_flow_w + input.wall_heat_flow_w;
            let (ram, c) = (value(exchange.t_ram), value(exchange.air_capacity_w_k));
            let exact = ram - over(value(heat), c);
            &&& whole(1) < input.compressor_inlet_total_temp_k ==> size(
                value(input.compressor_inlet_total_temp_k) - exact,
            ) <= times(ram + over(value(heat), c), allowance(12))
            &&& input.compressor_inlet_total_temp_k >= whole(1)
            &&& input.boost_fuel_flow_kg_s <= precooler.maximum_coolant_flow_kg_s
            &&& input.compressor_pressure_recovery == precooler.pressure_recovery
        }),
{
    let (coolant, wall) = exchange.partition(exchange.heat_flow_w());
    let heat = coolant + wall;
    let (ram, cap) = (exchange.t_ram, exchange.air_capacity_w_k);
    let drop = heat / cap;
    lemma_one();
    lemma_normal(ram);
    lemma_normal(cap);
    lemma_amount(heat);
    lemma_tracks_itself(ram);
    lemma_tracks_itself(cap);
    lemma_tracks_itself(heat);
    let (c, q) = (value(cap), value(heat));
    lemma_over(q, c);
    lemma_tracks_quotient(heat, cap, q, c, size(q), 0, 0);
    lemma_tracks_sum(ram, drop, value(ram), over(q, c), value(ram), over(q, c), 0, 4);
    let bound = value(ram) + over(q, c);
    lemma_within_more(value(ram - drop), value(ram) - over(q, c), bound, 8, bound, 12);
    lemma_parts(ram - drop);
    lemma_parts(whole(1));
    lemma_parts(precooler.maximum_coolant_flow_kg_s);
}

/// A precooler's limit is none greater than any of its three: the exchanger's, the rated heat
/// flow, and what brings the air down to the compressor's limit.
pub proof fn lemma_exchange_limits<M: Numerics>(
    engine: &CompiledEstoc,
    math: &M,
    precooler: &EstocPrecoolerSpec,
    condition: &FlightCondition,
    throttle: F64,
    spool_n: F64,
    air_flow_kg_s: F64,
    prior_k: F64,
    dt_s: F64,
)
    requires
        ({
            let exchange = engine.heat_exchange(
                math,
                precooler,
                condition,
                throttle,
                spool_n,
                air_flow_kg_s,
                prior_k,
                dt_s,
            );
            &&& !precooler.maximum_heat_flow_w.is_nan() && !exchange.heat_limit_w.is_nan()
            &&& !(exchange.air_capacity_w_k * (exchange.t_ram - precooler.maximum_compressor_inlet_temp_k).max(
                zero(),
            )).is_nan()
        }),
    ensures
        ({
            let exchange = engine.heat_exchange(
                math,
                precooler,
                condition,
                throttle,
                spool_n,
                air_flow_kg_s,
                prior_k,
                dt_s,
            );
            &&& exchange.heat_limit_w <= precooler.maximum_heat_flow_w
            &&& exchange.heat_limit_w <= exchange.air_capacity_w_k * (exchange.t_ram
                - precooler.maximum_compressor_inlet_temp_k).max(zero())
            &&& exchange.air_capacity_w_k == air_flow_kg_s * air_cp_j_kg_k()
            &&& exchange.coolant_delta_temp_k == precooler.coolant_max_outlet_temp_k - precooler.coolant_inlet_temp_k
            &&& exchange.boosted == engine.boost_coolant_fuel.is_some()
        }),
{
    let exchange = engine.heat_exchange(
        math,
        precooler,
        condition,
        throttle,
        spool_n,
        air_flow_kg_s,
        prior_k,
        dt_s,
    );
    lemma_one();
    lemma_parts(precooler.maximum_heat_flow_w);
    lemma_parts(exchange.heat_limit_w);
    lemma_parts(
        exchange.air_capacity_w_k * (exchange.t_ram - precooler.maximum_compressor_inlet_temp_k).max(zero()),
    );
}

/// The coolant's heat, no term of which is lost to underflow or overflow.
pub open spec fn coolant_kept(precooler: &EstocPrecoolerSpec, point: AirOperatingPoint) -> bool {
    let heat = (point.precooler_heat_flow_w - point.precooler_wall_heat_flow_w).max(zero());
    let rate = point.boost_fuel_flow_kg_s * precooler.coolant_specific_heat_j_kg_k;
    &&& normal(heat) && normal(point.boost_fuel_flow_kg_s) && normal(precooler.coolant_specific_heat_j_kg_k)
    &&& normal(rate) && normal(heat / rate) && normal(precooler.coolant_inlet_temp_k)
    &&& normal(precooler.coolant_inlet_temp_k + heat / rate)
}

/// The coolant carries off what the wall does not take: its flow times its specific heat
/// times its outlet temperature is that of its inlet and the heat beyond the wall's, to
/// within three roundings.
pub proof fn lemma_coolant_carries(
    engine: &CompiledEstoc,
    precooler: &EstocPrecoolerSpec,
    point: AirOperatingPoint,
    balance: ShaftBalance,
    prior_k: F64,
    dt_s: F64,
)
    requires
        coolant_kept(precooler, point),
    ensures
        ({
            let cooled = engine.after_matching(precooler, point, balance, prior_k, dt_s);
            let heat = (point.precooler_heat_flow_w - point.precooler_wall_heat_flow_w).max(zero());
            let rate = times(value(point.boost_fuel_flow_kg_s), value(precooler.coolant_specific_heat_j_kg_k));
            about(
                times(value(cooled.coolant_outlet_temp_k), rate),
                times(value(precooler.coolant_inlet_temp_k), rate) + value(heat),
                3,
            )
        }),
{
    let heat = (point.precooler_heat_flow_w - point.precooler_wall_heat_flow_w).max(zero());
    let (flow, cp, inlet) = (
        point.boost_fuel_flow_kg_s,
        precooler.coolant_specific_heat_j_kg_k,
        precooler.coolant_inlet_temp_k,
    );
    let rate = flow * cp;
    lemma_one();
    lemma_normal(heat);
    lemma_normal(flow);
    lemma_parts(flow);
    lemma_normal(cp);
    lemma_normal(rate);
    lemma_normal(heat / rate);
    lemma_normal(inlet);
    lemma_about_itself(heat);
    lemma_about_itself(flow);
    lemma_about_itself(cp);
    lemma_about_itself(inlet);
    let (c, q) = (times(value(flow), value(cp)), value(heat));
    lemma_times_positive(value(flow), value(cp));
    lemma_about_times(flow, cp, value(flow), value(cp), 0, 0);
    lemma_about_over(heat, rate, q, c, 0, 1);
    lemma_about_plus(inlet, heat / rate, value(inlet), over(q, c), 0, 2);
    lemma_about_same(c);
    lemma_about_product(value(inlet + heat / rate), value(inlet) + over(q, c), c, c, 3, 0);
    lemma_times_adds(value(inlet), over(q, c), c);
    lemma_over(q, c);
}

/// The rocket's thrust, no term of which is lost to underflow or overflow.
pub open spec fn rocket_kept(cf: F64, pressure: F64, throttle: F64, area: F64) -> bool {
    &&& cf.is_finite() && pressure.is_finite() && throttle.is_finite() && area.is_finite()
    &&& unlost(pressure, throttle) && unlost(cf, pressure * throttle) && unlost(cf * (pressure * throttle), area)
}

/// The rocket of a combined-cycle engine runs at its throttled pressure: its thrust is the
/// thrust coefficient there times that pressure on its throat, to within twenty roundings,
/// and its exit pressure the nozzle's share of it.
pub proof fn lemma_rocket_thrust<M: Numerics>(engine: &CompiledEstoc, math: &M, throttle: F64, ambient_pa: F64)
    requires
        ({
            let (thermo, exit) = (engine_gas(engine), engine_exit(engine, math));
            let chamber_pa = engine.rocket_chamber_pressure_pa * throttle;
            rocket_kept(
                thrust_coefficient(
                    math,
                    &thermo,
                    chamber_pa,
                    &exit,
                    engine.rocket_expansion_ratio,
                    ambient_pa,
                    dec(99, 2),
                ),
                engine.rocket_chamber_pressure_pa,
                throttle,
                engine.rocket_throat_area_m2,
            )
        }),
    ensures
        ({
            let (thermo, exit) = (engine_gas(engine), engine_exit(engine, math));
            let chamber_pa = engine.rocket_chamber_pressure_pa * throttle;
            let cf = value(
                thrust_coefficient(
                    math,
                    &thermo,
                    chamber_pa,
                    &exit,
                    engine.rocket_expansion_ratio,
                    ambient_pa,
                    dec(99, 2),
                ),
            );
            let point = engine.rocket_point(math, throttle, ambient_pa);
            let push = times(
                times(cf, times(value(engine.rocket_chamber_pressure_pa), value(throttle))),
                value(engine.rocket_throat_area_m2),
            );
            &&& size(value(point.thrust_n) - push) <= times(size(push), allowance(20))
            &&& point.exit_pressure_pa == exit.exit_pressure_ratio * chamber_pa
            &&& point.exhaust_velocity_mps == engine.rocket_exhaust_velocity_mps
            &&& point.exhaust_temp_k == engine.rocket_exit_temp_k && point.exit_mach == engine.rocket_exit_mach
        }),
{
    let (thermo, exit) = (engine_gas(engine), engine_exit(engine, math));
    let (p, area) = (engine.rocket_chamber_pressure_pa, engine.rocket_throat_area_m2);
    let chamber = p * throttle;
    let cf = thrust_coefficient(
        math,
        &thermo,
        chamber,
        &exit,
        engine.rocket_expansion_ratio,
        ambient_pa,
        dec(99, 2),
    );
    let (pt, c, a) = (times(value(p), value(throttle)), value(cf), value(area));
    lemma_tracks_exact_product(p, throttle);
    lemma_tracks_itself(cf);
    lemma_tracks_itself(area);
    lemma_tracks_product(cf, chamber, c, pt, size(c), size(pt), 0, 4);
    lemma_size_product(c, pt);
    lemma_tracks_product(cf * chamber, area, times(c, pt), a, size(times(c, pt)), size(a), 8, 0);
    lemma_size_product(times(c, pt), a);
}

/// The gas of the rocket's chamber.
pub open spec fn engine_gas(engine: &CompiledEstoc) -> PropellantThermo {
    PropellantThermo {
        gamma: engine.rocket_gamma,
        chamber_temp_k: engine.rocket_chamber_temp_k,
        gas_constant_j_kg_k: engine.rocket_gas_constant,
        bulk_density_kg_m3: zero(),
        characteristic_length_m: zero(),
        reference_c_star_mps: zero(),
    }
}

/// The exit of the rocket's nozzle.
pub open spec fn engine_exit<M: Numerics>(engine: &CompiledEstoc, math: &M) -> NozzleExitState {
    NozzleExitState {
        exit_mach: engine.rocket_exit_mach,
        exit_pressure_ratio: pressure_ratio_at(math, engine.rocket_gamma, engine.rocket_exit_mach),
        exit_temp_k: engine.rocket_exit_temp_k,
        exhaust_velocity_mps: engine.rocket_exhaust_velocity_mps,
    }
}

} // verus!
