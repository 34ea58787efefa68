//! The burn trace of a compiled motor: from ignition to burn-through, in order, under
//! its peak.
use crate::constants::standard_gravity_mps2;
use crate::error::Fault;
use crate::float::accuracy::{lemma_rounds_little, lemma_step_up};
use crate::float::decimals::lemma_whole;
use crate::float::errors::precise;
use crate::float::{lemma_one, whole, zero, F64};
use crate::float::magnitude::HIDDEN;
use crate::float::nearness::{lemma_near, lemma_parts};
use crate::float::order::{
    lemma_add_not_negative, lemma_add_order, lemma_at_least_itself, lemma_less_finite, lemma_mul_commutes,
    lemma_mul_not_negative, lemma_mul_not_negative_or_nan, lemma_numbers, lemma_positive_product, lemma_scaled_order,
    lemma_sum, lemma_within,
};
use crate::laws::thrust::lemma_stations;
use crate::nozzle::exit_for;
use crate::numerics::{powf, Numerics};
use crate::solid::{
    advanced, burned_through, burned_through_station, greatest, webs_of, Burn, BurnPoint, CompiledSolid, FrozenNozzle,
    SolidMotorSpec, MAX_BURN_STATIONS,
};
use vstd::arithmetic::power2::lemma_pow2_pos;
use vstd::prelude::*;

verus! {

/// Stations in the order of time, from zero to `time_s`, none above `peak_pa`.
pub open spec fn in_order(stations: Seq<BurnPoint>, time_s: F64, peak_pa: F64) -> bool {
    &&& stations.len() > 0
    &&& stations[0].time_s == zero()
    &&& stations.last().time_s == time_s
    &&& zero() <= time_s
    &&& forall|i: int| #![trigger stations[i]] 0 < i < stations.len() ==> stations[i - 1].time_s <= stations[i].time_s
    &&& forall|i: int|
        #![trigger stations[i]]
        0 <= i < stations.len() ==> zero() <= stations[i].chamber_pa && stations[i].chamber_pa <= peak_pa
}

/// A burn that goes on keeps its stations in order.
proof fn lemma_burn_on<M: Numerics>(
    spec: &SolidMotorSpec,
    math: &M,
    nozzle: &FrozenNozzle,
    dt_s: F64,
    burn: Burn,
    first_pa: F64,
)
    requires
        zero() < dt_s,
        !first_pa.is_nan(),
        !burn.peak_pressure_pa.is_nan(),
        burn.stations.len() <= MAX_BURN_STATIONS,
        in_order(burn.stations, burn.time_s, burn.peak_pressure_pa.max(first_pa)),
    ensures
        match spec.burn_on(math, nozzle, dt_s, burn) {
            Ok(whole) => in_order(whole.stations, whole.time_s, whole.peak_pressure_pa.max(first_pa))
                && whole.stations[0] == burn.stations[0] && whole.stations.len() <= MAX_BURN_STATIONS + 1,
            Err(_) => true,
        },
    decreases MAX_BURN_STATIONS + 1 - burn.stations.len(),
{
    lemma_one();
    let cores = spec.cores();
    let webs = webs_of(spec.outer_radius_m, cores);
    let area_m2 = spec.burn_area(cores, burn.burned, cores.len());
    if !(area_m2 <= zero()) && spec.pressure(math, nozzle, area_m2) is Ok {
        let chamber_pa = spec.pressure(math, nozzle, area_m2)->Ok_0;
        let burned = advanced(burn.burned, webs, spec.burn_rate_mps(math, chamber_pa) * dt_s);
        let time_s = burn.time_s + dt_s;
        let left_m2 = spec.burn_area(cores, burned, cores.len());
        let web_m = greatest(burned);
        let station = if left_m2 <= zero() {
            Ok(burned_through_station(time_s, web_m))
        } else {
            spec.station(math, nozzle, time_s, burned, web_m)
        };
        if station is Ok {
            let point = station->Ok_0;
            lemma_parts(point.chamber_pa);
            lemma_add_not_negative(burn.time_s, dt_s);
            let next = Burn {
                burned,
                time_s,
                stations: burn.stations.push(point),
                peak_pressure_pa: burn.peak_pressure_pa.max(point.chamber_pa),
                peak_thrust_n: burn.peak_thrust_n.max(point.thrust_sl_n),
            };
            assert(in_order(next.stations, next.time_s, next.peak_pressure_pa.max(first_pa))) by {
                assert forall|i: int| #![trigger next.stations[i]] 0 <= i < next.stations.len() implies zero()
                    <= next.stations[i].chamber_pa && next.stations[i].chamber_pa <= next.peak_pressure_pa.max(first_pa) by {
                    if i < burn.stations.len() {
                        assert(next.stations[i] == burn.stations[i]);
                    }
                }
                assert forall|i: int| #![trigger next.stations[i]] 0 < i < next.stations.len() implies next.stations[i
                    - 1].time_s <= next.stations[i].time_s by {
                    if i < burn.stations.len() {
                        assert(next.stations[i] == burn.stations[i]);
                        assert(next.stations[i - 1] == burn.stations[i - 1]);
                    } else {
                        assert(next.stations[i - 1] == burn.stations.last());
                    }
                }
            }
            if !burned_through(burned, webs) && next.stations.len() <= MAX_BURN_STATIONS {
                lemma_burn_on(spec, math, nozzle, dt_s, next, first_pa);
            }
        }
    }
}

/// A station with neither pressure, flow nor thrust.
pub open spec fn dark(point: BurnPoint) -> bool {
    &&& point.chamber_pa == zero()
    &&& point.mass_flow_kg_s == zero()
    &&& point.thrust_sl_n == zero()
    &&& point.thrust_vac_n == zero()
}

/// Stations one step of time apart.
pub open spec fn stepped(stations: Seq<BurnPoint>, dt_s: F64) -> bool {
    forall|i: int| #![trigger stations[i]] 0 < i < stations.len() ==> stations[i].time_s == stations[i - 1].time_s + dt_s
}

/// A burn that goes on ends in a dark station.
proof fn lemma_burn_out<M: Numerics>(spec: &SolidMotorSpec, math: &M, nozzle: &FrozenNozzle, dt_s: F64, burn: Burn)
    requires
        spec.fault() is None,
        burn.burned.len() == spec.cores().len(),
        forall|i: int| #![trigger burn.burned[i]] 0 <= i < burn.burned.len() ==> !burn.burned[i].is_nan(),
        1 <= burn.stations.len() <= MAX_BURN_STATIONS,
        burn.stations.last().time_s == burn.time_s,
        stepped(burn.stations, dt_s),
        burn.stations.len() > 1 && spec.burn_area(spec.cores(), burn.burned, spec.cores().len()) <= zero() ==> dark(
            burn.stations.last(),
        ),
    ensures
        match spec.burn_on(math, nozzle, dt_s, burn) {
            Ok(whole) => stepped(whole.stations, dt_s) && (whole.stations.len() > 1 ==> dark(whole.stations.last())),
            Err(_) => true,
        },
    decreases MAX_BURN_STATIONS + 1 - burn.stations.len(),
{
    let cores = spec.cores();
    let webs = webs_of(spec.outer_radius_m, cores);
    let area_m2 = spec.burn_area(cores, burn.burned, cores.len());
    if !(area_m2 <= zero()) && spec.pressure(math, nozzle, area_m2) is Ok {
        let chamber_pa = spec.pressure(math, nozzle, area_m2)->Ok_0;
        let step_m = spec.burn_rate_mps(math, chamber_pa) * dt_s;
        let burned = advanced(burn.burned, webs, step_m);
        let time_s = burn.time_s + dt_s;
        let left_m2 = spec.burn_area(cores, burned, cores.len());
        let web_m = greatest(burned);
        let station = if left_m2 <= zero() {
            Ok(burned_through_station(time_s, web_m))
        } else {
            spec.station(math, nozzle, time_s, burned, web_m)
        };
        if station is Ok {
            let point = station->Ok_0;
            let next = Burn {
                burned,
                time_s,
                stations: burn.stations.push(point),
                peak_pressure_pa: burn.peak_pressure_pa.max(point.chamber_pa),
                peak_thrust_n: burn.peak_thrust_n.max(point.thrust_sl_n),
            };
            lemma_webs(spec);
            assert forall|i: int| #![trigger burned[i]] 0 <= i < burned.len() implies !burned[i].is_nan() by {
                assert(!burn.burned[i].is_nan() && !webs[i].is_nan());
            }
            assert(stepped(next.stations, dt_s)) by {
                assert forall|i: int| #![trigger next.stations[i]] 0 < i < next.stations.len() implies next.stations[i].time_s
                    == next.stations[i - 1].time_s + dt_s by {
                    assert(next.stations[i - 1] == burn.stations[i - 1]);
                    if i < burn.stations.len() {
                        assert(next.stations[i] == burn.stations[i]);
                    }
                }
            }
            if burned_through(burned, webs) {
                lemma_nothing_left(spec, burned, cores.len());
                lemma_one();
            } else if next.stations.len() <= MAX_BURN_STATIONS {
                lemma_burn_out(spec, math, nozzle, dt_s, next);
            }
        }
    }
}

/// The webs of a sound motor are numbers.
proof fn lemma_webs(spec: &SolidMotorSpec)
    requires
        spec.fault() is None,
    ensures
        forall|i: int|
            #![trigger webs_of(spec.outer_radius_m, spec.cores())[i]]
            0 <= i < spec.cores().len() ==> !webs_of(spec.outer_radius_m, spec.cores())[i].is_nan(),
{
    let cores = spec.cores();
    lemma_one();
    assert forall|i: int|
        #![trigger webs_of(spec.outer_radius_m, cores)[i]]
        0 <= i < cores.len() implies !webs_of(spec.outer_radius_m, cores)[i].is_nan() by {
        if spec.segment_core_radii_m is Some {
            lemma_radii(spec, spec.segment_core_radii_m->0@, 0, i);
        }
        lemma_parts(cores[i]);
        lemma_parts(spec.outer_radius_m);
        lemma_less_finite(spec.outer_radius_m, cores[i]);
    }
}

/// Every authored port of a sound motor lies within the grain.
proof fn lemma_radii(spec: &SolidMotorSpec, radii: Seq<F64>, from: int, i: int)
    requires
        0 <= from <= i < radii.len(),
        spec.radii_fault(radii, from) is None,
    ensures
        zero() < radii[i],
        radii[i] < spec.outer_radius_m,
    decreases i - from,
{
    lemma_one();
    if from < i {
        lemma_radii(spec, radii, from + 1, i);
    }
}

/// A grain that has burned through has no burning surface.
proof fn lemma_nothing_left(spec: &SolidMotorSpec, burned: Seq<F64>, n: nat)
    requires
        spec.fault() is None,
        n <= spec.cores().len(),
        burned.len() == spec.cores().len(),
        forall|i: int| #![trigger burned[i]] 0 <= i < burned.len() ==> !burned[i].is_nan(),
        burned_through(burned, webs_of(spec.outer_radius_m, spec.cores())),
    ensures
        spec.burn_area(spec.cores(), burned, n) == zero(),
    decreases n,
{
    if n > 0 {
        let webs = webs_of(spec.outer_radius_m, spec.cores());
        lemma_nothing_left(spec, burned, (n - 1) as nat);
        lemma_webs(spec);
        assert(!webs[n - 1].is_nan() && !burned[n - 1].is_nan());
        assert(!(burned[n - 1] < webs[n - 1]));
    }
}

/// The clock of a trace is no further than twice its count of steps.
proof fn lemma_clock(stations: Seq<BurnPoint>, dt_s: F64, i: int)
    requires
        stepped(stations, dt_s),
        zero() < dt_s,
        dt_s.is_finite(),
        stations.len() <= MAX_BURN_STATIONS + 1,
        stations[0].time_s == zero(),
        forall|k: int| #![trigger stations[k]] 0 <= k < stations.len() ==> stations[k].time_s.is_finite(),
        0 <= i < stations.len(),
    ensures
        0 <= stations[i].time_s.units() <= 2 * i * dt_s.units(),
        i > 0 ==> stations[i - 1].time_s < stations[i].time_s,
    decreases i,
{
    lemma_one();
    lemma_parts(dt_s);
    if i > 0 {
        lemma_clock(stations, dt_s, i - 1);
        let (t, d, k) = (stations[i - 1].time_s.units(), dt_s.units(), i - 1);
        assert(stations[i - 1].time_s.is_finite());
        lemma_parts(stations[i - 1].time_s);
        assert(2 * k * d <= HIDDEN * d) by (nonlinear_arith)
            requires
                0 <= k <= 100_000,
                d > 0,
                HIDDEN == 4_503_599_627_370_496,
        ;
        lemma_step_up(stations[i - 1].time_s, dt_s);
        lemma_sum(stations[i - 1].time_s, dt_s);
        lemma_near(false, t + d, 1);
        lemma_rounds_little(t + d);
        let sum = stations[i].time_s.units();
        assert(sum <= 2 * (k + 1) * d) by (nonlinear_arith)
            requires
                sum * HIDDEN <= (t + d) * (HIDDEN + 1),
                0 <= t <= 2 * k * d,
                0 <= k <= 100_000,
                d > 0,
                HIDDEN == 4_503_599_627_370_496,
        ;
    }
}

/// A burn of more than one station ends in the dark: its last station reads zero in
/// pressure, flow and thrust. As long as its clock stays finite, it rises from each
/// station to the next.
pub proof fn lemma_burn_through<M: Numerics>(spec: &SolidMotorSpec, math: &M, motor: CompiledSolid)
    requires
        spec.compiles_to(math, Ok::<CompiledSolid, Fault>(motor)),
    ensures
        motor.burn_curve@.len() > 1 ==> dark(motor.burn_curve@.last()),
        motor.burn_time_s.is_finite() ==> forall|i: int|
            #![trigger motor.burn_curve@[i]]
            0 < i < motor.burn_curve@.len() ==> motor.burn_curve@[i - 1].time_s < motor.burn_curve@[i].time_s,
{
    lemma_one();
    lemma_trace(spec, math, motor);
    let exit = exit_for(math, &spec.propellant.thermo(), spec.expansion_ratio)->Ok_0;
    let nozzle = spec.frozen_nozzle(math, &spec.propellant.thermo(), &exit);
    let dt_s = spec.time_step(math, &nozzle)->Ok_0;
    let point = spec.station(math, &nozzle, zero(), spec.unburned(), zero())->Ok_0;
    lemma_parts(dt_s);
    lemma_parts(zero());
    let start = Burn {
        burned: spec.unburned(),
        time_s: zero(),
        stations: seq![point],
        peak_pressure_pa: zero(),
        peak_thrust_n: zero(),
    };
    lemma_burn_out(spec, math, &nozzle, dt_s, start);
    let curve = motor.burn_curve@;
    if motor.burn_time_s.is_finite() {
        assert forall|k: int| #![trigger curve[k]] 0 <= k < curve.len() implies curve[k].time_s.is_finite() by {
            lemma_early(curve, k);
            lemma_from_start(curve, k);
            lemma_within(curve[k].time_s, motor.burn_time_s);
        }
        assert forall|i: int| #![trigger curve[i]] 0 < i < curve.len() implies curve[i - 1].time_s < curve[i].time_s by {
            lemma_clock(curve, dt_s, i);
        }
    }
}

/// No station of an ordered trace lies behind its last.
proof fn lemma_early(curve: Seq<BurnPoint>, i: int)
    requires
        forall|k: int| #![trigger curve[k]] 0 < k < curve.len() ==> curve[k - 1].time_s <= curve[k].time_s,
        0 <= i < curve.len(),
        !curve.last().time_s.is_nan(),
    ensures
        curve[i].time_s <= curve.last().time_s,
    decreases curve.len() - i,
{
    if i + 1 < curve.len() {
        lemma_early(curve, i + 1);
        assert(curve[(i + 1) - 1].time_s <= curve[i + 1].time_s);
    }
}

/// No station of an ordered trace lies before zero.
pub proof fn lemma_from_start(curve: Seq<BurnPoint>, i: int)
    requires
        curve.len() > 0,
        curve[0].time_s == zero(),
        forall|k: int| #![trigger curve[k]] 0 < k < curve.len() ==> curve[k - 1].time_s <= curve[k].time_s,
        0 <= i < curve.len(),
    ensures
        zero() <= curve[i].time_s,
    decreases i,
{
    lemma_one();
    if i > 0 {
        lemma_from_start(curve, i - 1);
    }
}

/// The trace of a compiled motor starts at ignition and ends at the burn time, its
/// clock never runs back, and no station lies above the peak pressure. The average
/// specific impulse is the impulse over the weight of the propellant.
pub proof fn lemma_trace<M: Numerics>(spec: &SolidMotorSpec, math: &M, motor: CompiledSolid)
    requires
        spec.compiles_to(math, Ok::<CompiledSolid, Fault>(motor)),
    ensures
        in_order(motor.burn_curve@, motor.burn_time_s, motor.peak_pressure_pa),
        motor.burn_curve@.len() <= MAX_BURN_STATIONS + 1,
        motor.avg_isp_s == motor.total_impulse_ns / (motor.propellant_mass_kg * standard_gravity_mps2()),
        motor.gimbal_range_rad == spec.gimbal_range_rad,
        motor.ignition_shots == spec.ignition_shots,
{
    lemma_one();
    let exit = exit_for(math, &spec.propellant.thermo(), spec.expansion_ratio)->Ok_0;
    let nozzle = spec.frozen_nozzle(math, &spec.propellant.thermo(), &exit);
    let dt_s = spec.time_step(math, &nozzle)->Ok_0;
    let point = spec.station(math, &nozzle, zero(), spec.unburned(), zero())->Ok_0;
    lemma_parts(dt_s);
    lemma_parts(point.chamber_pa);
    let start = Burn {
        burned: spec.unburned(),
        time_s: zero(),
        stations: seq![point],
        peak_pressure_pa: zero(),
        peak_thrust_n: zero(),
    };
    assert(in_order(start.stations, start.time_s, start.peak_pressure_pa.max(point.chamber_pa)));
    lemma_burn_on(spec, math, &nozzle, dt_s, start, point.chamber_pa);
}

/// A host whose power of a positive number is positive, and of no number none, at the
/// exponents of a motor.
pub open spec fn powers_hold<M: Numerics>(spec: &SolidMotorSpec, math: &M) -> bool {
    &&& forall|x: F64| #![trigger powf(math, x, spec.burn_rate_exponent)] x > zero() ==> powf(
        math,
        x,
        spec.burn_rate_exponent,
    ) > zero()
    &&& forall|x: F64|
        #![trigger powf(math, x, whole(1) / (whole(1) - spec.burn_rate_exponent))]
        x.is_nan() ==> powf(math, x, whole(1) / (whole(1) - spec.burn_rate_exponent)).is_nan()
}

/// A burning station: pressure above zero, and flow too wherever it keeps full precision;
/// flow is never negative.
pub open spec fn lit(point: BurnPoint) -> bool {
    &&& point.chamber_pa > zero()
    &&& !(point.mass_flow_kg_s < zero())
    &&& precise(point.mass_flow_kg_s) ==> point.mass_flow_kg_s > zero()
}

/// All stations but the last are lit, and the web never shrinks.
pub open spec fn burns_through(stations: Seq<BurnPoint>) -> bool {
    &&& forall|i: int| #![trigger stations[i]] 0 <= i < stations.len() - 1 ==> lit(stations[i])
    &&& forall|i: int|
        #![trigger stations[i]]
        0 < i < stations.len() ==> stations[i - 1].web_burned_m <= stations[i].web_burned_m
}

/// A burned depth of each segment that is a number and not negative.
pub open spec fn depths(burned: Seq<F64>) -> bool {
    forall|i: int| #![trigger burned[i]] 0 <= i < burned.len() ==> zero() <= burned[i]
}

/// A burning surface with a physical pressure gives a lit station.
proof fn lemma_lit<M: Numerics>(
    spec: &SolidMotorSpec,
    math: &M,
    nozzle: &FrozenNozzle,
    time_s: F64,
    burned: Seq<F64>,
    web_m: F64,
)
    requires
        spec.fault() is None,
        powers_hold(spec, math),
        nozzle.thermo == spec.propellant.thermo(),
        !(spec.burn_area(spec.cores(), burned, spec.cores().len()) <= zero()),
        spec.station(math, nozzle, time_s, burned, web_m) is Ok,
    ensures
        lit(spec.station(math, nozzle, time_s, burned, web_m)->Ok_0),
        spec.station(math, nozzle, time_s, burned, web_m)->Ok_0.web_burned_m == web_m,
{
    let area = spec.burn_area(spec.cores(), burned, spec.cores().len());
    let point = spec.station(math, nozzle, time_s, burned, web_m)->Ok_0;
    let density = nozzle.thermo.bulk_density_kg_m3;
    let rate = spec.burn_rate_mps(math, point.chamber_pa);
    lemma_one();
    lemma_parts(point.chamber_pa);
    lemma_surface(spec, math, nozzle, area);
    lemma_rate(spec, math, point.chamber_pa);
    lemma_whole(1770);
    lemma_whole(1);
    lemma_pow2_pos(1074);
    lemma_parts(whole(1770));
    assert(density == whole(1770));
    lemma_at_least_itself(area, density);
    lemma_mul_not_negative_or_nan(density * area, rate);
    lemma_parts(point.mass_flow_kg_s);
}

/// The pressure of a surface that is no number is none.
proof fn lemma_surface<M: Numerics>(spec: &SolidMotorSpec, math: &M, nozzle: &FrozenNozzle, area: F64)
    requires
        powers_hold(spec, math),
        spec.pressure(math, nozzle, area) is Ok,
    ensures
        !area.is_nan(),
{
    let base = area * spec.burn_rate_coeff * nozzle.thermo.bulk_density_kg_m3 * nozzle.c_star_mps / nozzle.throat_area_m2;
    lemma_parts(spec.equilibrium_pa(math, nozzle, area));
    lemma_numbers(area * spec.burn_rate_coeff * nozzle.thermo.bulk_density_kg_m3 * nozzle.c_star_mps, nozzle.throat_area_m2);
    lemma_numbers(area * spec.burn_rate_coeff * nozzle.thermo.bulk_density_kg_m3, nozzle.c_star_mps);
    lemma_numbers(area * spec.burn_rate_coeff, nozzle.thermo.bulk_density_kg_m3);
    lemma_numbers(area, spec.burn_rate_coeff);
    assert(spec.equilibrium_pa(math, nozzle, area) == powf(
        math,
        base,
        whole(1) / (whole(1) - spec.burn_rate_exponent),
    ));
}

/// The burn rate at a pressure is not negative.
proof fn lemma_rate<M: Numerics>(spec: &SolidMotorSpec, math: &M, chamber_pa: F64)
    requires
        spec.fault() is None,
        powers_hold(spec, math),
        chamber_pa > zero(),
    ensures
        zero() <= spec.burn_rate_mps(math, chamber_pa),
{
    let power = powf(math, chamber_pa, spec.burn_rate_exponent);
    lemma_one();
    lemma_positive_product(spec.burn_rate_coeff, power);
    lemma_mul_not_negative(spec.burn_rate_coeff, power);
}

/// Greater depths have no lesser greatest one.
proof fn lemma_greatest(low: Seq<F64>, high: Seq<F64>)
    requires
        low.len() == high.len(),
        depths(low),
        depths(high),
        forall|i: int| #![trigger low[i]] 0 <= i < low.len() ==> low[i] <= high[i],
    ensures
        zero() <= greatest(low),
        greatest(low) <= greatest(high),
    decreases low.len(),
{
    lemma_one();
    if low.len() > 0 {
        assert(low.drop_last().len() == high.drop_last().len());
        assert forall|i: int| #![trigger low.drop_last()[i]] 0 <= i < low.drop_last().len() implies low.drop_last()[i]
            <= high.drop_last()[i] by {
            assert(low[i] <= high[i]);
        }
        assert forall|i: int| #![trigger low.drop_last()[i]] 0 <= i < low.drop_last().len() implies zero()
            <= low.drop_last()[i] by {
            assert(zero() <= low[i]);
        }
        assert forall|i: int| #![trigger high.drop_last()[i]] 0 <= i < high.drop_last().len() implies zero()
            <= high.drop_last()[i] by {
            assert(zero() <= high[i]);
        }
        lemma_greatest(low.drop_last(), high.drop_last());
        assert(low[low.len() - 1] <= high[low.len() - 1]);
    }
}

/// A step burns no segment back.
proof fn lemma_deeper(spec: &SolidMotorSpec, burned: Seq<F64>, step_m: F64)
    requires
        spec.fault() is None,
        burned.len() == spec.cores().len(),
        depths(burned),
        zero() <= step_m,
    ensures
        ({
            let after = advanced(burned, webs_of(spec.outer_radius_m, spec.cores()), step_m);
            &&& after.len() == burned.len()
            &&& depths(after)
            &&& zero() <= greatest(burned)
            &&& greatest(burned) <= greatest(after)
        }),
{
    let webs = webs_of(spec.outer_radius_m, spec.cores());
    let after = advanced(burned, webs, step_m);
    lemma_one();
    lemma_webs(spec);
    assert forall|i: int| #![trigger burned[i]] 0 <= i < burned.len() implies burned[i] <= after[i] by {
        assert(!webs[i].is_nan());
        lemma_add_not_negative(burned[i], step_m);
    }
    assert forall|i: int| #![trigger after[i]] 0 <= i < after.len() implies zero() <= after[i] by {
        assert(burned[i] <= after[i]);
    }
    lemma_greatest(burned, after);
}

/// A burn that goes on stays lit, and its web never shrinks.
proof fn lemma_burn_lit<M: Numerics>(spec: &SolidMotorSpec, math: &M, nozzle: &FrozenNozzle, dt_s: F64, burn: Burn)
    requires
        spec.fault() is None,
        powers_hold(spec, math),
        nozzle.thermo == spec.propellant.thermo(),
        zero() < dt_s,
        dt_s.is_finite(),
        burn.burned.len() == spec.cores().len(),
        depths(burn.burned),
        1 <= burn.stations.len() <= MAX_BURN_STATIONS,
        burns_through(burn.stations),
        burn.stations.last().web_burned_m <= greatest(burn.burned),
        !(spec.burn_area(spec.cores(), burn.burned, spec.cores().len()) <= zero()) ==> lit(burn.stations.last()),
    ensures
        match spec.burn_on(math, nozzle, dt_s, burn) {
            Ok(whole) => burns_through(whole.stations),
            Err(_) => true,
        },
    decreases MAX_BURN_STATIONS + 1 - burn.stations.len(),
{
    let cores = spec.cores();
    let webs = webs_of(spec.outer_radius_m, cores);
    let area_m2 = spec.burn_area(cores, burn.burned, cores.len());
    if !(area_m2 <= zero()) && spec.pressure(math, nozzle, area_m2) is Ok {
        let chamber_pa = spec.pressure(math, nozzle, area_m2)->Ok_0;
        let step_m = spec.burn_rate_mps(math, chamber_pa) * dt_s;
        let burned = advanced(burn.burned, webs, step_m);
        let time_s = burn.time_s + dt_s;
        let left_m2 = spec.burn_area(cores, burned, cores.len());
        let web_m = greatest(burned);
        let station = if left_m2 <= zero() {
            Ok(burned_through_station(time_s, web_m))
        } else {
            spec.station(math, nozzle, time_s, burned, web_m)
        };
        lemma_one();
        lemma_parts(chamber_pa);
        lemma_rate(spec, math, chamber_pa);
        lemma_scaled_order(dt_s, spec.burn_rate_mps(math, chamber_pa), spec.burn_rate_mps(math, chamber_pa));
        lemma_mul_commutes(dt_s, spec.burn_rate_mps(math, chamber_pa));
        lemma_deeper(spec, burn.burned, step_m);
        if station is Ok {
            let point = station->Ok_0;
            if !(left_m2 <= zero()) {
                lemma_lit(spec, math, nozzle, time_s, burned, web_m);
            }
            let next = Burn {
                burned,
                time_s,
                stations: burn.stations.push(point),
                peak_pressure_pa: burn.peak_pressure_pa.max(point.chamber_pa),
                peak_thrust_n: burn.peak_thrust_n.max(point.thrust_sl_n),
            };
            assert(burns_through(next.stations)) by {
                assert forall|i: int| #![trigger next.stations[i]] 0 <= i < next.stations.len() - 1 implies lit(
                    next.stations[i],
                ) by {
                    assert(next.stations[i] == burn.stations[i]);
                }
                assert forall|i: int| #![trigger next.stations[i]] 0 < i < next.stations.len() implies next.stations[i
                    - 1].web_burned_m <= next.stations[i].web_burned_m by {
                    assert(next.stations[i - 1] == burn.stations[i - 1]);
                    if i < burn.stations.len() {
                        assert(next.stations[i] == burn.stations[i]);
                    }
                }
            }
            if !burned_through(burned, webs) && next.stations.len() <= MAX_BURN_STATIONS {
                lemma_burn_lit(spec, math, nozzle, dt_s, next);
            }
        }
    }
}

/// A compiled motor burns at every station before its last: pressure is above zero, flow
/// too wherever it keeps full precision or the motor passes its checks, and the web never
/// shrinks. The host's powers must be what powers are.
pub proof fn lemma_trace_burns<M: Numerics>(spec: &SolidMotorSpec, math: &M, motor: CompiledSolid)
    requires
        spec.compiles_to(math, Ok::<CompiledSolid, Fault>(motor)),
        powers_hold(spec, math),
    ensures
        burns_through(motor.burn_curve@),
        motor.fault() is None ==> forall|i: int|
            #![trigger motor.burn_curve@[i]]
            0 <= i < motor.burn_curve@.len() - 1 ==> motor.burn_curve@[i].mass_flow_kg_s > zero(),
{
    lemma_one();
    let exit = exit_for(math, &spec.propellant.thermo(), spec.expansion_ratio)->Ok_0;
    let nozzle = spec.frozen_nozzle(math, &spec.propellant.thermo(), &exit);
    let dt_s = spec.time_step(math, &nozzle)->Ok_0;
    let point = spec.station(math, &nozzle, zero(), spec.unburned(), zero())->Ok_0;
    lemma_parts(dt_s);
    lemma_parts(zero());
    let start = Burn {
        burned: spec.unburned(),
        time_s: zero(),
        stations: seq![point],
        peak_pressure_pa: zero(),
        peak_thrust_n: zero(),
    };
    assert(depths(start.burned)) by {
        assert forall|i: int| #![trigger start.burned[i]] 0 <= i < start.burned.len() implies zero() <= start.burned[i] by {
            assert(start.burned[i] == zero());
        }
    }
    assert forall|i: int| #![trigger start.burned[i]] 0 <= i < start.burned.len() implies start.burned[i]
        <= start.burned[i] by {
        assert(zero() <= start.burned[i]);
    }
    lemma_greatest(start.burned, start.burned);
    if !(spec.burn_area(spec.cores(), spec.unburned(), spec.cores().len()) <= zero()) {
        lemma_lit(spec, math, &nozzle, zero(), spec.unburned(), zero());
    }
    lemma_burn_lit(spec, math, &nozzle, dt_s, start);
    if motor.fault() is None {
        lemma_stations(motor.burn_curve@, 0);
    }
}

/// From each station to the next, a web recedes by the burn rate at the station's pressure
/// times the step, but no further than the case, and the clock runs on by the step.
pub open spec fn recedes<M: Numerics>(spec: &SolidMotorSpec, math: &M, dt_s: F64, stations: Seq<BurnPoint>) -> bool {
    forall|i: int|
        #![trigger stations[i]]
        0 < i < stations.len() ==> {
            let before = stations[i - 1];
            &&& stations[i].time_s == before.time_s + dt_s
            &&& stations[i].web_burned_m.same(
                (before.web_burned_m + spec.burn_rate_mps(math, before.chamber_pa) * dt_s).min(
                    spec.outer_radius_m - spec.core_radius_m,
                ),
            )
        }
}

/// One depth throughout.
pub open spec fn level(burned: Seq<F64>, depth: F64) -> bool {
    forall|i: int| #![trigger burned[i]] 0 <= i < burned.len() ==> burned[i] == depth
}

/// The greatest of equal depths is that depth.
proof fn lemma_level(burned: Seq<F64>, depth: F64)
    requires
        level(burned, depth),
        burned.len() > 0,
        zero() <= depth,
    ensures
        greatest(burned).same(depth),
        zero() <= greatest(burned),
    decreases burned.len(),
{
    lemma_one();
    assert(burned[burned.len() - 1] == depth);
    if burned.len() > 1 {
        assert forall|i: int| #![trigger burned.drop_last()[i]] 0 <= i < burned.drop_last().len() implies burned.drop_last()[i]
            == depth by {
            assert(burned[i] == depth);
        }
        lemma_level(burned.drop_last(), depth);
    } else {
        assert(greatest(burned.drop_last()) == zero());
    }
    lemma_parts(greatest(burned.drop_last()));
    lemma_parts(depth);
}

/// Equal depths stay equal by a step.
proof fn lemma_level_step(depth: F64, shown: F64, step_m: F64, web_m: F64)
    requires
        zero() <= depth,
        shown.same(depth),
        zero() <= shown,
        zero() <= step_m,
        !web_m.is_nan(),
    ensures
        ((depth + step_m).min(web_m)).same((shown + step_m).min(web_m)),
        !(depth + step_m).is_nan(),
{
    lemma_one();
    lemma_parts(depth);
    lemma_parts(shown);
    lemma_parts(web_m);
    lemma_add_not_negative(depth, step_m);
    lemma_add_not_negative(shown, step_m);
    lemma_parts(depth + step_m);
    lemma_parts(shown + step_m);
    lemma_add_order(depth, shown, step_m);
    lemma_add_order(shown, depth, step_m);
}

/// A burn of a uniform grain that goes on recedes.
proof fn lemma_burn_recedes<M: Numerics>(
    spec: &SolidMotorSpec,
    math: &M,
    nozzle: &FrozenNozzle,
    dt_s: F64,
    burn: Burn,
    depth: F64,
)
    requires
        spec.fault() is None,
        spec.segment_core_radii_m is None,
        powers_hold(spec, math),
        zero() < dt_s,
        dt_s.is_finite(),
        burn.burned.len() == spec.cores().len(),
        burn.burned.len() > 0,
        level(burn.burned, depth),
        zero() <= depth,
        1 <= burn.stations.len() <= MAX_BURN_STATIONS,
        recedes(spec, math, dt_s, burn.stations),
        burn.stations.last().web_burned_m.same(depth),
        zero() <= burn.stations.last().web_burned_m,
        burn.stations.last().time_s == burn.time_s,
        !(spec.burn_area(spec.cores(), burn.burned, spec.cores().len()) <= zero()) ==> spec.pressure(
            math,
            nozzle,
            spec.burn_area(spec.cores(), burn.burned, spec.cores().len()),
        ) == Ok::<F64, Fault>(burn.stations.last().chamber_pa),
    ensures
        match spec.burn_on(math, nozzle, dt_s, burn) {
            Ok(whole) => recedes(spec, math, dt_s, whole.stations),
            Err(_) => true,
        },
    decreases MAX_BURN_STATIONS + 1 - burn.stations.len(),
{
    let cores = spec.cores();
    let webs = webs_of(spec.outer_radius_m, cores);
    let web = spec.outer_radius_m - spec.core_radius_m;
    let area_m2 = spec.burn_area(cores, burn.burned, cores.len());
    if !(area_m2 <= zero()) && spec.pressure(math, nozzle, area_m2) is Ok {
        let chamber_pa = spec.pressure(math, nozzle, area_m2)->Ok_0;
        let rate = spec.burn_rate_mps(math, chamber_pa);
        let step_m = rate * dt_s;
        let burned = advanced(burn.burned, webs, step_m);
        let time_s = burn.time_s + dt_s;
        let left_m2 = spec.burn_area(cores, burned, cores.len());
        let web_m = greatest(burned);
        let station = if left_m2 <= zero() {
            Ok(burned_through_station(time_s, web_m))
        } else {
            spec.station(math, nozzle, time_s, burned, web_m)
        };
        lemma_one();
        lemma_parts(chamber_pa);
        lemma_rate(spec, math, chamber_pa);
        lemma_scaled_order(dt_s, rate, rate);
        lemma_mul_commutes(dt_s, rate);
        lemma_webs(spec);
        assert(cores[0] == spec.core_radius_m);
        assert(webs[0] == web);
        assert(!web.is_nan());
        lemma_parts(web);
        lemma_parts(depth);
        // The grain is not yet burnt through.
        if !(depth < web) {
            assert forall|i: int| 0 <= i < burn.burned.len() implies !(#[trigger] burn.burned[i] < webs[i]) by {
                assert(burn.burned[i] == depth);
                assert(cores[i] == spec.core_radius_m);
            }
            assert(burned_through(burn.burned, webs));
            lemma_nothing_left(spec, burn.burned, cores.len());
            lemma_parts(zero());
            assert(false);
        }
        let next_depth = (depth + step_m).min(web);
        assert(level(burned, next_depth)) by {
            assert forall|i: int| #![trigger burned[i]] 0 <= i < burned.len() implies burned[i] == next_depth by {
                assert(burn.burned[i] == depth);
                assert(cores[i] == spec.core_radius_m);
                assert(webs[i] == web);
            }
        }
        let shown = burn.stations.last().web_burned_m;
        lemma_level_step(depth, shown, step_m, web);
        lemma_add_not_negative(depth, step_m);
        lemma_parts(depth + step_m);
        assert(zero() <= next_depth);
        lemma_level(burned, next_depth);
        if station is Ok {
            let point = station->Ok_0;
            let next = Burn {
                burned,
                time_s,
                stations: burn.stations.push(point),
                peak_pressure_pa: burn.peak_pressure_pa.max(point.chamber_pa),
                peak_thrust_n: burn.peak_thrust_n.max(point.thrust_sl_n),
            };
            assert(point.web_burned_m == web_m && point.time_s == time_s);
            assert(recedes(spec, math, dt_s, next.stations)) by {
                assert forall|i: int| #![trigger next.stations[i]] 0 < i < next.stations.len() implies {
                    let before = next.stations[i - 1];
                    &&& next.stations[i].time_s == before.time_s + dt_s
                    &&& next.stations[i].web_burned_m.same(
                        (before.web_burned_m + spec.burn_rate_mps(math, before.chamber_pa) * dt_s).min(web),
                    )
                } by {
                    assert(next.stations[i - 1] == burn.stations[i - 1]);
                    if i < burn.stations.len() {
                        assert(next.stations[i] == burn.stations[i]);
                    } else {
                        assert(next.stations[i] == point);
                        assert(burn.stations[i - 1] == burn.stations.last());
                    }
                }
            }
            assert(next.stations.last() == point);
            if !burned_through(burned, webs) && next.stations.len() <= MAX_BURN_STATIONS {
                lemma_burn_recedes(spec, math, nozzle, dt_s, next, next_depth);
            }
        }
    }
}

/// The trace of a motor with one port throughout follows its burn rate: from each station to
/// the next the web recedes by the burn rate at the station's own pressure, over one and the
/// same step of time, until it reaches the case. The host's powers must be what powers are.
pub proof fn lemma_trace_recedes<M: Numerics>(spec: &SolidMotorSpec, math: &M, motor: CompiledSolid)
    requires
        spec.compiles_to(math, Ok::<CompiledSolid, Fault>(motor)),
        spec.segment_core_radii_m is None,
        powers_hold(spec, math),
    ensures
        exists|dt_s: F64| zero() < dt_s && #[trigger] recedes(spec, math, dt_s, motor.burn_curve@),
{
    lemma_one();
    let exit = exit_for(math, &spec.propellant.thermo(), spec.expansion_ratio)->Ok_0;
    let nozzle = spec.frozen_nozzle(math, &spec.propellant.thermo(), &exit);
    let dt_s = spec.time_step(math, &nozzle)->Ok_0;
    let point = spec.station(math, &nozzle, zero(), spec.unburned(), zero())->Ok_0;
    lemma_parts(dt_s);
    lemma_parts(zero());
    let start = Burn {
        burned: spec.unburned(),
        time_s: zero(),
        stations: seq![point],
        peak_pressure_pa: zero(),
        peak_thrust_n: zero(),
    };
    assert(level(start.burned, zero()));
    assert(start.stations.last() == point);
    lemma_burn_recedes(spec, math, &nozzle, dt_s, start, zero());
    assert(recedes(spec, math, dt_s, motor.burn_curve@));
}

/// Without port radii of its own, a grain has the same port in every segment: a motor
/// compiles to what it compiles to with that many equal radii, or is refused alike.
pub proof fn lemma_uniform_port<M: Numerics>(
    uniform: &SolidMotorSpec,
    listed: &SolidMotorSpec,
    math: &M,
    result: Result<CompiledSolid, Fault>,
)
    requires
        uniform.segment_core_radii_m is None,
        *listed == (SolidMotorSpec { segment_core_radii_m: listed.segment_core_radii_m, ..*uniform }),
        listed.segment_core_radii_m is Some,
        listed.segment_core_radii_m->0@ == Seq::new(uniform.segments as nat, |i: int| uniform.core_radius_m),
    ensures
        uniform.compiles_to(math, result) == listed.compiles_to(math, result),
{
    let radii = listed.segment_core_radii_m->0@;
    assert(uniform.cores() == listed.cores());
    lemma_equal_radii(listed, radii, 0);
    assert(uniform.fault() == listed.fault());
    if uniform.fault() is None {
        let thermo = uniform.propellant.thermo();
        if exit_for(math, &thermo, uniform.expansion_ratio) is Ok {
            let exit = exit_for(math, &thermo, uniform.expansion_ratio)->Ok_0;
            let nozzle = uniform.frozen_nozzle(math, &thermo, &exit);
            assert(nozzle == listed.frozen_nozzle(math, &thermo, &exit));
            let cores = uniform.cores();
            lemma_same_area(uniform, listed, uniform.unburned(), cores.len());
            assert(uniform.time_step(math, &nozzle) == listed.time_step(math, &nozzle));
            let start = uniform.station(math, &nozzle, zero(), uniform.unburned(), zero());
            assert(start == listed.station(math, &nozzle, zero(), uniform.unburned(), zero()));
            if uniform.time_step(math, &nozzle) is Ok && start is Ok {
                lemma_same_burn(
                    uniform,
                    listed,
                    math,
                    &nozzle,
                    uniform.time_step(math, &nozzle)->Ok_0,
                    Burn {
                        burned: uniform.unburned(),
                        time_s: zero(),
                        stations: seq![start->Ok_0],
                        peak_pressure_pa: zero(),
                        peak_thrust_n: zero(),
                    },
                );
            }
            assert(uniform.burn(math, &nozzle) == listed.burn(math, &nozzle));
        }
    }
}

/// Radii equal to a sound port are sound.
proof fn lemma_equal_radii(spec: &SolidMotorSpec, radii: Seq<F64>, i: int)
    requires
        0 <= i,
        forall|k: int| #![trigger radii[k]] 0 <= k < radii.len() ==> radii[k] == spec.core_radius_m,
    ensures
        spec.core_radius_m > zero() && spec.core_radius_m < spec.outer_radius_m ==> spec.radii_fault(radii, i) is None,
    decreases radii.len() - i,
{
    if i < radii.len() {
        assert(radii[i] == spec.core_radius_m);
        lemma_equal_radii(spec, radii, i + 1);
    }
}

/// Specs that differ in their lists of radii alone have the same burning surface.
proof fn lemma_same_area(one: &SolidMotorSpec, other: &SolidMotorSpec, burned: Seq<F64>, n: nat)
    requires
        *other == (SolidMotorSpec { segment_core_radii_m: other.segment_core_radii_m, ..*one }),
        one.cores() == other.cores(),
    ensures
        one.burn_area(one.cores(), burned, n) == other.burn_area(one.cores(), burned, n),
    decreases n,
{
    if n > 0 {
        lemma_same_area(one, other, burned, (n - 1) as nat);
    }
}

/// And the same burn.
proof fn lemma_same_burn<M: Numerics>(
    one: &SolidMotorSpec,
    other: &SolidMotorSpec,
    math: &M,
    nozzle: &FrozenNozzle,
    dt_s: F64,
    burn: Burn,
)
    requires
        *other == (SolidMotorSpec { segment_core_radii_m: other.segment_core_radii_m, ..*one }),
        one.cores() == other.cores(),
        burn.stations.len() <= MAX_BURN_STATIONS,
    ensures
        one.burn_on(math, nozzle, dt_s, burn) == other.burn_on(math, nozzle, dt_s, burn),
    decreases MAX_BURN_STATIONS + 1 - burn.stations.len(),
{
    let cores = one.cores();
    let webs = webs_of(one.outer_radius_m, cores);
    lemma_same_area(one, other, burn.burned, cores.len());
    let area_m2 = one.burn_area(cores, burn.burned, cores.len());
    if !(area_m2 <= zero()) && one.pressure(math, nozzle, area_m2) is Ok {
        let chamber_pa = one.pressure(math, nozzle, area_m2)->Ok_0;
        let burned = advanced(burn.burned, webs, one.burn_rate_mps(math, chamber_pa) * dt_s);
        let time_s = burn.time_s + dt_s;
        lemma_same_area(one, other, burned, cores.len());
        let left_m2 = one.burn_area(cores, burned, cores.len());
        let station = if left_m2 <= zero() {
            Ok(burned_through_station(time_s, greatest(burned)))
        } else {
            one.station(math, nozzle, time_s, burned, greatest(burned))
        };
        if station is Ok {
            let point = station->Ok_0;
            let next = Burn {
                burned,
                time_s,
                stations: burn.stations.push(point),
                peak_pressure_pa: burn.peak_pressure_pa.max(point.chamber_pa),
                peak_thrust_n: burn.peak_thrust_n.max(point.thrust_sl_n),
            };
            if !burned_through(burned, webs) && next.stations.len() <= MAX_BURN_STATIONS {
                lemma_same_burn(one, other, math, nozzle, dt_s, next);
            }
        }
    }
}

} // verus!
