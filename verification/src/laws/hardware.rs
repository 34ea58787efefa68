//! Casings, shrouds and arcs: what holds the pressure and what drives the plasma.
use crate::constants::{
    mass_fit_feed_kg_per_n, mass_fit_gimbal_base_kg, mass_fit_gimbal_kg_per_n, mass_fit_mount_kg_per_n,
    mass_fit_solid_igniter_kg, pressure_safety_factor,
};
use crate::electric::{
    vacuum_permeability_h_m, CompiledElectricThruster, ElectricThrusterCommand, ElectricThrusterPoint,
};
use crate::error::Fault;
use crate::estoc::EstocEjectorSpec;
use crate::float::accuracy::{
    about, amount, lemma_about_more, lemma_times_positive, lemma_zero_value, normal, over, times, value,
};
use crate::float::{dec, lemma_one, pi, whole, zero, F64};
use crate::float::decimals::lemma_decimal_between;
use crate::float::nearness::lemma_parts;
use crate::float::tracking::{
    lemma_about_itself, lemma_about_over, lemma_about_plus, lemma_about_root, lemma_about_times, lemma_whole_value,
};
use crate::laws::sizing::{lemma_constants, lemma_own, lemma_term, lemma_terms};
use crate::laws::stream::squares;
use crate::numerics::{ln, powi, Numerics};
use crate::solid::{CompiledSolid, SolidMotorSpec};
use vstd::arithmetic::power::pow;
use vstd::prelude::*;

verus! {

/// A casing's wall, no term of which is lost to underflow or overflow.
pub open spec fn hoop_kept(pressure: F64, radius: F64, yielding: F64) -> bool {
    let across = pressure * whole(2) * radius;
    &&& normal(pressure) && normal(radius) && normal(yielding)
    &&& normal(pressure * whole(2)) && normal(across) && normal(whole(2) * yielding)
    &&& normal(across / (whole(2) * yielding)) && normal(across / (whole(2) * yielding) * pressure_safety_factor())
}

/// The wall that carries a pressure across a bore at its yield strength, with the margin.
pub open spec fn hoop(pressure: real, radius: real, yielding: real) -> real {
    times(
        over(times(times(pressure, 2 as real), radius), times(2 as real, yielding)),
        value(pressure_safety_factor()),
    )
}

/// The wall of a casing.
proof fn lemma_hoop(pressure: F64, radius: F64, yielding: F64)
    requires
        hoop_kept(pressure, radius, yielding),
    ensures
        about(
            value(pressure * whole(2) * radius / (whole(2) * yielding) * pressure_safety_factor()),
            hoop(value(pressure), value(radius), value(yielding)),
            5,
        ),
{
    let across = pressure * whole(2) * radius;
    let two = 2 as real;
    lemma_constants();
    lemma_whole_value(2);
    lemma_own(whole(2));
    lemma_own(pressure);
    lemma_own(radius);
    lemma_own(yielding);
    lemma_own(across);
    lemma_own(across / (whole(2) * yielding));
    lemma_small_constants();
    lemma_about_itself(pressure_safety_factor());
    lemma_term(pressure, whole(2), value(pressure), two, 0, 0);
    lemma_term(pressure * whole(2), radius, times(value(pressure), two), value(radius), 1, 0);
    lemma_term(whole(2), yielding, two, value(yielding), 0, 0);
    lemma_times_positive(two, value(yielding));
    let (x, y) = (times(times(value(pressure), two), value(radius)), times(two, value(yielding)));
    lemma_about_over(across, whole(2) * yielding, x, y, 2, 1);
    lemma_about_times(
        across / (whole(2) * yielding),
        pressure_safety_factor(),
        over(x, y),
        value(pressure_safety_factor()),
        4,
        0,
    );
}

/// The small constants are amounts.
proof fn lemma_small_constants()
    ensures
        amount(pressure_safety_factor()),
        amount(dec(13, 1)),
        amount(dec(6, 1)),
        amount(dec(85, 2)),
        amount(mass_fit_gimbal_kg_per_n()),
        amount(mass_fit_mount_kg_per_n()),
        amount(mass_fit_feed_kg_per_n()),
        amount(mass_fit_gimbal_base_kg()),
        amount(mass_fit_solid_igniter_kg()),
{
    reveal_with_fuel(pow, 16);
    lemma_decimal_between(15, 1, 0, 2);
    lemma_decimal_between(13, 1, 0, 2);
    lemma_decimal_between(6, 1, 0, 1);
    lemma_decimal_between(85, 2, 0, 1);
    lemma_decimal_between(2, 5, 0, 1);
    lemma_decimal_between(8, 5, 0, 1);
    lemma_decimal_between(3, 5, 0, 1);
    lemma_whole_value(4);
    lemma_whole_value(2);
}

/// A casing, no term of which is lost to underflow or overflow.
pub open spec fn casing_kept(wall_m: F64, radius_m: F64, length_m: F64, density: F64) -> bool {
    let round = whole(2) * pi() * radius_m;
    &&& normal(wall_m) && normal(radius_m) && normal(length_m) && normal(density)
    &&& normal(whole(2) * pi()) && normal(round) && normal(round * length_m) && normal(round * length_m * wall_m)
    &&& normal(round * length_m * wall_m * density) && normal(round * length_m * wall_m * density * dec(13, 1))
}

/// The mass of a cylinder of a wall, and three tenths of it for the caps.
pub open spec fn casing(wall: real, radius: real, length: real, density: real) -> real {
    times(
        times(times(times(times(times(2 as real, value(pi())), radius), length), wall), density),
        value(dec(13, 1)),
    )
}

/// The mass of a casing.
proof fn lemma_casing(wall_m: F64, radius_m: F64, length_m: F64, density: F64, wall: real)
    requires
        casing_kept(wall_m, radius_m, length_m, density),
        about(value(wall_m), wall, 5),
    ensures
        about(
            value(whole(2) * pi() * radius_m * length_m * wall_m * density * dec(13, 1)),
            casing(wall, value(radius_m), value(length_m), value(density)),
            11,
        ),
{
    let (two, p) = (2 as real, value(pi()));
    let round = whole(2) * pi() * radius_m;
    lemma_constants();
    lemma_small_constants();
    lemma_whole_value(2);
    lemma_own(whole(2));
    lemma_own(pi());
    lemma_own(radius_m);
    lemma_own(length_m);
    lemma_own(density);
    lemma_term(whole(2), pi(), two, p, 0, 0);
    lemma_term(whole(2) * pi(), radius_m, times(two, p), value(radius_m), 1, 0);
    let a = times(times(two, p), value(radius_m));
    lemma_term(round, length_m, a, value(length_m), 2, 0);
    let b = times(a, value(length_m));
    lemma_term(round * length_m, wall_m, b, wall, 3, 5);
    lemma_term(round * length_m * wall_m, density, times(b, wall), value(density), 9, 0);
    let c = times(times(b, wall), value(density));
    lemma_own(round * length_m * wall_m * density);
    lemma_about_itself(dec(13, 1));
    lemma_about_times(round * length_m * wall_m * density, dec(13, 1), c, value(dec(13, 1)), 10, 0);
}

/// A cone, no term of which is lost to underflow or overflow.
pub open spec fn cone_kept(throat_m: F64, exit_m: F64, length_m: F64, square: F64, wall_m: F64, density: F64) -> bool {
    let slant = (length_m * length_m + square).sqrt();
    let round = pi() * (throat_m + exit_m);
    &&& normal(throat_m) && normal(exit_m) && normal(length_m) && amount(square) && normal(wall_m) && normal(density)
    &&& normal(length_m * length_m) && normal(length_m * length_m + square) && normal(slant)
    &&& normal(throat_m + exit_m) && normal(round) && normal(round * slant) && normal(round * slant * wall_m)
    &&& normal(round * slant * wall_m * dec(6, 1)) && normal(round * slant * wall_m * dec(6, 1) * density)
}

/// The mass of a cone of six tenths of a wall.
pub open spec fn cone(throat: real, exit: real, slant: real, wall: real, density: real) -> real {
    times(times(times(times(times(value(pi()), throat + exit), slant), wall), value(dec(6, 1))), density)
}

/// The mass of a cone, whose slant spans its length and the step between its radii.
proof fn lemma_cone(throat_m: F64, exit_m: F64, length_m: F64, square: F64, wall_m: F64, density: F64, wall: real)
    requires
        cone_kept(throat_m, exit_m, length_m, square, wall_m, density),
        about(value(wall_m), wall, 5),
    ensures
        ({
            let slant = value((length_m * length_m + square).sqrt());
            &&& about(
                value(
                    pi() * (throat_m + exit_m) * (length_m * length_m + square).sqrt() * wall_m * dec(6, 1) * density,
                ),
                cone(value(throat_m), value(exit_m), slant, wall, value(density)),
                11,
            )
            &&& about(times(slant, slant), times(value(length_m), value(length_m)) + value(square), 4)
        }),
{
    let slant = (length_m * length_m + square).sqrt();
    let round = pi() * (throat_m + exit_m);
    let p = value(pi());
    lemma_constants();
    lemma_small_constants();
    lemma_own(pi());
    lemma_own(throat_m);
    lemma_own(exit_m);
    lemma_own(length_m);
    lemma_own(slant);
    lemma_own(density);
    lemma_own(length_m * length_m);
    lemma_own(length_m * length_m + square);
    lemma_about_itself(square);
    lemma_term(length_m, length_m, value(length_m), value(length_m), 0, 0);
    let long = times(value(length_m), value(length_m));
    lemma_about_plus(length_m * length_m, square, long, value(square), 1, 0);
    lemma_about_root(length_m * length_m + square, long + value(square), 2);
    let both = value(throat_m) + value(exit_m);
    lemma_terms(throat_m, exit_m, value(throat_m), value(exit_m), 0, 0);
    lemma_term(pi(), throat_m + exit_m, p, both, 0, 1);
    lemma_term(round, slant, times(p, both), value(slant), 2, 0);
    let a = times(times(p, both), value(slant));
    lemma_term(round * slant, wall_m, a, wall, 3, 5);
    lemma_own(round * slant * wall_m);
    lemma_about_itself(dec(6, 1));
    lemma_about_times(round * slant * wall_m, dec(6, 1), times(a, wall), value(dec(6, 1)), 9, 0);
    lemma_term(round * slant * wall_m * dec(6, 1), density, times(times(a, wall), value(dec(6, 1))), value(density), 10, 0);
}

/// A motor's hardware, no term of which is lost to underflow or overflow.
pub open spec fn motor_kept<M: Numerics>(spec: &SolidMotorSpec, math: &M, motor: CompiledSolid) -> bool {
    let (outer, yielding, density) = (
        spec.outer_radius_m,
        spec.casing_material.yield_strength_pa,
        spec.casing_material.density_kg_m3,
    );
    let wall_m = motor.peak_pressure_pa * whole(2) * outer / (whole(2) * yielding) * pressure_safety_factor();
    let square = powi(math, motor.exit_radius_m - spec.throat_radius_m, 2);
    let slant = (spec.nozzle_length_m * spec.nozzle_length_m + square).sqrt();
    let case_kg = whole(2) * pi() * outer * motor.grain_length_m * wall_m * density * dec(13, 1);
    let cone_kg = pi() * (spec.throat_radius_m + motor.exit_radius_m) * slant * wall_m * dec(6, 1) * density;
    let bell_kg = cone_kg * dec(85, 2);
    let nozzle_kg = if spec.contour is Bell {
        bell_kg
    } else {
        cone_kg
    };
    let peak = motor.peak_thrust_sl_n;
    let gimbal_kg = if spec.gimbal_range_rad > zero() {
        mass_fit_gimbal_base_kg() + mass_fit_gimbal_kg_per_n() * peak
    } else {
        zero()
    };
    let (mount_kg, feed_kg) = (mass_fit_mount_kg_per_n() * peak, mass_fit_feed_kg_per_n() * peak);
    &&& hoop_kept(motor.peak_pressure_pa, outer, yielding) && casing_kept(wall_m, outer, motor.grain_length_m, density)
    &&& cone_kept(spec.throat_radius_m, motor.exit_radius_m, spec.nozzle_length_m, square, wall_m, density)
    &&& normal(bell_kg) && normal(peak) && normal(mount_kg) && normal(feed_kg)
    &&& normal(mass_fit_gimbal_kg_per_n() * peak) && normal(mass_fit_gimbal_base_kg() + mass_fit_gimbal_kg_per_n() * peak)
    &&& normal(case_kg + nozzle_kg) && normal(case_kg + nozzle_kg + gimbal_kg)
    &&& normal(case_kg + nozzle_kg + gimbal_kg + mass_fit_solid_igniter_kg())
    &&& normal(case_kg + nozzle_kg + gimbal_kg + mass_fit_solid_igniter_kg() + mount_kg)
    &&& normal(case_kg + nozzle_kg + gimbal_kg + mass_fit_solid_igniter_kg() + mount_kg + feed_kg)
}

/// `slant` spans a motor's nozzle: its square is that of the length and that of the step
/// between throat and exit, to within four roundings.
pub open spec fn spans<M: Numerics>(spec: &SolidMotorSpec, math: &M, motor: CompiledSolid, slant: real) -> bool {
    about(
        times(slant, slant),
        times(value(spec.nozzle_length_m), value(spec.nozzle_length_m)) + value(
            powi(math, motor.exit_radius_m - spec.throat_radius_m, 2),
        ),
        4,
    )
}

/// A motor weighs what its casing, nozzle, gimbal, igniter, mount and feed do, to within
/// seventeen roundings. The casing's wall holds the peak pressure, a bell weighs less than
/// a cone, and the gimbal, the mount and the feed grow with the peak thrust.
pub proof fn lemma_motor_mass<M: Numerics>(spec: &SolidMotorSpec, math: &M, motor: CompiledSolid)
    requires
        spec.compiles_to(math, Ok::<CompiledSolid, Fault>(motor)),
        !(spec.contour is Aerospike),
        motor_kept(spec, math, motor),
    ensures
        exists|slant: real|
            #![trigger spans(spec, math, motor, slant)]
            spans(spec, math, motor, slant) && ({
                let density = value(spec.casing_material.density_kg_m3);
                let wall = hoop(
                    value(motor.peak_pressure_pa),
                    value(spec.outer_radius_m),
                    value(spec.casing_material.yield_strength_pa),
                );
                let bare = cone(value(spec.throat_radius_m), value(motor.exit_radius_m), slant, wall, density);
                let nozzle = if spec.contour is Bell {
                    times(bare, value(dec(85, 2)))
                } else {
                    bare
                };
                let peak = value(motor.peak_thrust_sl_n);
                let gimbal = if spec.gimbal_range_rad > zero() {
                    value(mass_fit_gimbal_base_kg()) + times(value(mass_fit_gimbal_kg_per_n()), peak)
                } else {
                    0 as real
                };
                about(
                    value(motor.dry_mass_kg),
                    casing(wall, value(spec.outer_radius_m), value(motor.grain_length_m), density) + nozzle + gimbal
                        + value(mass_fit_solid_igniter_kg()) + times(value(mass_fit_mount_kg_per_n()), peak) + times(
                        value(mass_fit_feed_kg_per_n()),
                        peak,
                    ),
                    17,
                )
            }),
{
    let (outer, yielding, density) = (
        spec.outer_radius_m,
        spec.casing_material.yield_strength_pa,
        spec.casing_material.density_kg_m3,
    );
    let wall_m = motor.peak_pressure_pa * whole(2) * outer / (whole(2) * yielding) * pressure_safety_factor();
    let square = powi(math, motor.exit_radius_m - spec.throat_radius_m, 2);
    let slant = (spec.nozzle_length_m * spec.nozzle_length_m + square).sqrt();
    let case_kg = whole(2) * pi() * outer * motor.grain_length_m * wall_m * density * dec(13, 1);
    let cone_kg = pi() * (spec.throat_radius_m + motor.exit_radius_m) * slant * wall_m * dec(6, 1) * density;
    let bell_kg = cone_kg * dec(85, 2);
    let nozzle_kg = if spec.contour is Bell {
        bell_kg
    } else {
        cone_kg
    };
    let peak = motor.peak_thrust_sl_n;
    let (per, base) = (mass_fit_gimbal_kg_per_n(), mass_fit_gimbal_base_kg());
    let gimbal_kg = if spec.gimbal_range_rad > zero() {
        base + per * peak
    } else {
        zero()
    };
    let igniter = mass_fit_solid_igniter_kg();
    let (mount, feed) = (mass_fit_mount_kg_per_n(), mass_fit_feed_kg_per_n());
    let sum = case_kg + nozzle_kg + gimbal_kg;
    assert(motor.dry_mass_kg == sum + igniter + mount * peak + feed * peak);
    lemma_small_constants();
    lemma_one();
    lemma_hoop(motor.peak_pressure_pa, outer, yielding);
    let wall = hoop(value(motor.peak_pressure_pa), value(outer), value(yielding));
    lemma_casing(wall_m, outer, motor.grain_length_m, density, wall);
    lemma_cone(spec.throat_radius_m, motor.exit_radius_m, spec.nozzle_length_m, square, wall_m, density, wall);
    let bare = cone(value(spec.throat_radius_m), value(motor.exit_radius_m), value(slant), wall, value(density));
    let full = casing(wall, value(outer), value(motor.grain_length_m), value(density));
    lemma_own(case_kg);
    lemma_own(cone_kg);
    lemma_own(bell_kg);
    lemma_about_itself(dec(85, 2));
    lemma_about_times(cone_kg, dec(85, 2), bare, value(dec(85, 2)), 11, 0);
    let nozzle = if spec.contour is Bell {
        times(bare, value(dec(85, 2)))
    } else {
        bare
    };
    lemma_about_more(value(cone_kg), bare, 11, 12);
    lemma_about_plus(case_kg, nozzle_kg, full, nozzle, 11, 12);
    lemma_own(case_kg + nozzle_kg);
    lemma_own(peak);
    lemma_about_itself(per);
    lemma_about_itself(base);
    lemma_about_itself(igniter);
    lemma_about_itself(mount);
    lemma_about_itself(feed);
    lemma_about_itself(zero());
    lemma_own(per * peak);
    lemma_own(base + per * peak);
    lemma_about_times(per, peak, value(per), value(peak), 0, 0);
    lemma_about_plus(base, per * peak, value(base), times(value(per), value(peak)), 0, 1);
    lemma_about_more(value(zero()), value(zero()), 0, 2);
    let gimbal = if spec.gimbal_range_rad > zero() {
        value(base) + times(value(per), value(peak))
    } else {
        0 as real
    };
    lemma_zero_value();
    assert(about(value(gimbal_kg), gimbal, 2));
    lemma_about_plus(case_kg + nozzle_kg, gimbal_kg, full + nozzle, gimbal, 13, 2);
    lemma_own(sum);
    lemma_about_plus(sum, igniter, full + nozzle + gimbal, value(igniter), 14, 0);
    lemma_own(sum + igniter);
    lemma_own(mount * peak);
    lemma_own(feed * peak);
    lemma_about_times(mount, peak, value(mount), value(peak), 0, 0);
    lemma_about_times(feed, peak, value(feed), value(peak), 0, 0);
    lemma_about_plus(sum + igniter, mount * peak, full + nozzle + gimbal + value(igniter), times(value(mount), value(peak)), 15, 1);
    lemma_own(sum + igniter + mount * peak);
    lemma_about_plus(
        sum + igniter + mount * peak,
        feed * peak,
        full + nozzle + gimbal + value(igniter) + times(value(mount), value(peak)),
        times(value(feed), value(peak)),
        16,
        1,
    );
    assert(spans(spec, math, motor, value(slant)));
}

/// A pinch, no term of which is lost to underflow or overflow: `log` is the host's
/// logarithm of the ratio of radii.
pub open spec fn pinch_kept(log: F64, current_a: F64) -> bool {
    let mu = vacuum_permeability_h_m();
    let constant = mu / (whole(4) * pi());
    &&& normal(log) && normal(current_a) && normal(mu) && normal(whole(4) * pi()) && normal(constant)
    &&& normal(constant * log) && normal(current_a * current_a) && normal(constant * log * (current_a * current_a))
}

/// A plasma thruster pushes by its own field: permeability by four pi, times the logarithm
/// of anode by cathode radius, times the square of the current, to within five roundings.
pub proof fn lemma_pinch<M: Numerics>(
    engine: &CompiledElectricThruster,
    math: &M,
    command: ElectricThrusterCommand,
    point: ElectricThrusterPoint,
)
    requires
        engine.point(math, command) == Ok::<ElectricThrusterPoint, Fault>(point),
        engine.design is Magnetoplasmadynamic,
        zero() < point.mass_flow_kg_s,
        forall|x: F64| #[trigger] squares(math, x),
        pinch_kept(
            ln(
                math,
                engine.design->Magnetoplasmadynamic_anode_radius_m / engine.design->Magnetoplasmadynamic_cathode_radius_m,
            ),
            point.discharge_current_a,
        ),
    ensures
        ({
            let log = ln(
                math,
                engine.design->Magnetoplasmadynamic_anode_radius_m / engine.design->Magnetoplasmadynamic_cathode_radius_m,
            );
            let current = value(point.discharge_current_a);
            about(
                value(point.thrust_n),
                times(
                    times(
                        over(value(vacuum_permeability_h_m()), times(4 as real, value(pi()))),
                        value(log),
                    ),
                    times(current, current),
                ),
                5,
            )
        }),
{
    let log = ln(
        math,
        engine.design->Magnetoplasmadynamic_anode_radius_m / engine.design->Magnetoplasmadynamic_cathode_radius_m,
    );
    let (i, mu) = (point.discharge_current_a, vacuum_permeability_h_m());
    let constant = mu / (whole(4) * pi());
    lemma_one();
    lemma_parts(point.mass_flow_kg_s);
    assert(squares(math, i));
    assert(point.thrust_n == constant * log * (i * i));
    lemma_constants();
    lemma_whole_value(4);
    lemma_own(whole(4));
    lemma_own(pi());
    lemma_own(mu);
    lemma_own(log);
    lemma_own(i);
    let round = times(4 as real, value(pi()));
    lemma_term(whole(4), pi(), 4 as real, value(pi()), 0, 0);
    lemma_times_positive(4 as real, value(pi()));
    lemma_about_over(mu, whole(4) * pi(), value(mu), round, 0, 1);
    lemma_term(constant, log, over(value(mu), round), value(log), 2, 0);
    lemma_term(i, i, value(i), value(i), 0, 0);
    lemma_term(constant * log, i * i, times(over(value(mu), round), value(log)), times(value(i), value(i)), 3, 1);
}

/// A shroud, no term of which is lost to underflow or overflow.
pub open spec fn shroud_kept(spec: EstocEjectorSpec) -> bool {
    let disc = spec.capture_area_m2 / pi();
    let round = whole(2) * pi() * disc.sqrt();
    &&& normal(spec.capture_area_m2) && normal(spec.mixing_length_m) && normal(spec.wall_thickness_m)
    &&& normal(spec.structure_density_kg_m3) && normal(disc) && normal(disc.sqrt()) && normal(whole(2) * pi())
    &&& normal(round) && normal(round * spec.mixing_length_m)
    &&& normal(round * spec.mixing_length_m * spec.wall_thickness_m)
    &&& normal(round * spec.mixing_length_m * spec.wall_thickness_m * spec.structure_density_kg_m3)
}

/// `radius` is that of a disc of an area, to within three roundings.
pub open spec fn rounds(radius: real, area: real) -> bool {
    about(times(radius, radius), over(area, value(pi())), 3)
}

/// An ejector weighs what a tube around its capture area does: circumference times length,
/// thickness and density, to within five roundings.
pub proof fn lemma_shroud(spec: EstocEjectorSpec)
    requires
        shroud_kept(spec),
    ensures
        exists|radius: real|
            #![trigger rounds(radius, value(spec.capture_area_m2))]
            rounds(radius, value(spec.capture_area_m2)) && about(
                value(spec.dry_mass_kg()),
                times(
                    times(
                        times(times(times(2 as real, value(pi())), radius), value(spec.mixing_length_m)),
                        value(spec.wall_thickness_m),
                    ),
                    value(spec.structure_density_kg_m3),
                ),
                5,
            ),
{
    let (area, l, t, density) = (
        spec.capture_area_m2,
        spec.mixing_length_m,
        spec.wall_thickness_m,
        spec.structure_density_kg_m3,
    );
    let disc = area / pi();
    let r = disc.sqrt();
    let round = whole(2) * pi() * r;
    let (two, p) = (2 as real, value(pi()));
    lemma_constants();
    lemma_whole_value(2);
    lemma_own(whole(2));
    lemma_own(pi());
    lemma_own(area);
    lemma_own(disc);
    lemma_own(r);
    lemma_own(l);
    lemma_own(t);
    lemma_own(density);
    lemma_about_over(area, pi(), value(area), p, 0, 0);
    lemma_about_root(disc, over(value(area), p), 1);
    lemma_term(whole(2), pi(), two, p, 0, 0);
    lemma_term(whole(2) * pi(), r, times(two, p), value(r), 1, 0);
    let a = times(times(two, p), value(r));
    lemma_term(round, l, a, value(l), 2, 0);
    lemma_term(round * l, t, times(a, value(l)), value(t), 3, 0);
    lemma_term(round * l * t, density, times(times(a, value(l)), value(t)), value(density), 4, 0);
    assert(rounds(value(r), value(area)));
}

} // verus!
