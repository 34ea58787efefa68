//! Radiators, walls, coils and the masses they add up to.
use crate::air::air_gamma;
use crate::constants::standard_gravity_mps2;
use crate::electric::{
    coil_volume_m3, copper_density_kg_m3, cosmic_background_temp_k, radiated_w, stefan_boltzmann_w_m2_k4,
    thermal_chamber_volume, vacuum_permeability_h_m, CompiledElectricThruster, ElectricThrusterDesign,
    ElectricThrusterSpec,
};
use crate::error::Fault;
use crate::float::accuracy::{
    about, amount, lemma_about_product, lemma_about_same, lemma_difference_about, lemma_normal, lemma_over,
    lemma_times_adds, lemma_times_associates, lemma_times_commutes, lemma_times_one, lemma_times_positive, normal,
    over, times, value,
};
use crate::float::{dec, decimal, lemma_one, pi, tau, whole, zero, F64};
use crate::float::decimals::{lemma_decimal_between, lemma_whole};
use crate::float::exact::{lemma_sub_self, lemma_vanishing};
use crate::float::magnitude::HIDDEN;
use crate::float::nearness::lemma_parts;
use crate::float::tracking::{
    lemma_about_itself, lemma_about_over, lemma_about_plus, lemma_about_times, lemma_whole_value, most,
};
use crate::fusion::{CompiledFusionTorch, CompiledPulsedFusion, FusionTorchSpec, PulsedFusionSpec};
use crate::laws::expansion::lemma_sized_two;
use crate::laws::grain::lemma_at_least_normal;
use crate::numerics::{powi, Numerics};
use vstd::arithmetic::power2::pow2;
use vstd::arithmetic::power::pow;
use vstd::prelude::*;

verus! {

/// A decimal that is at least one is an ordinary number.
proof fn lemma_ordinary(m: u64, places: u32, high: u64)
    requires
        pow(10, places as nat) <= m <= high * pow(10, places as nat),
        high < 2 * HIDDEN,
    ensures
        normal(dec(m, places)),
        whole(1) <= dec(m, places),
{
    lemma_decimal_between(m, places, 1, high);
    lemma_sized_two();
    lemma_at_least_normal(whole(1), dec(m, places));
}

/// A small whole number is an ordinary number.
proof fn lemma_ordinary_whole(m: u64)
    requires
        1 <= m < 2 * HIDDEN,
    ensures
        normal(whole(m)),
{
    lemma_sized_two();
    lemma_whole(1);
    lemma_whole(m);
    lemma_whole_value(m);
    lemma_parts(whole(1));
    lemma_parts(whole(m));
    assert(pow2(1074) <= m * pow2(1074)) by (nonlinear_arith)
        requires
            m >= 1,
    ;
    lemma_at_least_normal(whole(1), whole(m));
}

/// The constants are ordinary numbers.
pub proof fn lemma_constants()
    ensures
        normal(whole(1)) && normal(whole(2)) && normal(whole(4)),
        normal(copper_density_kg_m3()),
        normal(pi()),
        normal(tau()),
        normal(air_gamma()),
        whole(1) <= air_gamma(),
        normal(dec(108, 2)),
        normal(standard_gravity_mps2()),
{
    lemma_ordinary_whole(1);
    lemma_ordinary_whole(2);
    lemma_ordinary_whole(4);
    lemma_ordinary_whole(8_960);
    reveal_with_fuel(pow, 16);
    lemma_ordinary(14, 1, 2);
    lemma_ordinary(108, 2, 2);
    lemma_ordinary(980_665, 5, 10);
    lemma_ordinary(3_141_592_653_589_793, 15, 4);
    lemma_ordinary(6_283_185_307_179_586, 15, 7);
    assert(pi() == dec(3_141_592_653_589_793, 15)) by {
        reveal(decimal);
    }
    assert(tau() == dec(6_283_185_307_179_586, 15)) by {
        reveal(decimal);
    }
}

/// A product of terms that strayed.
pub proof fn lemma_term(a: F64, b: F64, x: real, y: real, k: nat, m: nat)
    requires
        normal(a),
        normal(b),
        normal(a * b),
        about(value(a), x, k),
        about(value(b), y, m),
    ensures
        about(value(a * b), times(x, y), k + m + 1),
{
    lemma_normal(a);
    lemma_normal(b);
    lemma_about_times(a, b, x, y, k, m);
}

/// A number is its own value.
pub proof fn lemma_own(a: F64)
    requires
        normal(a),
    ensures
        about(value(a), value(a), 0),
        amount(a),
        value(a) > (0 as real),
{
    lemma_normal(a);
    lemma_about_itself(a);
}

/// A sum of terms that strayed.
pub proof fn lemma_terms(a: F64, b: F64, x: real, y: real, k: nat, m: nat)
    requires
        normal(a),
        normal(b),
        normal(a + b),
        about(value(a), x, k),
        about(value(b), y, m),
    ensures
        about(value(a + b), x + y, most(k, m) + 1),
{
    lemma_normal(a);
    lemma_normal(b);
    lemma_about_plus(a, b, x, y, k, m);
}

/// A radiator, no term of which is lost to underflow or overflow.
pub open spec fn radiator_kept<M: Numerics>(math: &M, area_m2: F64, temperature_k: F64, emissivity: F64) -> bool {
    let (hot, cold) = (powi(math, temperature_k, 4), powi(math, cosmic_background_temp_k(), 4));
    let sigma = stefan_boltzmann_w_m2_k4();
    &&& normal(hot) && normal(cold) && cold.units() <= hot.units() && normal(hot - cold)
    &&& normal(area_m2) && normal(emissivity) && normal(sigma)
    &&& normal(emissivity * sigma) && normal(emissivity * sigma * area_m2)
    &&& normal(emissivity * sigma * area_m2 * (hot - cold))
}

/// A radiator gives off what its surface emits above what the sky gives back: emissivity
/// times area times the difference of the fourth powers, to within four roundings.
pub proof fn lemma_radiator<M: Numerics>(math: &M, area_m2: F64, temperature_k: F64, emissivity: F64)
    requires
        radiator_kept(math, area_m2, temperature_k, emissivity),
    ensures
        about(
            value(radiated_w(math, area_m2, temperature_k, emissivity)),
            times(
                times(value(emissivity), times(value(stefan_boltzmann_w_m2_k4()), value(area_m2))),
                value(powi(math, temperature_k, 4)) - value(powi(math, cosmic_background_temp_k(), 4)),
            ),
            4,
        ),
{
    let (hot, cold) = (powi(math, temperature_k, 4), powi(math, cosmic_background_temp_k(), 4));
    let sigma = stefan_boltzmann_w_m2_k4();
    lemma_own(hot);
    lemma_own(cold);
    lemma_own(area_m2);
    lemma_own(emissivity);
    lemma_own(sigma);
    lemma_difference_about(hot, cold);
    lemma_term(emissivity, sigma, value(emissivity), value(sigma), 0, 0);
    lemma_term(emissivity * sigma, area_m2, times(value(emissivity), value(sigma)), value(area_m2), 1, 0);
    lemma_times_associates(value(emissivity), value(sigma), value(area_m2));
    lemma_term(
        emissivity * sigma * area_m2,
        hot - cold,
        times(value(emissivity), times(value(sigma), value(area_m2))),
        value(hot) - value(cold),
        2,
        1,
    );
}

/// A radiator as warm as the sky gives off nothing.
pub proof fn lemma_cold_radiator<M: Numerics>(math: &M, area_m2: F64, emissivity: F64)
    requires
        powi(math, cosmic_background_temp_k(), 4).is_finite(),
        (emissivity * stefan_boltzmann_w_m2_k4() * area_m2).is_finite(),
    ensures
        radiated_w(math, area_m2, cosmic_background_temp_k(), emissivity).units() == 0,
{
    let sky = powi(math, cosmic_background_temp_k(), 4);
    lemma_one();
    lemma_sub_self(sky);
    lemma_vanishing(emissivity * stefan_boltzmann_w_m2_k4() * area_m2, sky - sky);
}

/// A chamber wall's volume: the mantle and one end.
pub open spec fn wall(radius: real, square: real, length: real, thickness: real) -> real {
    times(times(times(times(2 as real, value(pi())), radius), length), thickness) + times(
        times(value(pi()), square),
        thickness,
    )
}

/// A chamber wall, no term of which is lost to underflow or overflow.
pub open spec fn wall_kept<M: Numerics>(math: &M, radius_m: F64, length_m: F64, thickness_m: F64) -> bool {
    let square = powi(math, radius_m, 2);
    &&& normal(radius_m) && normal(length_m) && normal(thickness_m) && normal(square)
    &&& normal(whole(2) * pi()) && normal(whole(2) * pi() * radius_m)
    &&& normal(whole(2) * pi() * radius_m * length_m) && normal(whole(2) * pi() * radius_m * length_m * thickness_m)
    &&& normal(pi() * square) && normal(pi() * square * thickness_m)
    &&& normal(whole(2) * pi() * radius_m * length_m * thickness_m + pi() * square * thickness_m)
}

/// A chamber wall has the volume of a mantle and one end, to within five roundings.
pub proof fn lemma_wall<M: Numerics>(math: &M, radius_m: F64, length_m: F64, thickness_m: F64)
    requires
        wall_kept(math, radius_m, length_m, thickness_m),
    ensures
        about(
            value(thermal_chamber_volume(math, radius_m, length_m, thickness_m)),
            wall(value(radius_m), value(powi(math, radius_m, 2)), value(length_m), value(thickness_m)),
            5,
        ),
{
    lemma_constants();
    let (r, l, t, square) = (radius_m, length_m, thickness_m, powi(math, radius_m, 2));
    let (p, two) = (value(pi()), 2 as real);
    lemma_whole_value(2);
    lemma_own(whole(2));
    lemma_own(pi());
    lemma_own(r);
    lemma_own(l);
    lemma_own(t);
    lemma_own(square);
    lemma_term(whole(2), pi(), two, p, 0, 0);
    lemma_term(whole(2) * pi(), r, times(two, p), value(r), 1, 0);
    lemma_term(whole(2) * pi() * r, l, times(times(two, p), value(r)), value(l), 2, 0);
    lemma_term(whole(2) * pi() * r * l, t, times(times(times(two, p), value(r)), value(l)), value(t), 3, 0);
    lemma_term(pi(), square, p, value(square), 0, 0);
    lemma_term(pi() * square, t, times(p, value(square)), value(t), 1, 0);
    lemma_terms(
        whole(2) * pi() * r * l * t,
        pi() * square * t,
        times(times(times(times(two, p), value(r)), value(l)), value(t)),
        times(times(p, value(square)), value(t)),
        4,
        2,
    );
}

/// A coil, no term of which is lost to underflow or overflow.
pub open spec fn coil_kept(field_t: F64, length_m: F64, current_density_a_m2: F64, radius_m: F64) -> bool {
    let (turns, carried) = (field_t * length_m, vacuum_permeability_h_m() * current_density_a_m2);
    &&& normal(field_t) && normal(length_m) && normal(current_density_a_m2) && normal(radius_m)
    &&& normal(vacuum_permeability_h_m()) && normal(turns) && normal(carried)
    &&& normal(turns / carried) && normal(turns / carried * tau()) && normal(turns / carried * tau() * radius_m)
}

/// A coil is wound for its field: its volume times what its section carries by permeability
/// is field times length times circumference, to within five roundings.
pub proof fn lemma_coil(field_t: F64, length_m: F64, current_density_a_m2: F64, radius_m: F64)
    requires
        coil_kept(field_t, length_m, current_density_a_m2, radius_m),
    ensures
        about(
            times(
                value(coil_volume_m3(field_t, length_m, current_density_a_m2, radius_m)),
                times(value(vacuum_permeability_h_m()), value(current_density_a_m2)),
            ),
            times(times(value(field_t), value(length_m)), times(value(tau()), value(radius_m))),
            5,
        ),
{
    lemma_constants();
    let (b, l, j, r, mu) = (field_t, length_m, current_density_a_m2, radius_m, vacuum_permeability_h_m());
    let (turns, carried) = (b * l, mu * j);
    let (wound, section) = (times(value(b), value(l)), times(value(mu), value(j)));
    let round = times(value(tau()), value(r));
    let volume = turns / carried * tau() * r;
    lemma_own(b);
    lemma_own(l);
    lemma_own(j);
    lemma_own(r);
    lemma_own(mu);
    lemma_own(tau());
    lemma_own(turns);
    lemma_own(carried);
    lemma_term(b, l, value(b), value(l), 0, 0);
    lemma_term(mu, j, value(mu), value(j), 0, 0);
    lemma_times_positive(value(mu), value(j));
    lemma_about_over(turns, carried, wound, section, 1, 1);
    lemma_term(turns / carried, tau(), over(wound, section), value(tau()), 3, 0);
    lemma_term(turns / carried * tau(), r, times(over(wound, section), value(tau())), value(r), 4, 0);
    lemma_times_associates(over(wound, section), value(tau()), value(r));
    lemma_about_same(section);
    lemma_about_product(value(volume), times(over(wound, section), round), section, section, 5, 0);
    lemma_times_associates(over(wound, section), round, section);
    lemma_times_commutes(round, section);
    lemma_times_associates(over(wound, section), section, round);
    lemma_over(wound, section);
}

/// Parts of a mass, none of which is lost to underflow or overflow: a plant by its specific
/// power, a wall and a coil by their volumes, a radiator by its area.
pub open spec fn parts_kept(power: F64, specific: F64, wall_m3: F64, density: F64, coil_kg: F64, area: F64, areal: F64) -> bool {
    let (plant, shell, panel) = (power / specific, wall_m3 * density, area * areal);
    &&& normal(power) && normal(specific) && normal(wall_m3) && normal(density) && normal(area) && normal(areal)
    &&& normal(plant) && normal(shell) && amount(coil_kg) && normal(panel)
    &&& normal(plant + shell) && normal(plant + shell + coil_kg) && normal(plant + shell + coil_kg + panel)
}

/// Parts of a mass add up, to within four roundings.
proof fn lemma_parts_add(power: F64, specific: F64, wall_m3: F64, density: F64, coil_kg: F64, area: F64, areal: F64)
    requires
        parts_kept(power, specific, wall_m3, density, coil_kg, area, areal),
    ensures
        about(
            value(power / specific + wall_m3 * density + coil_kg + area * areal),
            over(value(power), value(specific)) + times(value(wall_m3), value(density)) + value(coil_kg) + times(
                value(area),
                value(areal),
            ),
            4,
        ),
{
    let (plant, shell, panel) = (power / specific, wall_m3 * density, area * areal);
    let (x, y, z) = (
        over(value(power), value(specific)),
        times(value(wall_m3), value(density)),
        times(value(area), value(areal)),
    );
    lemma_own(power);
    lemma_own(specific);
    lemma_own(wall_m3);
    lemma_own(density);
    lemma_own(area);
    lemma_own(areal);
    lemma_about_over(power, specific, value(power), value(specific), 0, 0);
    lemma_term(wall_m3, density, value(wall_m3), value(density), 0, 0);
    lemma_term(area, areal, value(area), value(areal), 0, 0);
    lemma_terms(plant, shell, x, y, 1, 1);
    lemma_own(plant + shell);
    lemma_about_itself(coil_kg);
    lemma_about_plus(plant + shell, coil_kg, x + y, value(coil_kg), 2, 0);
    lemma_terms(plant + shell + coil_kg, panel, x + y + value(coil_kg), z, 3, 1);
}

/// An electric thruster weighs what its power processor, structure, coil and radiator do,
/// to within four roundings, and sheds what its radiator gives off.
pub proof fn lemma_thruster_mass<M: Numerics>(spec: ElectricThrusterSpec, math: &M, engine: CompiledElectricThruster)
    requires
        spec.compiled(math) == Ok::<CompiledElectricThruster, Fault>(engine),
        parts_kept(
            spec.maximum_power_w,
            spec.power_processor_specific_power_w_kg,
            spec.design.geometry_volume_m3(math, spec.structure_thickness_m),
            spec.structure_density_kg_m3,
            spec.design.field_coil_volume_m3() * copper_density_kg_m3(),
            spec.radiator_area_m2,
            spec.radiator_areal_density_kg_m2,
        ),
    ensures
        about(
            value(engine.dry_mass_kg),
            over(value(spec.maximum_power_w), value(spec.power_processor_specific_power_w_kg)) + times(
                value(spec.design.geometry_volume_m3(math, spec.structure_thickness_m)),
                value(spec.structure_density_kg_m3),
            ) + value(spec.design.field_coil_volume_m3() * copper_density_kg_m3()) + times(
                value(spec.radiator_area_m2),
                value(spec.radiator_areal_density_kg_m2),
            ),
            4,
        ),
        engine.radiator_heat_rejection_w == radiated_w(
            math,
            spec.radiator_area_m2,
            spec.radiator_temperature_k,
            spec.radiator_emissivity,
        ),
{
    lemma_parts_add(
        spec.maximum_power_w,
        spec.power_processor_specific_power_w_kg,
        spec.design.geometry_volume_m3(math, spec.structure_thickness_m),
        spec.structure_density_kg_m3,
        spec.design.field_coil_volume_m3() * copper_density_kg_m3(),
        spec.radiator_area_m2,
        spec.radiator_areal_density_kg_m2,
    );
}

/// A fusion torch weighs what its reactor, nozzle wall, coil and radiator do, to within
/// four roundings; wall and coil have the nozzle's radius and length.
pub proof fn lemma_torch_mass<M: Numerics>(spec: FusionTorchSpec, math: &M, engine: CompiledFusionTorch)
    requires
        spec.compiled(math) == Ok::<CompiledFusionTorch, Fault>(engine),
        ({
            let (r, l) = (spec.nozzle_radius_m, spec.nozzle_length_m);
            let coil = coil_volume_m3(spec.magnetic_field_t, l, spec.coil_current_density_a_m2, r);
            parts_kept(
                spec.maximum_fusion_power_w,
                spec.reactor_specific_power_w_kg,
                thermal_chamber_volume(math, r, l, spec.structure_thickness_m),
                spec.structure_density_kg_m3,
                coil * copper_density_kg_m3(),
                spec.radiator_area_m2,
                spec.radiator_areal_density_kg_m2,
            )
        }),
    ensures
        ({
            let (r, l) = (spec.nozzle_radius_m, spec.nozzle_length_m);
            let coil = coil_volume_m3(spec.magnetic_field_t, l, spec.coil_current_density_a_m2, r);
            about(
                value(engine.dry_mass_kg),
                over(value(spec.maximum_fusion_power_w), value(spec.reactor_specific_power_w_kg)) + times(
                    value(thermal_chamber_volume(math, r, l, spec.structure_thickness_m)),
                    value(spec.structure_density_kg_m3),
                ) + value(coil * copper_density_kg_m3()) + times(
                    value(spec.radiator_area_m2),
                    value(spec.radiator_areal_density_kg_m2),
                ),
                4,
            )
        }),
        engine.radiator_heat_rejection_w == radiated_w(
            math,
            spec.radiator_area_m2,
            spec.radiator_temperature_k,
            spec.radiator_emissivity,
        ),
{
    let (r, l) = (spec.nozzle_radius_m, spec.nozzle_length_m);
    let coil = coil_volume_m3(spec.magnetic_field_t, l, spec.coil_current_density_a_m2, r);
    lemma_parts_add(
        spec.maximum_fusion_power_w,
        spec.reactor_specific_power_w_kg,
        thermal_chamber_volume(math, r, l, spec.structure_thickness_m),
        spec.structure_density_kg_m3,
        coil * copper_density_kg_m3(),
        spec.radiator_area_m2,
        spec.radiator_areal_density_kg_m2,
    );
}

/// The parts of a pulsed drive, none of which is lost to underflow or overflow.
pub open spec fn drive_kept<M: Numerics>(spec: PulsedFusionSpec, math: &M, engine: CompiledPulsedFusion) -> bool {
    let (r, l) = (spec.chamber_radius_m, spec.chamber_length_m);
    let specific = spec.pulse_system_specific_power_w_kg;
    let coil = coil_volume_m3(spec.magnetic_field_t, l, spec.coil_current_density_a_m2, r);
    let wall_m3 = thermal_chamber_volume(math, r, l, spec.structure_thickness_m);
    let pulser = engine.peak_fusion_power_w / specific;
    let buffer = engine.buffer_capacity_j / spec.energy_buffer_specific_energy_j_kg;
    let charger = spec.maximum_charge_power_w / specific;
    let shell = wall_m3 * spec.structure_density_kg_m3;
    let winding = coil * copper_density_kg_m3();
    let panel = spec.radiator_area_m2 * spec.radiator_areal_density_kg_m2;
    &&& normal(engine.peak_fusion_power_w) && normal(specific) && normal(engine.buffer_capacity_j)
    &&& normal(spec.energy_buffer_specific_energy_j_kg) && normal(spec.maximum_charge_power_w)
    &&& normal(wall_m3) && normal(spec.structure_density_kg_m3) && normal(coil)
    &&& normal(spec.radiator_area_m2) && normal(spec.radiator_areal_density_kg_m2)
    &&& normal(pulser) && normal(buffer) && normal(charger) && normal(shell) && normal(winding) && normal(panel)
    &&& normal(pulser + buffer) && normal(pulser + buffer + charger) && normal(pulser + buffer + charger + shell)
    &&& normal(pulser + buffer + charger + shell + winding)
    &&& normal(pulser + buffer + charger + shell + winding + panel)
}

/// A pulsed drive weighs what its pulse system, buffer, charger, chamber wall, coil and
/// radiator do, to within six roundings.
pub proof fn lemma_drive_mass<M: Numerics>(spec: PulsedFusionSpec, math: &M, engine: CompiledPulsedFusion)
    requires
        spec.compiled(math) == Ok::<CompiledPulsedFusion, Fault>(engine),
        drive_kept(spec, math, engine),
    ensures
        ({
            let (r, l) = (spec.chamber_radius_m, spec.chamber_length_m);
            let specific = value(spec.pulse_system_specific_power_w_kg);
            let coil = coil_volume_m3(spec.magnetic_field_t, l, spec.coil_current_density_a_m2, r);
            let wall_m3 = thermal_chamber_volume(math, r, l, spec.structure_thickness_m);
            about(
                value(engine.dry_mass_kg),
                over(value(engine.peak_fusion_power_w), specific) + over(
                    value(engine.buffer_capacity_j),
                    value(spec.energy_buffer_specific_energy_j_kg),
                ) + over(value(spec.maximum_charge_power_w), specific) + times(
                    value(wall_m3),
                    value(spec.structure_density_kg_m3),
                ) + times(value(coil), value(copper_density_kg_m3())) + times(
                    value(spec.radiator_area_m2),
                    value(spec.radiator_areal_density_kg_m2),
                ),
                6,
            )
        }),
        engine.radiator_heat_rejection_w == radiated_w(
            math,
            spec.radiator_area_m2,
            spec.radiator_temperature_k,
            spec.radiator_emissivity,
        ),
{
    lemma_constants();
    let (r, l) = (spec.chamber_radius_m, spec.chamber_length_m);
    let specific = spec.pulse_system_specific_power_w_kg;
    let coil = coil_volume_m3(spec.magnetic_field_t, l, spec.coil_current_density_a_m2, r);
    let wall_m3 = thermal_chamber_volume(math, r, l, spec.structure_thickness_m);
    let (peak, stored, charge) = (engine.peak_fusion_power_w, engine.buffer_capacity_j, spec.maximum_charge_power_w);
    let held = spec.energy_buffer_specific_energy_j_kg;
    let (area, areal) = (spec.radiator_area_m2, spec.radiator_areal_density_kg_m2);
    let pulser = peak / specific;
    let buffer = stored / held;
    let charger = charge / specific;
    let shell = wall_m3 * spec.structure_density_kg_m3;
    let winding = coil * copper_density_kg_m3();
    let panel = area * areal;
    lemma_own(peak);
    lemma_own(specific);
    lemma_own(stored);
    lemma_own(held);
    lemma_own(charge);
    lemma_own(wall_m3);
    lemma_own(spec.structure_density_kg_m3);
    lemma_own(coil);
    lemma_own(copper_density_kg_m3());
    lemma_own(area);
    lemma_own(areal);
    let a = over(value(peak), value(specific));
    let b = over(value(stored), value(held));
    let c = over(value(charge), value(specific));
    let d = times(value(wall_m3), value(spec.structure_density_kg_m3));
    let e = times(value(coil), value(copper_density_kg_m3()));
    let f = times(value(area), value(areal));
    lemma_about_over(peak, specific, value(peak), value(specific), 0, 0);
    lemma_about_over(stored, held, value(stored), value(held), 0, 0);
    lemma_about_over(charge, specific, value(charge), value(specific), 0, 0);
    lemma_term(wall_m3, spec.structure_density_kg_m3, value(wall_m3), value(spec.structure_density_kg_m3), 0, 0);
    lemma_term(coil, copper_density_kg_m3(), value(coil), value(copper_density_kg_m3()), 0, 0);
    lemma_term(area, areal, value(area), value(areal), 0, 0);
    lemma_terms(pulser, buffer, a, b, 1, 1);
    lemma_terms(pulser + buffer, charger, a + b, c, 2, 1);
    lemma_terms(pulser + buffer + charger, shell, a + b + c, d, 3, 1);
    lemma_terms(pulser + buffer + charger + shell, winding, a + b + c + d, e, 4, 1);
    lemma_terms(pulser + buffer + charger + shell + winding, panel, a + b + c + d + e, f, 5, 1);
}

/// A pair of grids, no term of which is lost to underflow or overflow.
pub open spec fn grids_kept<M: Numerics>(math: &M, diameter_m: F64, gap_m: F64, thickness_m: F64) -> bool {
    let square = powi(math, diameter_m, 2);
    let disc = pi() * square / whole(4);
    let rim = pi() * diameter_m * gap_m;
    &&& normal(square) && normal(diameter_m) && normal(gap_m) && normal(thickness_m)
    &&& normal(pi() * square) && normal(disc) && normal(whole(2) * disc)
    &&& normal(whole(2) * disc * thickness_m) && normal(pi() * diameter_m) && normal(rim) && normal(rim * thickness_m)
    &&& normal(whole(2) * disc * thickness_m + rim * thickness_m)
}

/// A gridded thruster's structure is two discs and a rim, to within five roundings.
pub proof fn lemma_grids<M: Numerics>(design: ElectricThrusterDesign, math: &M, thickness_m: F64)
    requires
        design is GriddedIon,
        grids_kept(math, design->GriddedIon_grid_diameter_m, design->GriddedIon_grid_gap_m, thickness_m),
    ensures
        ({
            let (d, g) = (design->GriddedIon_grid_diameter_m, design->GriddedIon_grid_gap_m);
            let disc = over(times(value(pi()), value(powi(math, d, 2))), 4 as real);
            let rim = times(times(value(pi()), value(d)), value(g));
            about(
                value(design.geometry_volume_m3(math, thickness_m)),
                times(disc + disc, value(thickness_m)) + times(rim, value(thickness_m)),
                5,
            )
        }),
{
    lemma_constants();
    let (d, g, t) = (design->GriddedIon_grid_diameter_m, design->GriddedIon_grid_gap_m, thickness_m);
    let square = powi(math, d, 2);
    let disc = pi() * square / whole(4);
    let rim = pi() * d * g;
    let p = value(pi());
    lemma_whole_value(2);
    lemma_whole_value(4);
    lemma_own(whole(2));
    lemma_own(whole(4));
    lemma_own(pi());
    lemma_own(square);
    lemma_own(d);
    lemma_own(g);
    lemma_own(t);
    lemma_own(pi() * square);
    lemma_term(pi(), square, p, value(square), 0, 0);
    let flat = over(times(p, value(square)), 4 as real);
    lemma_about_over(pi() * square, whole(4), times(p, value(square)), 4 as real, 1, 0);
    lemma_term(whole(2), disc, 2 as real, flat, 0, 2);
    lemma_times_one(flat);
    lemma_term(whole(2) * disc, t, flat + flat, value(t), 3, 0);
    lemma_term(pi(), d, p, value(d), 0, 0);
    lemma_term(pi() * d, g, times(p, value(d)), value(g), 1, 0);
    lemma_term(rim, t, times(times(p, value(d)), value(g)), value(t), 2, 0);
    lemma_terms(
        whole(2) * disc * t,
        rim * t,
        times(flat + flat, value(t)),
        times(times(times(p, value(d)), value(g)), value(t)),
        4,
        3,
    );
}

/// A pair of electrodes, no term of which is lost to underflow or overflow.
pub open spec fn electrodes_kept<M: Numerics>(math: &M, cathode_m: F64, anode_m: F64, length_m: F64) -> bool {
    let (inner, outer) = (powi(math, cathode_m, 2), powi(math, anode_m, 2));
    &&& normal(inner) && normal(outer) && normal(length_m) && normal(inner + outer)
    &&& normal(pi() * (inner + outer)) && normal(pi() * (inner + outer) * length_m)
}

/// A plasma thruster's structure is its two electrodes, to within three roundings.
pub proof fn lemma_electrodes<M: Numerics>(design: ElectricThrusterDesign, math: &M, thickness_m: F64)
    requires
        design is Magnetoplasmadynamic,
        electrodes_kept(
            math,
            design->Magnetoplasmadynamic_cathode_radius_m,
            design->Magnetoplasmadynamic_anode_radius_m,
            design->Magnetoplasmadynamic_electrode_length_m,
        ),
    ensures
        ({
            let inner = value(powi(math, design->Magnetoplasmadynamic_cathode_radius_m, 2));
            let outer = value(powi(math, design->Magnetoplasmadynamic_anode_radius_m, 2));
            about(
                value(design.geometry_volume_m3(math, thickness_m)),
                times(
                    times(value(pi()), inner) + times(value(pi()), outer),
                    value(design->Magnetoplasmadynamic_electrode_length_m),
                ),
                3,
            )
        }),
{
    lemma_constants();
    let inner = powi(math, design->Magnetoplasmadynamic_cathode_radius_m, 2);
    let outer = powi(math, design->Magnetoplasmadynamic_anode_radius_m, 2);
    let l = design->Magnetoplasmadynamic_electrode_length_m;
    lemma_own(pi());
    lemma_own(inner);
    lemma_own(outer);
    lemma_own(l);
    lemma_terms(inner, outer, value(inner), value(outer), 0, 0);
    lemma_term(pi(), inner + outer, value(pi()), value(inner) + value(outer), 0, 1);
    lemma_times_adds(value(inner), value(outer), value(pi()));
    lemma_term(pi() * (inner + outer), l, times(value(pi()), value(inner) + value(outer)), value(l), 2, 0);
}

/// A channel, no term of which is lost to underflow or overflow.
pub open spec fn channel_kept<M: Numerics>(math: &M, inner_m: F64, outer_m: F64, length_m: F64, thickness_m: F64) -> bool {
    let (least, whole_disc) = (powi(math, inner_m, 2), powi(math, outer_m, 2));
    let ring = pi() * (whole_disc - least);
    let round = whole(2) * pi() * (outer_m + inner_m);
    &&& normal(inner_m) && normal(outer_m) && normal(length_m) && normal(thickness_m)
    &&& normal(least) && normal(whole_disc) && least.units() <= whole_disc.units() && normal(whole_disc - least)
    &&& normal(ring) && normal(whole(2) * ring) && normal(whole(2) * ring * thickness_m)
    &&& normal(whole(2) * pi()) && normal(outer_m + inner_m) && normal(round) && normal(round * length_m)
    &&& normal(round * length_m * thickness_m)
    &&& normal(round * length_m * thickness_m + whole(2) * ring * thickness_m)
}

/// A Hall thruster's structure is the two mantles of its channel and the rings at its ends,
/// to within six roundings; its coil is wound at the mean radius of the channel.
pub proof fn lemma_channel_walls<M: Numerics>(design: ElectricThrusterDesign, math: &M, thickness_m: F64)
    requires
        design is HallEffect,
        channel_kept(
            math,
            design->HallEffect_channel_inner_radius_m,
            design->HallEffect_channel_outer_radius_m,
            design->HallEffect_channel_length_m,
            thickness_m,
        ),
    ensures
        ({
            let (inner, outer) = (design->HallEffect_channel_inner_radius_m, design->HallEffect_channel_outer_radius_m);
            let (l, t, p) = (value(design->HallEffect_channel_length_m), value(thickness_m), value(pi()));
            let ring = times(p, value(powi(math, outer, 2)) - value(powi(math, inner, 2)));
            about(
                value(design.geometry_volume_m3(math, thickness_m)),
                times(times(times(p + p, value(outer) + value(inner)), l), t) + times(ring + ring, t),
                6,
            )
        }),
        design.field_coil_volume_m3() == coil_volume_m3(
            design->HallEffect_magnetic_field_t,
            design->HallEffect_channel_length_m,
            design->HallEffect_coil_current_density_a_m2,
            dec(5, 1) * (design->HallEffect_channel_inner_radius_m + design->HallEffect_channel_outer_radius_m),
        ),
{
    lemma_constants();
    let (inner, outer) = (design->HallEffect_channel_inner_radius_m, design->HallEffect_channel_outer_radius_m);
    let (l, t, p) = (design->HallEffect_channel_length_m, thickness_m, value(pi()));
    let (least, greatest) = (powi(math, inner, 2), powi(math, outer, 2));
    let ring = pi() * (greatest - least);
    let round = whole(2) * pi() * (outer + inner);
    lemma_whole_value(2);
    lemma_own(whole(2));
    lemma_own(pi());
    lemma_own(inner);
    lemma_own(outer);
    lemma_own(l);
    lemma_own(t);
    lemma_own(least);
    lemma_own(greatest);
    let flat = times(p, value(greatest) - value(least));
    lemma_difference_about(greatest, least);
    lemma_term(pi(), greatest - least, p, value(greatest) - value(least), 0, 1);
    lemma_term(whole(2), ring, 2 as real, flat, 0, 2);
    lemma_times_one(flat);
    lemma_term(whole(2) * ring, t, flat + flat, value(t), 3, 0);
    lemma_term(whole(2), pi(), 2 as real, p, 0, 0);
    lemma_times_one(p);
    lemma_terms(outer, inner, value(outer), value(inner), 0, 0);
    let both = value(outer) + value(inner);
    lemma_term(whole(2) * pi(), outer + inner, p + p, both, 1, 1);
    lemma_term(round, l, times(p + p, both), value(l), 3, 0);
    lemma_term(round * l, t, times(times(p + p, both), value(l)), value(t), 4, 0);
    lemma_terms(
        round * l * t,
        whole(2) * ring * t,
        times(times(times(p + p, both), value(l)), value(t)),
        times(flat + flat, value(t)),
        5,
        4,
    );
}

/// A heated thruster's structure is its chamber wall, and only a Hall thruster has a coil.
pub proof fn lemma_heated_walls<M: Numerics>(design: ElectricThrusterDesign, math: &M, thickness_m: F64)
    ensures
        design is Resistojet ==> design.geometry_volume_m3(math, thickness_m) == thermal_chamber_volume(
            math,
            design->Resistojet_chamber_radius_m,
            design->Resistojet_chamber_length_m,
            thickness_m,
        ),
        design is Arcjet ==> design.geometry_volume_m3(math, thickness_m) == thermal_chamber_volume(
            math,
            design->Arcjet_chamber_radius_m,
            design->Arcjet_chamber_length_m,
            thickness_m,
        ),
        !(design is HallEffect) ==> design.field_coil_volume_m3() == zero(),
{
}

} // verus!
