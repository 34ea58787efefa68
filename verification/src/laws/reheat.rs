//! What fitting an afterburner changes: the duct's mass, and nothing of the design run.
use crate::air::{
    mass_fit_afterburner, mass_fit_combustor, mass_fit_compressor, mass_fit_fan, mass_fit_intake, mass_fit_nozzle,
    mass_fit_turbine, sea_level_density, sea_level_sound, AirReference, AirbreathingSpec, CompiledAirbreather,
};
use crate::error::Fault;
use crate::float::accuracy::{
    amount, lemma_amount, lemma_times_adds, lemma_times_commutes, lemma_times_order, lemma_zero_value, times, value,
};
use crate::float::{dec, lemma_one, whole, zero, F64};
use crate::float::errors::{
    allowance, lemma_allowance, lemma_sum_close, lemma_within_more, lemma_within_rounded, lemma_within_same,
    lemma_within_sum, size, within,
};
use crate::float::nearness::lemma_parts;
use crate::float::order::{lemma_add_commutes, lemma_add_not_negative, lemma_add_order, lemma_sum_flag, lemma_within};
use crate::numerics::{powf, Numerics};
use vstd::prelude::*;

verus! {

/// The masses of an engine beside its afterburner duct: the gas path up to the nozzle,
/// the fan, the shaft's accessories, and the rest.
pub open spec fn other_masses<M: Numerics>(
    spec: &AirbreathingSpec,
    math: &M,
    engine: &CompiledAirbreather,
) -> (F64, F64, F64, F64) {
    let flow = engine.design_flow_kg_s;
    let bypass = engine.bypass_ratio;
    let compressor_kg = if spec.cycle.is_passive() {
        zero()
    } else {
        mass_fit_compressor() * flow * spec.compressor_ratio
    };
    let turbine_kg = if spec.cycle.is_passive() {
        zero()
    } else {
        mass_fit_turbine() * flow * spec.compressor_ratio
    };
    let combustor_kg = mass_fit_combustor() * powf(math, flow, dec(7, 1));
    let intake_kg = mass_fit_intake() * spec.intake_area_m2 * spec.intake.mass_factor();
    let nozzle_kg = mass_fit_nozzle() * (engine.exit_area_core_m2 + engine.exit_area_fan_m2);
    let fan_area_m2 = if bypass > zero() {
        bypass * flow / (whole(1) + bypass) / (sea_level_density() * sea_level_sound() * dec(45, 2))
    } else {
        zero()
    };
    (
        compressor_kg + turbine_kg + combustor_kg + intake_kg + nozzle_kg,
        mass_fit_fan() * fan_area_m2,
        spec.shaft.starter.mass_kg + spec.shaft.generator.mass_kg,
        whole(150) + whole(50) * (whole(1) + bypass),
    )
}

/// The design run is dry whether or not an afterburner is fitted: engines that differ in
/// it alone agree in every design figure.
pub proof fn lemma_design_is_dry<M: Numerics>(
    spec: &AirbreathingSpec,
    plain: &AirbreathingSpec,
    math: &M,
    reference: &AirReference,
    fitted: &CompiledAirbreather,
    bare: &CompiledAirbreather,
)
    requires
        spec.afterburner,
        *plain == (AirbreathingSpec { afterburner: false, ..*spec }),
        spec.compiled(math, reference) == Ok::<CompiledAirbreather, Fault>(*fitted),
        plain.compiled(math, reference) == Ok::<CompiledAirbreather, Fault>(*bare),
    ensures
        fitted.design_flow_kg_s == bare.design_flow_kg_s,
        fitted.design_corrected_flow_kg_s == bare.design_corrected_flow_kg_s,
        fitted.exit_area_core_m2 == bare.exit_area_core_m2,
        fitted.exit_area_fan_m2 == bare.exit_area_fan_m2,
        fitted.throat_area_core_m2 == bare.throat_area_core_m2,
        fitted.design_static_thrust_n == bare.design_static_thrust_n,
        fitted.design_fuel_flow_kg_s == bare.design_fuel_flow_kg_s,
        fitted.design_isp_s == bare.design_isp_s,
        fitted.shaft_turbine_frac == bare.shaft_turbine_frac,
        fitted.shaft_reference_power_w == bare.shaft_reference_power_w,
        fitted.bypass_ratio == bare.bypass_ratio,
        ({
            let (path, fan, accessories, rest) = other_masses(spec, math, fitted);
            let duct = mass_fit_afterburner() * fitted.exit_area_core_m2;
            &&& fitted.dry_mass_kg == path + duct + fan + accessories + rest
            &&& bare.dry_mass_kg == path + zero() + fan + accessories + rest
        }),
{
    let design = spec.design_condition(reference)->Ok_0;
    assert(plain.design_condition(reference) == spec.design_condition(reference));
    assert(spec.dry() == plain.dry());
    assert(plain.design_drive(math, &design) == spec.design_drive(math, &design));
}

/// An afterburner adds the mass of its duct, eighty kilograms for each square metre of
/// core exit: the masses differ by that much, to within sixty-four roundings of the
/// greater.
pub proof fn lemma_afterburner_mass<M: Numerics>(
    spec: &AirbreathingSpec,
    plain: &AirbreathingSpec,
    math: &M,
    reference: &AirReference,
    fitted: &CompiledAirbreather,
    bare: &CompiledAirbreather,
)
    requires
        spec.afterburner,
        *plain == (AirbreathingSpec { afterburner: false, ..*spec }),
        spec.compiled(math, reference) == Ok::<CompiledAirbreather, Fault>(*fitted),
        plain.compiled(math, reference) == Ok::<CompiledAirbreather, Fault>(*bare),
        ({
            let (path, fan, accessories, rest) = other_masses(spec, math, fitted);
            amount(path) && amount(fan) && amount(accessories) && amount(rest)
        }),
        amount(whole(80) * fitted.exit_area_core_m2),
        fitted.dry_mass_kg.is_finite(),
    ensures
        size(
            value(fitted.dry_mass_kg) - value(bare.dry_mass_kg) - value(whole(80) * fitted.exit_area_core_m2),
        ) <= times(value(fitted.dry_mass_kg), allowance(64)),
{
    lemma_design_is_dry(spec, plain, math, reference, fitted, bare);
    let (path, fan, accessories, rest) = other_masses(spec, math, fitted);
    let duct = whole(80) * fitted.exit_area_core_m2;
    lemma_one();
    lemma_parts(zero());
    lemma_amount_of_zero();
    lemma_masses(path, duct, fan, accessories, rest);
    lemma_smaller(path, duct, fan, accessories, rest);
    lemma_masses(path, zero(), fan, accessories, rest);
    lemma_zero_value();
    let (x, y, d) = (value(fitted.dry_mass_kg), value(bare.dry_mass_kg), value(duct));
    let light = value(path) + value(zero()) + value(fan) + value(accessories) + value(rest);
    let heavy = value(path) + d + value(fan) + value(accessories) + value(rest);
    lemma_amount(duct);
    lemma_within_more(y, light, light, 16, heavy, 16);
    lemma_within_same(d, d);
    lemma_allowance(16, 16);
    lemma_allowance(32, 32);
    lemma_allowance(64, 0);
    // Half of the sum is left at least.
    assert(heavy <= x + x) by {
        lemma_times_order(allowance(16), (1 as real) / (2 as real), heavy);
        assert(times(heavy, (1 as real) / (2 as real)) == heavy / (2 as real)) by {
            reveal(times);
        }
    }
    assert(size(x - y - d) <= times(heavy, allowance(16)) + times(heavy, allowance(16)));
    lemma_times_order(heavy, x + x, allowance(16));
    lemma_times_adds(x, x, allowance(16));
    lemma_times_adds(allowance(16), allowance(16), x);
    lemma_times_adds(allowance(32), allowance(32), x);
    lemma_times_commutes(x, allowance(16));
    lemma_times_commutes(x, allowance(64));
}

/// Zero is an amount.
proof fn lemma_amount_of_zero()
    ensures
        amount(zero()),
{
    lemma_one();
    lemma_parts(zero());
}

/// The sum of five masses strays from the exact one by no more than sixteen roundings.
proof fn lemma_masses(path: F64, duct: F64, fan: F64, accessories: F64, rest: F64)
    requires
        amount(path),
        amount(duct),
        amount(fan),
        amount(accessories),
        amount(rest),
        (path + duct + fan + accessories + rest).is_finite(),
    ensures
        ({
            let sum = value(path) + value(duct) + value(fan) + value(accessories) + value(rest);
            within(value(path + duct + fan + accessories + rest), sum, sum, 16)
        }),
{
    lemma_partial_sums(path, duct, fan, accessories, rest);
    lemma_amount(path);
    lemma_within_same(value(path), value(path));
    lemma_added_mass(path, duct, value(path), 0);
    lemma_added_mass(path + duct, fan, value(path) + value(duct), 4);
    lemma_added_mass(path + duct + fan, accessories, value(path) + value(duct) + value(fan), 8);
    lemma_added_mass(
        path + duct + fan + accessories,
        rest,
        value(path) + value(duct) + value(fan) + value(accessories),
        12,
    );
}

/// One mass more.
proof fn lemma_added_mass(sum: F64, part: F64, exact: real, k: nat)
    requires
        amount(sum),
        amount(part),
        (sum + part).is_finite(),
        within(value(sum), exact, exact, k),
        k <= 100,
    ensures
        within(value(sum + part), exact + value(part), exact + value(part), k + 4),
{
    lemma_amount(part);
    lemma_within_same(value(part), value(part));
    lemma_within_more(value(part), value(part), value(part), 0, value(part), k);
    lemma_within_sum(value(sum), exact, value(part), value(part), exact, value(part), k);
    lemma_sum_close(sum, part);
    lemma_within_rounded(
        value(sum + part),
        value(sum) + value(part),
        exact + value(part),
        exact + value(part),
        k,
    );
}

/// If a sum of amounts is finite, so are its partial sums.
proof fn lemma_partial_sums(path: F64, duct: F64, fan: F64, accessories: F64, rest: F64)
    requires
        amount(path),
        amount(duct),
        amount(fan),
        amount(accessories),
        amount(rest),
        (path + duct + fan + accessories + rest).is_finite(),
    ensures
        amount(path + duct),
        amount(path + duct + fan),
        amount(path + duct + fan + accessories),
{
    lemma_parts(path);
    lemma_amounts_add(path, duct);
    lemma_amounts_add(path + duct, fan);
    lemma_amounts_add(path + duct + fan, accessories);
    lemma_amounts_add(path + duct + fan + accessories, rest);
    lemma_within(path + duct + fan + accessories, path + duct + fan + accessories + rest);
    lemma_within(path + duct + fan, path + duct + fan + accessories);
    lemma_within(path + duct, path + duct + fan);
}

/// A sum of numbers that are not negative is none less than either.
proof fn lemma_amounts_add(a: F64, b: F64)
    requires
        !a.negative(),
        !a.is_nan(),
        amount(b),
    ensures
        !(a + b).negative(),
        !(a + b).is_nan(),
        zero() <= a,
        a <= a + b,
{
    lemma_one();
    lemma_parts(a);
    lemma_parts(b);
    lemma_add_not_negative(a, b);
    lemma_parts(a + b);
    lemma_sum_flag(a, b);
}

/// Without the duct the sum is finite too.
proof fn lemma_smaller(path: F64, duct: F64, fan: F64, accessories: F64, rest: F64)
    requires
        amount(path),
        amount(duct),
        amount(fan),
        amount(accessories),
        amount(rest),
        (path + duct + fan + accessories + rest).is_finite(),
    ensures
        (path + zero() + fan + accessories + rest).is_finite(),
{
    lemma_amount_of_zero();
    lemma_one();
    lemma_parts(path);
    lemma_parts(duct);
    lemma_amounts_add(path, zero());
    lemma_amounts_add(path + zero(), fan);
    lemma_amounts_add(path + zero() + fan, accessories);
    lemma_amounts_add(path + zero() + fan + accessories, rest);
    lemma_amounts_add(path, duct);
    lemma_amounts_add(path + duct, fan);
    lemma_amounts_add(path + duct + fan, accessories);
    lemma_amounts_add(path + duct + fan + accessories, rest);
    lemma_add_commutes(path, zero());
    lemma_add_commutes(path, duct);
    lemma_add_order(zero(), duct, path);
    lemma_add_order(path + zero(), path + duct, fan);
    lemma_add_order(path + zero() + fan, path + duct + fan, accessories);
    lemma_add_order(path + zero() + fan + accessories, path + duct + fan + accessories, rest);
    lemma_within(
        path + zero() + fan + accessories + rest,
        path + duct + fan + accessories + rest,
    );
}

} // verus!
