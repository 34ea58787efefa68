//! Chemical propellants: reference chamber thermo and mixture-ratio tables.
//!
//! Performance is derived from these properties, never looked up by name.
use crate::error::{alike, bad_spec, invalid_spec, outcome, seen, Fault, PropulsionError};
use crate::float::{dec, lemma_one, whole, zero, F64};
use crate::float::decimals::{lemma_decimal, lemma_whole};
use crate::float::exact::{lemma_add_zero, lemma_close_difference, lemma_div_self, lemma_mul_one, lemma_sub_self};
use crate::float::magnitude::{lemma_mag_increasing, mag, INF_BITS};
use crate::float::nearness::{
    lemma_near, lemma_near_exact, lemma_near_order, lemma_parts, lemma_pattern_of, lemma_signed, near,
};
use crate::float::order::{lemma_product, lemma_quotient};
use crate::numerics::{repeatable, shortest, shortest_text, Numerics};
use crate::text::join;
use vstd::arithmetic::power2::{lemma2_to64, lemma_pow2_adds, lemma_pow2_pos, pow2};
use vstd::arithmetic::power::pow;
use vstd::prelude::*;

verus! {

/// Chemical propellants. A pair carries reference chamber thermo at its design
/// mixture ratio; off-reference ratios interpolate its mixture table. The thermo of the
/// reaction-control fluids is data: see [`FluidThermo`].
#[derive(Debug, Clone, Copy, PartialEq, Eq, Hash, Structural)]
pub enum Propellant {
    /// LOX/RP-1, reference oxidizer-to-fuel ratio 2.7.
    LoxRp1,
    /// LOX/methane, reference ratio 3.5.
    LoxMethane,
    /// LOX/hydrogen, reference ratio 6.0.
    LoxHydrogen,
    /// NTO/MMH storable hypergolic, reference ratio 1.65.
    NtoMmh,
    /// Ammonium-perchlorate composite solid propellant.
    SolidApcp,
    /// Catalytically decomposed hydrazine.
    MonopropHydrazine,
    /// Stored nitrogen.
    ColdGasNitrogen,
    /// Stored helium.
    ColdGasHelium,
}

/// Thermo of the reaction-control fluids.
#[derive(Debug, Clone, Copy, PartialEq)]
pub struct FluidThermo {
    /// Catalytically decomposed hydrazine.
    pub hydrazine: PropellantThermo,
    /// Stored nitrogen.
    pub nitrogen: PropellantThermo,
    /// Stored helium.
    pub helium: PropellantThermo,
}

/// Reference chamber thermo of a propellant.
#[derive(Debug, Clone, Copy, PartialEq)]
pub struct PropellantThermo {
    /// Ratio of specific heats of the chamber products.
    pub gamma: F64,
    /// Chamber (adiabatic flame) temperature at the reference ratio (K).
    pub chamber_temp_k: F64,
    /// Specific gas constant of the products (J/kg/K).
    pub gas_constant_j_kg_k: F64,
    /// Bulk or storable density for feed-power bookkeeping (kg/m^3).
    pub bulk_density_kg_m3: F64,
    /// Characteristic chamber length Vc/At (m).
    pub characteristic_length_m: F64,
    /// Published characteristic velocity used as the calibration anchor.
    pub reference_c_star_mps: F64,
}

/// One row of a mixture table.
#[derive(Debug, Clone, Copy)]
pub struct MixtureRow {
    /// Oxidizer-to-fuel ratio.
    pub ratio: F64,
    pub chamber_temp_k: F64,
    pub gamma: F64,
    pub gas_constant_j_kg_k: F64,
}

/// Three rows that bracket the reference ratio.
#[derive(Debug, Clone, Copy)]
pub struct MixtureTable {
    pub low: MixtureRow,
    pub reference: MixtureRow,
    pub high: MixtureRow,
}

pub open spec fn thermo_row_spec(
    gamma: F64,
    temp: F64,
    gas: F64,
    density: F64,
    length: F64,
    c_star: F64,
) -> PropellantThermo {
    PropellantThermo {
        gamma,
        chamber_temp_k: temp,
        gas_constant_j_kg_k: gas,
        bulk_density_kg_m3: density,
        characteristic_length_m: length,
        reference_c_star_mps: c_star,
    }
}

#[verifier::when_used_as_spec(thermo_row_spec)]
pub fn thermo_row(gamma: F64, temp: F64, gas: F64, density: F64, length: F64, c_star: F64) -> (r: PropellantThermo)
    ensures
        r == thermo_row(gamma, temp, gas, density, length, c_star),
{
    PropellantThermo {
        gamma,
        chamber_temp_k: temp,
        gas_constant_j_kg_k: gas,
        bulk_density_kg_m3: density,
        characteristic_length_m: length,
        reference_c_star_mps: c_star,
    }
}

pub open spec fn row_spec(ratio: F64, temp: F64, gamma: F64, gas: F64) -> MixtureRow {
    MixtureRow { ratio, chamber_temp_k: temp, gamma, gas_constant_j_kg_k: gas }
}

#[verifier::when_used_as_spec(row_spec)]
pub fn row(ratio: F64, temp: F64, gamma: F64, gas: F64) -> (r: MixtureRow)
    ensures
        r == row(ratio, temp, gamma, gas),
{
    MixtureRow { ratio, chamber_temp_k: temp, gamma, gas_constant_j_kg_k: gas }
}

/// Chamber thermo between two rows of a table, linear in the ratio.
pub open spec fn interpolate_spec(
    reference: PropellantThermo,
    low: MixtureRow,
    high: MixtureRow,
    ratio: F64,
) -> PropellantThermo {
    let span = (high.ratio - low.ratio).max(dec(1, 12));
    let fraction = (ratio - low.ratio) / span;
    PropellantThermo {
        gamma: low.gamma + (high.gamma - low.gamma) * fraction,
        chamber_temp_k: low.chamber_temp_k + (high.chamber_temp_k - low.chamber_temp_k) * fraction,
        gas_constant_j_kg_k: low.gas_constant_j_kg_k + (high.gas_constant_j_kg_k - low.gas_constant_j_kg_k) * fraction,
        bulk_density_kg_m3: reference.bulk_density_kg_m3,
        characteristic_length_m: reference.characteristic_length_m,
        reference_c_star_mps: reference.reference_c_star_mps,
    }
}

#[verifier::when_used_as_spec(interpolate_spec)]
pub fn interpolate(reference: PropellantThermo, low: MixtureRow, high: MixtureRow, ratio: F64) -> (r: PropellantThermo)
    ensures
        r == interpolate(reference, low, high, ratio),
{
    let span = (high.ratio - low.ratio).max(dec(1, 12));
    let fraction = (ratio - low.ratio) / span;
    PropellantThermo {
        gamma: low.gamma + (high.gamma - low.gamma) * fraction,
        chamber_temp_k: low.chamber_temp_k + (high.chamber_temp_k - low.chamber_temp_k) * fraction,
        gas_constant_j_kg_k: low.gas_constant_j_kg_k + (high.gas_constant_j_kg_k - low.gas_constant_j_kg_k) * fraction,
        bulk_density_kg_m3: reference.bulk_density_kg_m3,
        characteristic_length_m: reference.characteristic_length_m,
        reference_c_star_mps: reference.reference_c_star_mps,
    }
}

/// The refusal of a ratio outside a table.
pub open spec fn ratio_outside<M: Numerics>(math: &M, table: MixtureTable, ratio: F64) -> Fault {
    Fault::InvalidSpec(
        "mixture ratio "@ + shortest_text(math, ratio) + " outside the modeled range ["@ + shortest_text(math, table.low.ratio)
            + ", "@ + shortest_text(math, table.high.ratio) + "]"@,
    )
}

impl Propellant {
    /// [`Self::is_tabulated`] in contracts.
    pub open spec fn is_tabulated_spec(self) -> bool {
        match self {
            Propellant::MonopropHydrazine | Propellant::ColdGasNitrogen | Propellant::ColdGasHelium => false,
            _ => true,
        }
    }

    /// Whether reference thermo is tabulated here.
    #[verifier::when_used_as_spec(is_tabulated_spec)]
    pub fn is_tabulated(self) -> (r: bool)
        ensures
            r == self.is_tabulated(),
    {
        match self {
            Propellant::MonopropHydrazine | Propellant::ColdGasNitrogen | Propellant::ColdGasHelium => false,
            _ => true,
        }
    }

    pub open spec fn thermo_spec(self) -> PropellantThermo {
        match self {
            Propellant::LoxRp1 => thermo_row(dec(124, 2), whole(3670), whole(378), whole(1030), dec(11, 1), whole(1770)),
            Propellant::LoxMethane => thermo_row(dec(122, 2), whole(3680), whole(405), whole(830), whole(1), whole(1830)),
            Propellant::LoxHydrogen => thermo_row(dec(122, 2), whole(3560), whole(616), whole(360), dec(8, 1), whole(2300)),
            Propellant::NtoMmh => thermo_row(dec(125, 2), whole(3400), whole(380), whole(1190), dec(9, 1), whole(1700)),
            _ => thermo_row(dec(120, 2), whole(3400), whole(300), whole(1770), zero(), whole(1520)),
        }
    }

    /// Reference thermo of a tabulated propellant.
    #[verifier::when_used_as_spec(thermo_spec)]
    pub fn thermo(self) -> (r: PropellantThermo)
        requires
            self.is_tabulated(),
        ensures
            r == self.thermo(),
    {
        match self {
            Propellant::LoxRp1 => thermo_row(dec(124, 2), whole(3670), whole(378), whole(1030), dec(11, 1), whole(1770)),
            Propellant::LoxMethane => thermo_row(dec(122, 2), whole(3680), whole(405), whole(830), whole(1), whole(1830)),
            Propellant::LoxHydrogen => thermo_row(dec(122, 2), whole(3560), whole(616), whole(360), dec(8, 1), whole(2300)),
            Propellant::NtoMmh => thermo_row(dec(125, 2), whole(3400), whole(380), whole(1190), dec(9, 1), whole(1700)),
            _ => thermo_row(dec(120, 2), whole(3400), whole(300), whole(1770), zero(), whole(1520)),
        }
    }

    /// [`Self::thermo_among`] in contracts.
    pub open spec fn thermo_among_spec(self, fluids: &FluidThermo) -> PropellantThermo {
        match self {
            Propellant::MonopropHydrazine => fluids.hydrazine,
            Propellant::ColdGasNitrogen => fluids.nitrogen,
            Propellant::ColdGasHelium => fluids.helium,
            _ => self.thermo(),
        }
    }

    /// Reference thermo of any propellant, given that of the reaction-control fluids.
    #[verifier::when_used_as_spec(thermo_among_spec)]
    pub fn thermo_among(self, fluids: &FluidThermo) -> (r: PropellantThermo)
        ensures
            r == self.thermo_among(fluids),
    {
        match self {
            Propellant::MonopropHydrazine => fluids.hydrazine,
            Propellant::ColdGasNitrogen => fluids.nitrogen,
            Propellant::ColdGasHelium => fluids.helium,
            _ => self.thermo(),
        }
    }

    pub open spec fn is_solid_spec(self) -> bool {
        self == Propellant::SolidApcp
    }

    /// True for the solid grain path (grain geometry instead of feed).
    #[verifier::when_used_as_spec(is_solid_spec)]
    pub fn is_solid(self) -> (r: bool)
        ensures
            r == self.is_solid(),
    {
        matches!(self, Propellant::SolidApcp)
    }

    pub open spec fn is_cold_gas_spec(self) -> bool {
        self == Propellant::ColdGasNitrogen || self == Propellant::ColdGasHelium
    }

    /// True for the stored gases, which have no chamber.
    #[verifier::when_used_as_spec(is_cold_gas_spec)]
    pub fn is_cold_gas(self) -> (r: bool)
        ensures
            r == self.is_cold_gas(),
    {
        matches!(self, Propellant::ColdGasNitrogen | Propellant::ColdGasHelium)
    }

    pub open spec fn reference_mixture_ratio_spec(self) -> Option<F64> {
        match self {
            Propellant::LoxRp1 => Some(dec(27, 1)),
            Propellant::LoxMethane => Some(dec(35, 1)),
            Propellant::LoxHydrogen => Some(whole(6)),
            Propellant::NtoMmh => Some(dec(165, 2)),
            _ => None,
        }
    }

    /// Reference (design) oxidizer-to-fuel ratio of a pair.
    #[verifier::when_used_as_spec(reference_mixture_ratio_spec)]
    pub fn reference_mixture_ratio(self) -> (r: Option<F64>)
        ensures
            r == self.reference_mixture_ratio(),
    {
        match self {
            Propellant::LoxRp1 => Some(dec(27, 1)),
            Propellant::LoxMethane => Some(dec(35, 1)),
            Propellant::LoxHydrogen => Some(whole(6)),
            Propellant::NtoMmh => Some(dec(165, 2)),
            _ => None,
        }
    }

    pub open spec fn mixture_table_spec(self) -> Option<MixtureTable> {
        match self {
            Propellant::LoxRp1 => Some(
                MixtureTable {
                    low: row(whole(2), whole(3450), dec(125, 2), whole(360)),
                    reference: row(dec(27, 1), whole(3670), dec(124, 2), whole(378)),
                    high: row(dec(34, 1), whole(3520), dec(123, 2), whole(390)),
                },
            ),
            Propellant::LoxMethane => Some(
                MixtureTable {
                    low: row(dec(28, 1), whole(3500), dec(123, 2), whole(430)),
                    reference: row(dec(35, 1), whole(3680), dec(122, 2), whole(405)),
                    high: row(dec(42, 1), whole(3600), dec(121, 2), whole(385)),
                },
            ),
            Propellant::LoxHydrogen => Some(
                MixtureTable {
                    low: row(dec(45, 1), whole(3300), dec(124, 2), whole(700)),
                    reference: row(whole(6), whole(3560), dec(122, 2), whole(616)),
                    high: row(dec(75, 1), whole(3650), dec(120, 2), whole(540)),
                },
            ),
            Propellant::NtoMmh => Some(
                MixtureTable {
                    low: row(dec(130, 2), whole(3200), dec(126, 2), whole(400)),
                    reference: row(dec(165, 2), whole(3400), dec(125, 2), whole(380)),
                    high: row(whole(2), whole(3450), dec(124, 2), whole(365)),
                },
            ),
            _ => None,
        }
    }

    /// Mixture table: representative trend values that bracket the reference point.
    #[verifier::when_used_as_spec(mixture_table_spec)]
    pub fn mixture_table(self) -> (r: Option<MixtureTable>)
        ensures
            r == self.mixture_table(),
    {
        match self {
            Propellant::LoxRp1 => Some(
                MixtureTable {
                    low: row(whole(2), whole(3450), dec(125, 2), whole(360)),
                    reference: row(dec(27, 1), whole(3670), dec(124, 2), whole(378)),
                    high: row(dec(34, 1), whole(3520), dec(123, 2), whole(390)),
                },
            ),
            Propellant::LoxMethane => Some(
                MixtureTable {
                    low: row(dec(28, 1), whole(3500), dec(123, 2), whole(430)),
                    reference: row(dec(35, 1), whole(3680), dec(122, 2), whole(405)),
                    high: row(dec(42, 1), whole(3600), dec(121, 2), whole(385)),
                },
            ),
            Propellant::LoxHydrogen => Some(
                MixtureTable {
                    low: row(dec(45, 1), whole(3300), dec(124, 2), whole(700)),
                    reference: row(whole(6), whole(3560), dec(122, 2), whole(616)),
                    high: row(dec(75, 1), whole(3650), dec(120, 2), whole(540)),
                },
            ),
            Propellant::NtoMmh => Some(
                MixtureTable {
                    low: row(dec(130, 2), whole(3200), dec(126, 2), whole(400)),
                    reference: row(dec(165, 2), whole(3400), dec(125, 2), whole(380)),
                    high: row(whole(2), whole(3450), dec(124, 2), whole(365)),
                },
            ),
            _ => None,
        }
    }

    /// What is wrong with a mixture ratio, if anything: a ratio where there is no table, or
    /// one outside it.
    pub open spec fn mixture_fault<M: Numerics>(self, math: &M, mixture_ratio: Option<F64>) -> Option<Fault> {
        match (self.mixture_table(), mixture_ratio) {
            (None, Some(_)) => Some(bad_spec("solid grain chemistry is fixed; no mixture knob")),
            (_, None) => None,
            (Some(table), Some(ratio)) => {
                if !ratio.is_finite() {
                    Some(bad_spec("mixture ratio must be finite"))
                } else if ratio < table.low.ratio || ratio > table.high.ratio {
                    Some(ratio_outside(math, table, ratio))
                } else {
                    None
                }
            },
        }
    }

    /// Validates a mixture ratio.
    pub fn check_mixture<M: Numerics>(self, math: &M, mixture_ratio: Option<F64>) -> (r: Result<(), PropulsionError>)
        ensures
            repeatable(math) ==> seen(r) == outcome(self.mixture_fault(math, mixture_ratio)),
            alike(seen(r), outcome(self.mixture_fault(math, mixture_ratio))),
    {
        let ratio: F64 = match mixture_ratio {
            Some(ratio) => ratio,
            None => {
                return Ok(());
            },
        };
        let table: MixtureTable = match self.mixture_table() {
            Some(table) => table,
            None => {
                return Err(invalid_spec("solid grain chemistry is fixed; no mixture knob"));
            },
        };
        if !ratio.is_finite() {
            return Err(invalid_spec("mixture ratio must be finite"));
        }
        if ratio < table.low.ratio || ratio > table.high.ratio {
            let text: String = join("mixture ratio ", shortest(math, ratio).as_str());
            let text: String = join(text.as_str(), " outside the modeled range [");
            let text: String = join(text.as_str(), shortest(math, table.low.ratio).as_str());
            let text: String = join(text.as_str(), ", ");
            let text: String = join(text.as_str(), shortest(math, table.high.ratio).as_str());
            let text: String = join(text.as_str(), "]");
            return Err(PropulsionError::InvalidSpec(text));
        }
        Ok(())
    }

    /// [`Self::mixed_thermo`] in contracts.
    pub open spec fn mixed_thermo_spec(self, fluids: &FluidThermo, mixture_ratio: Option<F64>) -> PropellantThermo {
        match (self.mixture_table(), mixture_ratio) {
            (Some(table), Some(ratio)) => if ratio <= table.reference.ratio {
                interpolate(self.thermo(), table.low, table.reference, ratio)
            } else if ratio <= table.high.ratio {
                interpolate(self.thermo(), table.reference, table.high, ratio)
            } else {
                self.thermo()
            },
            _ => self.thermo_among(fluids),
        }
    }

    /// Chamber thermo at a ratio that the table covers: linear between its rows.
    #[verifier::when_used_as_spec(mixed_thermo_spec)]
    pub fn mixed_thermo(self, fluids: &FluidThermo, mixture_ratio: Option<F64>) -> (r: PropellantThermo)
        ensures
            r == self.mixed_thermo(fluids, mixture_ratio),
    {
        match (self.mixture_table(), mixture_ratio) {
            (Some(table), Some(ratio)) => if ratio <= table.reference.ratio {
                interpolate(self.thermo(), table.low, table.reference, ratio)
            } else if ratio <= table.high.ratio {
                interpolate(self.thermo(), table.reference, table.high, ratio)
            } else {
                self.thermo()
            },
            _ => self.thermo_among(fluids),
        }
    }

    /// Chamber thermo at an oxidizer-to-fuel ratio: linear between the rows of
    /// the table, a refusal outside it; `None` selects the reference ratio.
    pub open spec fn thermo_at<M: Numerics>(
        self,
        math: &M,
        fluids: &FluidThermo,
        mixture_ratio: Option<F64>,
    ) -> Result<PropellantThermo, Fault> {
        match self.mixture_fault(math, mixture_ratio) {
            Some(fault) => Err(fault),
            None => Ok(self.mixed_thermo(fluids, mixture_ratio)),
        }
    }

    /// Chamber thermo at an oxidizer-to-fuel ratio.
    pub fn thermo_at_mixture<M: Numerics>(
        self,
        math: &M,
        fluids: &FluidThermo,
        mixture_ratio: Option<F64>,
    ) -> (r: Result<PropellantThermo, PropulsionError>)
        ensures
            repeatable(math) ==> seen(r) == self.thermo_at(math, fluids, mixture_ratio),
            r is Ok ==> seen(r) == self.thermo_at(math, fluids, mixture_ratio),
            alike(seen(r), self.thermo_at(math, fluids, mixture_ratio)),
    {
        self.check_mixture(math, mixture_ratio)?;
        Ok(self.mixed_thermo(fluids, mixture_ratio))
    }
}

/// Rows close enough for differences of their values to be exact.
pub open spec fn close(a: F64, b: F64) -> bool {
    a.is_finite() && b.is_finite() && 0 < a.units() <= 2 * b.units() && 0 < b.units() <= 2 * a.units()
}

/// Rows with close values whose ratios lie an eighth apart or more.
pub open spec fn neighbours(low: MixtureRow, high: MixtureRow) -> bool {
    &&& close(low.ratio, high.ratio)
    &&& close(low.gamma, high.gamma)
    &&& close(low.chamber_temp_k, high.chamber_temp_k)
    &&& close(low.gas_constant_j_kg_k, high.gas_constant_j_kg_k)
    &&& low.ratio.units() + pow2(1071) <= high.ratio.units()
}

/// The thermo of a propellant at a row of its table.
pub open spec fn at_row(reference: PropellantThermo, row: MixtureRow) -> PropellantThermo {
    PropellantThermo {
        gamma: row.gamma,
        chamber_temp_k: row.chamber_temp_k,
        gas_constant_j_kg_k: row.gas_constant_j_kg_k,
        ..reference
    }
}

/// Interpolation between two neighbouring rows gives back each of them at its own
/// ratio, to the last bit.
pub proof fn lemma_interpolation_ends(reference: PropellantThermo, low: MixtureRow, high: MixtureRow)
    requires
        neighbours(low, high),
    ensures
        interpolate(reference, low, high, low.ratio) == at_row(reference, low),
        interpolate(reference, low, high, high.ratio) == at_row(reference, high),
{
    let d = high.ratio - low.ratio;
    lemma_close_difference(high.ratio, low.ratio);
    lemma_parts(d);
    lemma_decimal(1, 12);
    reveal_with_fuel(pow, 13);
    lemma_pow2_adds(3, 1071);
    lemma2_to64();
    lemma_pow2_pos(1071);
    lemma_near_exact(d.units(), 1, d.pattern());
    assert(d == near(false, d.units(), 1));
    let (apart, tens) = (d.units(), pow(10, 12));
    assert(pow2(1074) * 1 <= apart * tens) by (nonlinear_arith)
        requires
            pow2(1074) == 8 * pow2(1071),
            apart >= pow2(1071),
            pow2(1071) > 0,
            tens >= 8,
    ;
    lemma_near_order(false, pow2(1074) as int, tens, false, apart, 1);
    assert(d.max(dec(1, 12)) == d);
    lemma_div_self(d);
    lemma_sub_self(low.ratio);
    lemma_one();
    lemma_parts(zero());
    lemma_quotient(zero(), d);
    assert(mag(0) == 0 && 0 * pow2(1074) == 0);
    lemma_near_exact(0, mag(d.pattern()) as int, 0);
    assert(zero() / d == zero());
    lemma_ends(low.gamma, high.gamma);
    lemma_ends(low.chamber_temp_k, high.chamber_temp_k);
    lemma_ends(low.gas_constant_j_kg_k, high.gas_constant_j_kg_k);
}

proof fn lemma_ends(low: F64, high: F64)
    requires
        close(low, high),
    ensures
        low + (high - low) * whole(1) == high,
        low + (high - low) * zero() == low,
{
    lemma_close_difference(high, low);
    lemma_parts(high - low);
    lemma_mul_one(high - low);
    lemma_one();
    lemma_parts(zero());
    let nothing = (high - low) * zero();
    lemma_product(high - low, zero());
    assert(mag(0) == 0 && mag((high - low).pattern()) * 0 == 0);
    lemma_pow2_pos(1074);
    lemma_near_exact(0, pow2(1074) as int, 0);
    lemma_signed((high - low).negative() != zero().negative(), 0);
    lemma_add_zero(low, nothing);
}

/// Where a decimal lies, in eighths.
proof fn lemma_eighths(m: u64, places: u32, least: u64, most: u64)
    requires
        places <= 2,
        0 < least <= most < 1000,
        least * pow(10, places as nat) <= 8 * m <= most * pow(10, places as nat),
    ensures
        dec(m, places).is_finite(),
        least * pow2(1071) <= dec(m, places).units() <= most * pow2(1071),
{
    lemma_decimal(m, places);
    lemma_parts(dec(m, places));
    lemma_pow2_adds(3, 1071);
    lemma2_to64();
    lemma_pow2_pos(1071);
    let unit = pow2(1071) as int;
    let tens = pow(10, places as nat);
    let p = lemma_pattern_of(least as nat, 1071);
    let q = lemma_pattern_of(most as nat, 1071);
    lemma_whole(most);
    lemma_parts(whole(most));
    assert(0 < least * unit <= most * unit && most * unit <= most * (8 * unit)) by (nonlinear_arith)
        requires
            0 < least <= most,
            unit > 0,
    ;
    if p >= INF_BITS && p > INF_BITS {
        lemma_mag_increasing(INF_BITS as nat, p);
    }
    if q >= INF_BITS && q > INF_BITS {
        lemma_mag_increasing(INF_BITS as nat, q);
    }
    lemma_near_exact(least * unit, 1, p);
    lemma_near_exact(most * unit, 1, q);
    lemma_near(false, least * unit, 1);
    lemma_near(false, most * unit, 1);
    assert((least * unit) * tens <= (m * (8 * unit)) * 1 && (m * (8 * unit)) * 1 <= (most * unit) * tens)
        by (nonlinear_arith)
        requires
            least * tens <= 8 * m <= most * tens,
            unit > 0,
    ;
    assert(m * pow2(1074) == m * (8 * unit));
    lemma_near_order(false, least * unit, 1, false, (m * pow2(1074)) as int, tens);
    lemma_near_order(false, (m * pow2(1074)) as int, tens, false, most * unit, 1);
}

proof fn lemma_wholes(a: u64, b: u64)
    requires
        0 < a <= 2 * b,
        0 < b <= 2 * a,
        a < 10_000,
        b < 10_000,
    ensures
        close(whole(a), whole(b)),
{
    lemma_whole(a);
    lemma_whole(b);
    lemma_pow2_pos(1074);
    let unit = pow2(1074) as int;
    assert(0 < a * unit <= 2 * (b * unit) && 0 < b * unit <= 2 * (a * unit)) by (nonlinear_arith)
        requires
            0 < a <= 2 * b,
            0 < b <= 2 * a,
            unit > 0,
    ;
}

proof fn lemma_tables()
    ensures
        forall|pair: Propellant|
            #![trigger pair.mixture_table()]
            pair.mixture_table() is Some ==> {
                let table = pair.mixture_table()->0;
                neighbours(table.low, table.reference) && neighbours(table.reference, table.high)
            },
{
    reveal_with_fuel(pow, 3);
    lemma_pow2_pos(1071);
    lemma_pow2_adds(3, 1071);
    lemma2_to64();
    lemma_whole(2);
    lemma_whole(6);
    lemma_eighths(27, 1, 21, 22);
    lemma_eighths(34, 1, 27, 28);
    lemma_eighths(28, 1, 22, 23);
    lemma_eighths(35, 1, 28, 28);
    lemma_eighths(42, 1, 33, 34);
    lemma_eighths(45, 1, 36, 36);
    lemma_eighths(75, 1, 60, 60);
    lemma_eighths(130, 2, 10, 11);
    lemma_eighths(165, 2, 13, 14);
    lemma_eighths(120, 2, 9, 10);
    lemma_eighths(121, 2, 9, 10);
    lemma_eighths(122, 2, 9, 10);
    lemma_eighths(123, 2, 9, 10);
    lemma_eighths(124, 2, 9, 10);
    lemma_eighths(125, 2, 10, 10);
    lemma_eighths(126, 2, 10, 11);
    lemma_wholes(3450, 3670);
    lemma_wholes(3670, 3520);
    lemma_wholes(360, 378);
    lemma_wholes(378, 390);
    lemma_wholes(3500, 3680);
    lemma_wholes(3680, 3600);
    lemma_wholes(430, 405);
    lemma_wholes(405, 385);
    lemma_wholes(3300, 3560);
    lemma_wholes(3560, 3650);
    lemma_wholes(700, 616);
    lemma_wholes(616, 540);
    lemma_wholes(3200, 3400);
    lemma_wholes(3400, 3450);
    lemma_wholes(400, 380);
    lemma_wholes(380, 365);
}

/// The reference ratio of a pair reproduces its reference thermo to the last bit,
/// and so does every row of its table the values of that row.
pub proof fn lemma_rows_reproduced<M: Numerics>(pair: Propellant, math: &M, fluids: &FluidThermo)
    requires
        pair.mixture_table() is Some,
    ensures
        ({
            let table = pair.mixture_table()->0;
            &&& pair.reference_mixture_ratio() == Some(table.reference.ratio)
            &&& pair.thermo_at(math, fluids, pair.reference_mixture_ratio()) == Ok::<PropellantThermo, Fault>(pair.thermo())
            &&& pair.thermo_at(math, fluids, Some(table.low.ratio)) == Ok::<PropellantThermo, Fault>(
                at_row(pair.thermo(), table.low),
            )
            &&& pair.thermo_at(math, fluids, Some(table.high.ratio)) == Ok::<PropellantThermo, Fault>(
                at_row(pair.thermo(), table.high),
            )
        }),
{
    let table = pair.mixture_table()->0;
    lemma_tables();
    lemma_pow2_pos(1071);
    lemma_interpolation_ends(pair.thermo(), table.low, table.reference);
    lemma_interpolation_ends(pair.thermo(), table.reference, table.high);
    lemma_parts(table.low.ratio);
    lemma_parts(table.reference.ratio);
    lemma_parts(table.high.ratio);
    assert(at_row(pair.thermo(), table.reference) == pair.thermo());
}

} // verus!
