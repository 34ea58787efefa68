//! Chamber and nozzle structural materials and cooling topologies: physical
//! properties that size walls and gate pressure and duration.
use crate::error::{checks, outcome, require_positive, seen, Fault, PropulsionError};
use crate::float::{big, dec, whole, F64};
use vstd::prelude::*;

verus! {

/// Structural material: density and strength size the walls, temperature gates
/// the cooling mode.
#[derive(Debug, Clone, Copy, PartialEq)]
pub struct ChamberMaterial {
    pub density_kg_m3: F64,
    /// Yield strength for thin-wall sizing (Pa).
    pub yield_strength_pa: F64,
    /// Maximum service wall temperature (K).
    pub max_wall_temp_k: F64,
}

impl ChamberMaterial {
    /// [`regen_alloy`] in contracts.
    pub open spec fn regen_alloy_spec() -> ChamberMaterial {
        ChamberMaterial {
            density_kg_m3: whole(8900),
            yield_strength_pa: big(300, 6),
            max_wall_temp_k: whole(900),
        }
    }

    /// Regeneratively cooled copper-alloy liner class.
    #[verifier::when_used_as_spec(regen_alloy_spec)]
    pub fn regen_alloy() -> (r: ChamberMaterial)
        ensures
            r == Self::regen_alloy(),
    {
        ChamberMaterial {
            density_kg_m3: whole(8900),
            yield_strength_pa: big(300, 6),
            max_wall_temp_k: whole(900),
        }
    }

    /// [`nickel_superalloy`] in contracts.
    pub open spec fn nickel_superalloy_spec() -> ChamberMaterial {
        ChamberMaterial {
            density_kg_m3: whole(8190),
            yield_strength_pa: big(1000, 6),
            max_wall_temp_k: whole(1350),
        }
    }

    /// Nickel-superalloy class for high-pressure chambers.
    #[verifier::when_used_as_spec(nickel_superalloy_spec)]
    pub fn nickel_superalloy() -> (r: ChamberMaterial)
        ensures
            r == Self::nickel_superalloy(),
    {
        ChamberMaterial {
            density_kg_m3: whole(8190),
            yield_strength_pa: big(1000, 6),
            max_wall_temp_k: whole(1350),
        }
    }

    /// [`radiative_niobium`] in contracts.
    pub open spec fn radiative_niobium_spec() -> ChamberMaterial {
        ChamberMaterial {
            density_kg_m3: whole(8570),
            yield_strength_pa: big(300, 6),
            max_wall_temp_k: whole(1750),
        }
    }

    /// Radiative niobium-alloy class (low strength, high temperature).
    #[verifier::when_used_as_spec(radiative_niobium_spec)]
    pub fn radiative_niobium() -> (r: ChamberMaterial)
        ensures
            r == Self::radiative_niobium(),
    {
        ChamberMaterial {
            density_kg_m3: whole(8570),
            yield_strength_pa: big(300, 6),
            max_wall_temp_k: whole(1750),
        }
    }

    /// [`ablative`] in contracts.
    pub open spec fn ablative_spec() -> ChamberMaterial {
        ChamberMaterial {
            density_kg_m3: whole(1800),
            yield_strength_pa: big(100, 6),
            max_wall_temp_k: whole(1800),
        }
    }

    /// Ablative silica/phenolic class (sacrificial liner, duration-limited).
    #[verifier::when_used_as_spec(ablative_spec)]
    pub fn ablative() -> (r: ChamberMaterial)
        ensures
            r == Self::ablative(),
    {
        ChamberMaterial {
            density_kg_m3: whole(1800),
            yield_strength_pa: big(100, 6),
            max_wall_temp_k: whole(1800),
        }
    }

    /// What is wrong with the material, if anything.
    pub open spec fn fault(self) -> Option<Fault> {
        checks()
            .positive(self.density_kg_m3, "material density")
            .positive(self.yield_strength_pa, "material yield strength")
            .positive(self.max_wall_temp_k, "material max wall temperature")
            .fault
    }

    pub fn validate(self) -> (r: Result<(), PropulsionError>)
        ensures
            seen(r) == outcome(self.fault()),
    {
        require_positive(self.density_kg_m3, "material density")?;
        require_positive(self.yield_strength_pa, "material yield strength")?;
        require_positive(self.max_wall_temp_k, "material max wall temperature")?;
        Ok(())
    }
}

/// Chamber cooling topology: gates attainable pressure and duration.
#[derive(Debug, Clone, Copy, PartialEq, Eq, Hash, Structural)]
pub enum CoolingMode {
    /// Fuel-cooled jacket: full cycle pressure allowed.
    Regenerative,
    /// Wall radiates: a heat-flux bound caps chamber pressure.
    Radiative,
    /// Sacrificial liner: single burns are capped.
    Ablative,
}

impl CoolingMode {
    /// [`Self::max_single_burn_s`] in contracts.
    pub open spec fn max_single_burn_s_spec(self) -> Option<F64> {
        match self {
            CoolingMode::Regenerative | CoolingMode::Radiative => None,
            CoolingMode::Ablative => Some(whole(300)),
        }
    }

    /// Maximum cumulative single-burn duration in seconds (`None` = unlimited
    /// by cooling).
    #[verifier::when_used_as_spec(max_single_burn_s_spec)]
    pub fn max_single_burn_s(self) -> (r: Option<F64>)
        ensures
            r == self.max_single_burn_s(),
    {
        match self {
            CoolingMode::Regenerative | CoolingMode::Radiative => None,
            CoolingMode::Ablative => Some(whole(300)),
        }
    }

    /// [`Self::pressure_cap_pa`] in contracts.
    pub open spec fn pressure_cap_pa_spec(self) -> Option<F64> {
        match self {
            CoolingMode::Regenerative | CoolingMode::Ablative => None,
            CoolingMode::Radiative => Some(big(8, 6)),
        }
    }

    /// Radiative heat-flux pressure cap (Pa, `None` = no cooling cap).
    #[verifier::when_used_as_spec(pressure_cap_pa_spec)]
    pub fn pressure_cap_pa(self) -> (r: Option<F64>)
        ensures
            r == self.pressure_cap_pa(),
    {
        match self {
            CoolingMode::Regenerative | CoolingMode::Ablative => None,
            CoolingMode::Radiative => Some(big(8, 6)),
        }
    }

    /// [`Self::nozzle_wall_factor`] in contracts.
    pub open spec fn nozzle_wall_factor_spec(self) -> F64 {
        match self {
            CoolingMode::Regenerative => dec(5, 1),
            CoolingMode::Radiative => dec(12, 1),
            CoolingMode::Ablative => whole(2),
        }
    }

    /// Relative nozzle wall thickness factor: cooled walls run thin, radiative
    /// needs section, ablative carries a liner.
    #[verifier::when_used_as_spec(nozzle_wall_factor_spec)]
    pub fn nozzle_wall_factor(self) -> (r: F64)
        ensures
            r == self.nozzle_wall_factor(),
    {
        match self {
            CoolingMode::Regenerative => dec(5, 1),
            CoolingMode::Radiative => dec(12, 1),
            CoolingMode::Ablative => whole(2),
        }
    }
}

} // verus!
