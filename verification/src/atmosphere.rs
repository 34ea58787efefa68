//! What the engines read of the surrounding air.
use crate::float::F64;
use vstd::prelude::*;

verus! {

/// The species basis of a well-mixed atmosphere, as far as engines read it.
#[derive(Debug, Clone, Copy, PartialEq)]
pub struct AtmosphereComposition {
    /// Specific gas constant of the mixture (J/kg/K).
    pub gas_constant_j_kg_k: F64,
    /// Mean ratio of specific heats of the mixture.
    pub mean_heat_capacity_ratio: F64,
    /// Mass fraction of free oxygen.
    pub oxygen_mass_fraction: F64,
    /// Whether every fraction is finite and non-negative with a positive total.
    pub sane: bool,
}

/// The air at one altitude.
#[derive(Debug, Clone, Copy, PartialEq)]
pub struct AtmosphereSample {
    pub pressure_pa: F64,
    pub temperature_k: F64,
    pub speed_of_sound_mps: F64,
    pub composition: AtmosphereComposition,
}

/// An altitude with what the atmosphere gave there: a sample, or why there is none.
#[derive(Debug, PartialEq)]
pub struct SampledAltitude {
    pub altitude_m: F64,
    pub sample: Result<AtmosphereSample, String>,
    /// For each Mach number of an analysis, the Mach number that the sample
    /// itself gives for the airspeed; `None` where it refuses the airspeed.
    pub solved_machs: Vec<Option<F64>>,
}

} // verus!
