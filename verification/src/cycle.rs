//! Liquid feed and power cycle topologies: pressure-rise capability, bypass
//! bookkeeping, and mass and power consequences, never thrust multipliers.
use crate::float::{big, dec, whole, zero, F64};
use vstd::prelude::*;

verus! {

/// Liquid feed and power cycle topology.
#[derive(Debug, Clone, Copy, PartialEq, Eq, Hash, Structural)]
pub enum EngineCycle {
    PressureFed,
    ElectricPump,
    GasGenerator,
    StagedCombustion,
    FullFlowStaged,
}

/// Engineering bounds and flow bookkeeping of a cycle.
#[derive(Debug, Clone, Copy, PartialEq)]
pub struct CycleLimits {
    /// Maximum chamber pressure the feed system can sustain (Pa).
    pub max_chamber_pressure_pa: F64,
    /// Gas-generator bypass as a fraction of chamber flow (0 = closed).
    pub gg_bypass_fraction: F64,
    /// Gas-generator duct temperature (K, 0 when no duct).
    pub gg_temperature_k: F64,
    /// Deep-throttle combustion-stability floor (throttle fraction).
    pub min_throttle: F64,
    /// Spool or valve first-order time constant (s).
    pub spool_tau_s: F64,
}

impl EngineCycle {
    /// [`Self::limits`] in contracts.
    pub open spec fn limits_spec(self) -> CycleLimits {
        match self {
            EngineCycle::PressureFed => CycleLimits {
                max_chamber_pressure_pa: big(3, 6),
                gg_bypass_fraction: zero(),
                gg_temperature_k: zero(),
                min_throttle: dec(30, 2),
                spool_tau_s: dec(4, 1),
            },
            EngineCycle::ElectricPump => CycleLimits {
                max_chamber_pressure_pa: big(12, 6),
                gg_bypass_fraction: zero(),
                gg_temperature_k: zero(),
                min_throttle: dec(35, 2),
                spool_tau_s: dec(3, 1),
            },
            EngineCycle::GasGenerator => CycleLimits {
                max_chamber_pressure_pa: big(21, 6),
                gg_bypass_fraction: dec(30, 3),
                gg_temperature_k: whole(1050),
                min_throttle: dec(40, 2),
                spool_tau_s: dec(6, 1),
            },
            EngineCycle::StagedCombustion => CycleLimits {
                max_chamber_pressure_pa: big(30, 6),
                gg_bypass_fraction: zero(),
                gg_temperature_k: zero(),
                min_throttle: dec(50, 2),
                spool_tau_s: whole(1),
            },
            EngineCycle::FullFlowStaged => CycleLimits {
                max_chamber_pressure_pa: big(35, 6),
                gg_bypass_fraction: zero(),
                gg_temperature_k: zero(),
                min_throttle: dec(50, 2),
                spool_tau_s: dec(12, 1),
            },
        }
    }

    /// Cycle bounds.
    #[verifier::when_used_as_spec(limits_spec)]
    pub fn limits(self) -> (r: CycleLimits)
        ensures
            r == self.limits(),
    {
        match self {
            EngineCycle::PressureFed => CycleLimits {
                max_chamber_pressure_pa: big(3, 6),
                gg_bypass_fraction: zero(),
                gg_temperature_k: zero(),
                min_throttle: dec(30, 2),
                spool_tau_s: dec(4, 1),
            },
            EngineCycle::ElectricPump => CycleLimits {
                max_chamber_pressure_pa: big(12, 6),
                gg_bypass_fraction: zero(),
                gg_temperature_k: zero(),
                min_throttle: dec(35, 2),
                spool_tau_s: dec(3, 1),
            },
            EngineCycle::GasGenerator => CycleLimits {
                max_chamber_pressure_pa: big(21, 6),
                gg_bypass_fraction: dec(30, 3),
                gg_temperature_k: whole(1050),
                min_throttle: dec(40, 2),
                spool_tau_s: dec(6, 1),
            },
            EngineCycle::StagedCombustion => CycleLimits {
                max_chamber_pressure_pa: big(30, 6),
                gg_bypass_fraction: zero(),
                gg_temperature_k: zero(),
                min_throttle: dec(50, 2),
                spool_tau_s: whole(1),
            },
            EngineCycle::FullFlowStaged => CycleLimits {
                max_chamber_pressure_pa: big(35, 6),
                gg_bypass_fraction: zero(),
                gg_temperature_k: zero(),
                min_throttle: dec(50, 2),
                spool_tau_s: dec(12, 1),
            },
        }
    }

    /// The variant's name, as messages give it.
    pub open spec fn label_text(self) -> Seq<char> {
        match self {
            EngineCycle::PressureFed => "PressureFed"@,
            EngineCycle::ElectricPump => "ElectricPump"@,
            EngineCycle::GasGenerator => "GasGenerator"@,
            EngineCycle::StagedCombustion => "StagedCombustion"@,
            EngineCycle::FullFlowStaged => "FullFlowStaged"@,
        }
    }

    /// The variant's name, as messages give it.
    pub fn label(self) -> (r: String)
        ensures
            r@ == self.label_text(),
    {
        match self {
            EngineCycle::PressureFed => "PressureFed".to_owned(),
            EngineCycle::ElectricPump => "ElectricPump".to_owned(),
            EngineCycle::GasGenerator => "GasGenerator".to_owned(),
            EngineCycle::StagedCombustion => "StagedCombustion".to_owned(),
            EngineCycle::FullFlowStaged => "FullFlowStaged".to_owned(),
        }
    }
}

} // verus!
