//! Jet shaft data: the fitted starter and generator, the live shaft state, and
//! the shaft power balance.
use crate::air::CompiledAirbreather;
use crate::float::{whole, zero, F64};
use vstd::prelude::*;

verus! {

/// A fitted starter (all zero without one).
#[derive(Debug, Clone, Copy, PartialEq)]
pub struct StarterSpec {
    pub power_w: F64,
    pub charge_j: F64,
    pub mass_kg: F64,
}

/// A fitted generator (all zero without one).
#[derive(Debug, Clone, Copy, PartialEq)]
pub struct GeneratorSpec {
    pub mass_kg: F64,
}

/// Shaft topology of an air-breather.
#[derive(Debug, Clone, Copy, PartialEq)]
pub struct ShaftSpec {
    pub starter: StarterSpec,
    pub generator: GeneratorSpec,
    /// Spool speed from which the core can light (normalized).
    pub light_off_n: F64,
    /// Share of combustor heat that a downstream power turbine may take.
    pub power_turbine_heat_fraction: F64,
    /// Share of combustor heat that the core shaft nominally takes.
    pub turbine_heat_fraction: F64,
    /// Bearing friction at full spool as a share of the reference shaft power.
    pub friction_fraction: F64,
}

/// Live shaft state of a jet.
#[derive(Debug, Clone, Copy, PartialEq)]
pub struct JetShaftState {
    /// Normalized spool speed.
    pub spool_n: F64,
    /// Whether the core burns.
    pub lit: bool,
    /// Energy left in the starter (J).
    pub starter_charge_j: F64,
}

impl JetShaftState {
    /// [`running`] in contracts.
    pub open spec fn running_spec(engine: &CompiledAirbreather) -> JetShaftState {
        JetShaftState { spool_n: whole(1), lit: true, starter_charge_j: engine.shaft.starter.charge_j }
    }

    /// A running engine: full spool, lit, starter untouched.
    #[verifier::when_used_as_spec(running_spec)]
    pub fn running(engine: &CompiledAirbreather) -> (r: JetShaftState)
        ensures
            r == Self::running(engine),
    {
        JetShaftState { spool_n: whole(1), lit: true, starter_charge_j: engine.shaft.starter.charge_j }
    }

    /// [`cold`] in contracts.
    pub open spec fn cold_spec(engine: &CompiledAirbreather) -> JetShaftState {
        JetShaftState { spool_n: zero(), lit: false, starter_charge_j: engine.shaft.starter.charge_j }
    }

    /// A stopped engine: unlit, at full starter charge.
    #[verifier::when_used_as_spec(cold_spec)]
    pub fn cold(engine: &CompiledAirbreather) -> (r: JetShaftState)
        ensures
            r == Self::cold(engine),
    {
        JetShaftState { spool_n: zero(), lit: false, starter_charge_j: engine.shaft.starter.charge_j }
    }
}

/// Shaft power balance at a spool speed.
#[derive(Debug, Clone, Copy, PartialEq)]
pub struct ShaftBalance {
    /// Compressor and fan power (W).
    pub demand_w: F64,
    /// Turbine shaft power (W).
    pub capacity_w: F64,
    /// Most that a downstream power turbine can give (W).
    pub power_takeoff_capacity_w: F64,
    /// Bearing friction (W).
    pub friction_w: F64,
}

impl ShaftBalance {
    /// [`Self::net_w`] in contracts.
    pub open spec fn net_w_spec(&self) -> F64 {
        self.capacity_w - self.demand_w - self.friction_w
    }

    /// Net shaft power: capacity less demand less friction (W).
    #[verifier::when_used_as_spec(net_w_spec)]
    pub fn net_w(&self) -> (r: F64)
        ensures
            r == self.net_w(),
    {
        self.capacity_w - self.demand_w - self.friction_w
    }
}

} // verus!
