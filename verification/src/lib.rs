//! Procedural propulsion: engines authored as a few sliders, compiled once into
//! validated data, and evaluated by pure functions of throttle, ambient and state.
//!
//! The physics is ideal frozen-flow isentropic nozzle theory: characteristic velocity
//! from chamber thermo, thrust coefficient from expansion ratio and ambient pressure,
//! mass flow from throat area. Cycles are feed-system topologies with limits and mass,
//! not thrust multipliers. Around that core stand solid motors, reaction control,
//! nuclear, electric and fusion engines, air-breathers and combined cycles.
//!
//! All arithmetic is that of [`float::F64`], an IEEE 754 binary64 number whose
//! operations are proved to round correctly. Powers, logarithms and the like come from
//! the host through [`numerics::Numerics`]. The contract of a function gives its result
//! to the last bit for any host that answers one question one way; what holds across
//! functions is stated in [`laws`].
pub mod air;
pub mod analyze;
pub mod atmosphere;
pub mod constants;
pub mod cycle;
pub mod cycle_core;
pub mod electric;
pub mod engine;
pub mod error;
pub mod estoc;
pub mod float;
pub mod fusion;
pub mod jet;
pub mod laws;
pub mod liquid;
pub mod material;
pub mod mount;
pub mod nozzle;
pub mod nuclear;
pub mod numerics;
pub mod propellant;
pub mod rcs;
pub mod shaft;
pub mod solid;
pub mod spool;
pub mod text;
pub mod vector;

pub use air::{
    advance_jet_spool, analyze_airbreathing, flight_condition, AirAltitudePoint, AirCycle, AirOperatingPoint,
    AirbreathingSpec, CompiledAirbreather, FlightCondition, IntakeKind, JetFuel,
};
pub use analyze::{analyze_altitude, AltitudePoint};
pub use cycle::{CycleLimits, EngineCycle};
pub use electric::{
    CompiledElectricThruster, ElectricPropellant, ElectricThrusterCommand, ElectricThrusterDesign, ElectricThrusterMount,
    ElectricThrusterPoint, ElectricThrusterSpec,
};
pub use engine::{CompiledEngine, EngineOperatingPoint, EnginePlumeState};
pub use error::PropulsionError;
pub use estoc::{analyze_estoc, CompiledEstoc, EstocMode, EstocPoint, EstocSpec, EstocTransient};
pub use fusion::{
    CompiledFusionTorch, CompiledPulsedFusion, FusionReaction, FusionTorchCommand, FusionTorchMount,
    FusionTorchOperatingPoint, FusionTorchSpec, PulsedFusionCommand, PulsedFusionMount, PulsedFusionOperatingPoint,
    PulsedFusionSpec, PulsedFusionState,
};
pub use jet::{CompiledJet, JetCommand, JetMount};
pub use liquid::{CompiledLiquid, LiquidEngineSpec};
pub use material::{ChamberMaterial, CoolingMode};
pub use mount::{EngineMount, GimbalEffector};
pub use nozzle::{
    characteristic_velocity, mach_from_area_ratio, thrust_coefficient, NozzleContour, NozzleExitState,
};
pub use nuclear::{NtrFluid, NtrSupplement, NuclearThermalSpec};
pub use propellant::{FluidThermo, Propellant, PropellantThermo};
pub use rcs::{
    ColdGasThrusterSpec, CompiledColdGas, CompiledMonoprop, MonopropThrusterSpec, RcsCluster, RcsMount, RcsPulse,
    RcsThruster,
};
pub use shaft::{GeneratorSpec, JetShaftState, ShaftBalance, ShaftSpec, StarterSpec};
pub use solid::{BurnPoint, CompiledSolid, SolidMotorSpec};
pub use spool::{advance_spool, EngineSpool};
