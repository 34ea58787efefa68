//! What holds of the engines across functions: order, limits, bookkeeping, balances and
//! refusals.
pub mod air;
pub mod ambient;
pub mod bake;
pub mod burn;
pub mod cadence;
pub mod charging;
pub mod closed;
pub mod depletion;
pub mod ejector;
pub mod electric;
pub mod energy;
pub mod expansion;
pub mod feeds;
pub mod figures;
pub mod grain;
pub mod hardware;
pub mod ignition;
pub mod intake;
pub mod jets;
pub mod ledger;
pub mod linear;
pub mod masses;
pub mod mixture;
pub mod modes;
pub mod momentum;
pub mod nozzle;
pub mod openings;
pub mod partition;
pub mod pulses;
pub mod reactors;
pub mod reheat;
pub mod shaft;
pub mod sizing;
pub mod stream;
pub mod surface;
pub mod switching;
pub mod tables;
pub mod thrust;
pub mod thrusters;
pub mod timetable;
pub mod turbine;
pub mod wrench;
