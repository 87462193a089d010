//! The flight-control tasks: what they decide, as functions on plain values.

pub mod control;
pub mod est;
pub mod frames;
pub mod mission;
pub mod monitor;
pub mod params;
pub mod sensors_task;
pub mod tasks;
pub mod telemetry;
pub mod uplink;
