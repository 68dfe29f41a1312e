//! Snapshot-based host telemetry library.
//!
//! Turns raw operating-system counters (memory, swap, CPU, per-interface
//! network and per-volume disk readings) into one immutable, internally
//! consistent snapshot, with human-readable unit formatting and derived
//! bits-per-second throughput figures.

pub mod builder;
pub mod model;
pub mod order;
pub mod rate;
pub mod snapshot;
pub mod units;
