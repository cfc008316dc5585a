//! Sampling and ranking core of a host-monitoring dashboard.
//!
//! The library turns raw per-process counters into usage rates, keeps the
//! one piece of cross-cycle state (the previous counters of each process),
//! ranks processes by usage and publishes an immutable snapshot per cycle.
//! Reading the operating system and drawing on a terminal are left to the
//! caller, which hands the library plain values.

pub mod control;
pub mod cpu;
pub mod estimator;
pub mod memory;
pub mod processes;
pub mod ranker;
pub mod record;
pub mod sysinfo;
pub mod text;
