//! A verified boot continuity monitor.
//!
//! The crate decides, from samples of the running kernel and from the rows
//! persisted so far, whether the machine rebooted, whether the monitor was
//! restarted, whether heartbeats were missed and whether a clock ran
//! backwards. Reading the kernel, the clocks and the database is left to the
//! program around it.

pub mod cli;
pub mod daemon;
pub mod external;
pub mod model;
pub mod monitor;
pub mod numeric;
pub mod platform;
pub mod storage;
pub mod text;
