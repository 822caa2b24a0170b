//! Single-host process supervisor core: per-application lifecycle state
//! machines, a dependency-aware registry, readiness-probe gating, and the
//! signal-driven scheduler that advances everything once per tick.
//!
//! The crate holds the decision logic only.  All interaction with the
//! operating system (spawning children, reaping them, delivering signals,
//! running command or HTTP probes, reading configuration files) happens
//! outside, and its results are handed in as plain event values; every
//! function here states exactly how the state advances for each event.

pub mod app;
pub mod app_readiness_probe;
pub mod app_status;
pub mod apps_map;
pub mod config;
pub mod readiness_probe;
pub mod supervisor;
pub mod utils;
