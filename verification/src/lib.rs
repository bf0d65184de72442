//! Watches whether any of a configured set of USB peripherals is attached and
//! decides, on each hardware-change notification, whether a real connect or
//! disconnect transition took place and which monitor-switching commands to
//! run for it.
//!
//! Everything here works on plain values. Reading the clock, enumerating the
//! host's devices and launching the external tool are left to the caller, who
//! hands the results in and carries the decisions out.

pub mod args;
pub mod config;
pub mod debounce;
pub mod dispatch;
pub mod identifier;
pub mod presence;
pub mod prober;
pub mod signal;
pub mod text;
pub mod watcher;
