//! Verified core of a system monitor: text parsers for /proc and /sys,
//! delta bookkeeping between samples, the metric catalogue and value formatting.

pub mod text;
pub mod config;
pub mod hw;
pub mod metric;
pub mod metrics;
pub mod format;
pub mod history;
pub mod refresh;
