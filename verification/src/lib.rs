//! Host-metrics sampling library: the caller hands in the kernel's CPU and
//! memory counter tables as text; the library parses them, turns raw
//! counters into fixed-point percentages, and classifies the host's health.
//!
//! Percentages are carried as integers in hundredths of a percent
//! (`7500` means `75.00%`), so every computation is exact integer
//! arithmetic.

pub mod config;
pub mod cpu;
pub mod errors;
pub mod memory;
pub mod model;
pub mod text;
