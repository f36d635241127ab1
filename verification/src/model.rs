//! The result and payload data model every collector emits.

use vstd::prelude::*;
use std::collections::HashMap;

verus! {

/// Subtraction clamped to zero, the way every counter difference is taken.
pub open spec fn sat_sub(a: int, b: int) -> int {
    if a >= b {
        a - b
    } else {
        0
    }
}

/// Ordinal health classification of one metric domain.
#[derive(Debug, Clone, Copy, PartialEq, Eq, Structural)]
pub enum CheckStatus {
    Healthy,
    Degraded,
    Unhealthy,
}

impl CheckStatus {
    /// The status's wire label.
    pub fn label(&self) -> (r: &'static str)
        ensures
            match self {
                CheckStatus::Healthy => r@ == "HEALTHY"@,
                CheckStatus::Degraded => r@ == "DEGRADED"@,
                CheckStatus::Unhealthy => r@ == "UNHEALTHY"@,
            },
    {
        match self {
            CheckStatus::Healthy => "HEALTHY",
            CheckStatus::Degraded => "DEGRADED",
            CheckStatus::Unhealthy => "UNHEALTHY",
        }
    }
}

/// One CPU reading.  Percentages are hundredths of a percent; load
/// averages are hundredths (`50` means a 0.50 load).
#[derive(Debug, Clone)]
pub struct CpuSnapshot {
    pub user_pct_x100: u64,
    pub system_pct_x100: u64,
    pub iowait_pct_x100: u64,
    pub idle_pct_x100: u64,
    pub num_cores: u32,
    pub load_avg_1m_x100: u64,
    pub load_avg_5m_x100: u64,
    pub load_avg_15m_x100: u64,
}

/// One memory reading.  The pressure percentage is hundredths of a percent.
#[derive(Debug, Clone)]
pub struct MemorySnapshot {
    pub total_bytes: u64,
    pub available_bytes: u64,
    pub used_bytes: u64,
    pub swap_total_bytes: u64,
    pub swap_used_bytes: u64,
    pub memory_pressure_x100: u64,
}

/// The tagged union over metric kinds.  Adding a kind adds a variant and
/// never changes the existing ones.
#[derive(Debug, Clone)]
pub enum MetricPayload {
    Cpu(CpuSnapshot),
    Memory(MemorySnapshot),
}

/// Output of one collection cycle for one metric domain.
#[derive(Debug, Clone)]
pub struct CollectionResult {
    pub check_name: String,
    pub status: CheckStatus,
    pub message: String,
    pub metadata: HashMap<String, String>,
    /// Elapsed microseconds for the cycle, filled by the caller after
    /// timing the call; collectors leave it at zero.
    pub latency_us: u64,
    pub payload: MetricPayload,
}

} // verus!
