//! Runtime settings of the agent.  This is the bare settings type the
//! library reasons about; the command-line layer keeps its own parsing
//! copy and converts.

use vstd::prelude::*;
use vstd::string::*;
use core::time::Duration;

verus! {

/// Relies on `core::time::Duration::from_millis`.  vstd gives `Duration`
/// no model, so nothing is stated of the result.
pub assume_specification[ Duration::from_millis ](millis: u64) -> Duration;

/// Relies on `hostname::get`: the system hostname, converted lossily.
/// The result depends on the machine, so nothing is stated of it.
#[verifier::external_body]
fn host_name() -> (r: Option<String>) {
    match hostname::get() {
        Ok(h) => Some(h.to_string_lossy().into_owned()),
        Err(_) => None,
    }
}

#[derive(Debug, Clone)]
pub struct Config {
    /// Unique identifier for this agent instance; the hostname stands in
    /// when none is configured.
    pub agent_id: Option<String>,
    /// Telemetry collection interval in milliseconds.
    pub collect_interval_ms: u64,
    /// Reporting channel buffer size (bounded to enforce backpressure).
    pub channel_buffer_size: usize,
    /// Process identifiers to monitor.
    pub monitored_pids: Vec<u32>,
    /// Whether structured logging is enabled.
    pub json_logs: bool,
    /// Maximum retries for failed report transmissions.
    pub max_retries: u32,
    /// Retry backoff base in milliseconds.
    pub retry_backoff_ms: u64,
}

impl Config {
    /// The identifier chosen for a known hostname outcome: the configured
    /// one when present, else the hostname, else a fixed fallback.
    pub fn agent_id_with_host(&self, host: Option<String>) -> (r: String)
        ensures
            match self.agent_id {
                Some(id) => r@ == id@,
                None => match host {
                    Some(h) => r@ == h@,
                    None => r@ == "unknown-agent"@,
                },
            },
    {
        match &self.agent_id {
            Some(id) => id.clone(),
            None => match host {
                Some(h) => h,
                None => "unknown-agent".to_owned(),
            },
        }
    }

    /// The agent identifier, falling back to the machine's hostname.
    /// Only the configured case can be pinned; the hostname itself
    /// depends on the machine.
    pub fn resolved_agent_id(&self) -> (r: String)
        ensures
            self.agent_id matches Some(id) ==> r@ == id@,
    {
        self.agent_id_with_host(host_name())
    }

    pub fn collect_interval(&self) -> Duration {
        Duration::from_millis(self.collect_interval_ms)
    }

    pub fn retry_backoff(&self) -> Duration {
        Duration::from_millis(self.retry_backoff_ms)
    }
}

} // verus!
