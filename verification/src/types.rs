//! Small shared value types.

use vstd::prelude::*;

verus! {

/// How outbound network access is restricted.
#[derive(Debug, Clone, Copy, PartialEq, Eq, Structural)]
pub enum AirGapMode {
    /// All egress blocked.
    AirGap,
    /// Egress blocked except for listed host/port pairs.
    Whitelist,
    /// No restriction.
    Disabled,
}

impl Default for AirGapMode {
    fn default() -> (r: AirGapMode)
        ensures
            r == AirGapMode::AirGap,
    {
        AirGapMode::AirGap
    }
}

/// What the daemon reports about itself.
#[derive(Debug, Clone)]
pub struct HealthStatus {
    pub ok: bool,
    pub version: String,
    pub air_gap_mode: AirGapMode,
    pub loaded_models: Vec<String>,
    pub uptime_secs: u64,
}

} // verus!
