//! Agent configuration, consumed once at startup.
//!
//! All quantities are integers: the measurement interval in seconds as
//! configured, and `epsilon` in millionths. Reading and parsing the
//! configuration file happens outside the library; these types carry the
//! values the core works from.

use vstd::prelude::*;

verus! {

/// Overlay addresses: where to listen, and whom to bootstrap from.
#[derive(Debug, Clone)]
pub struct NetworkConfig {
    pub listen_addresses: Vec<String>,
    pub bootstrap_peers: Vec<String>,
}

/// What to probe, and how often (seconds between ticks).
#[derive(Debug, Clone)]
pub struct MeasurementConfig {
    pub interval: u64,
    pub targets: Vec<String>,
}

/// The privacy budget as configured: `epsilon` in millionths.
#[derive(Debug, Clone)]
pub struct PrivacyConfig {
    pub epsilon_ppm: i64,
    pub enable_geolocation_fuzzing: bool,
}

/// The whole agent configuration.
#[derive(Debug, Clone)]
pub struct AgentConfig {
    pub network: NetworkConfig,
    pub measurements: MeasurementConfig,
    pub privacy: PrivacyConfig,
}

} // verus!
