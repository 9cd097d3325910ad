//! Decentralized network-health monitoring core.
//!
//! Independent nodes probe network targets (latency, DNS resolution, HTTP
//! reachability), obscure the raw measurements with a Laplace-mechanism
//! privacy layer, and disseminate the privatized records to peers over a
//! gossip overlay. All quantities are carried as integers: durations in
//! microseconds, and the privacy parameters in millionths.

pub mod classify;
pub mod config;
pub mod dns;
pub mod gossip;
pub mod p2p;
pub mod peers;
pub mod http;
pub mod measurements;
pub mod ping;
pub mod privacy;
pub mod scheduler;

pub use classify::TargetClass;
pub use classify::classify_target;
pub use privacy::{PrivacyLayer, PrivacyError};
pub use measurements::{Measurement, MeasurementType, MeasurementResult};
pub use ping::PingMeasurement;
pub use dns::DnsMeasurement;
pub use http::HttpMeasurement;
pub use peers::{PeerState, PeerRecord, PeerTable};
pub use gossip::{GossipEnvelope, SeenSet, compute_message_id};
pub use p2p::{P2PNode, P2PError, GossipOutcome};
pub use scheduler::{Scheduler, SchedulerPhase, ProbeJob, plan_cycle};
pub use config::{AgentConfig, NetworkConfig, MeasurementConfig, PrivacyConfig};
