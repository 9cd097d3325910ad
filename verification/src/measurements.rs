//! Measurement records: the immutable, already-privatized observations.
//!
//! A `Measurement` is constructed only here, and every numeric metric in it
//! has passed through the privacy layer first: no raw value is ever stored
//! or transmitted. Categorical outcomes (status code, success flag, packet
//! loss) are carried unchanged.

use vstd::prelude::*;
use crate::privacy::{PrivacyLayer, is_noised};

verus! {

/// Which probe produced a measurement.
#[derive(Debug, Clone, Copy, PartialEq, Eq, Structural)]
pub enum MeasurementType {
    Ping,
    Dns,
    Http,
}

/// The per-probe payload. Durations are microseconds; a privatized duration
/// may be negative, since Laplace noise is signed.
#[derive(Debug, Clone, PartialEq, Eq, Structural)]
pub enum MeasurementResult {
    Ping { latency_micros: i64, packet_loss_pct: u32 },
    Dns { resolution_time_micros: i64, success: bool },
    Http { response_time_micros: i64, status_code: u16, success: bool },
}

/// One immutable, privatized observation about one target.
#[derive(Debug, Clone)]
pub struct Measurement {
    pub id: String,
    pub timestamp_micros: i64,
    pub measurement_type: MeasurementType,
    pub target: String,
    pub result: MeasurementResult,
}

impl Measurement {
    /// Builds a ping measurement: the latency is privatized under `privacy`,
    /// the packet-loss percentage is carried unchanged.
    pub fn ping(privacy: &PrivacyLayer, target: &str, raw_latency_micros: i64, packet_loss_pct: u32) -> (m: Measurement)
        requires
            privacy.valid(),
        ensures
            m.measurement_type == MeasurementType::Ping,
            m.target@ == target@,
            m.id@.len() == 36,
            m.result matches MeasurementResult::Ping { latency_micros, packet_loss_pct: loss }
                && loss == packet_loss_pct
                && is_noised(*privacy, raw_latency_micros as int, latency_micros as int),
    {
        let privatized = privacy.privatize(raw_latency_micros);
        Measurement {
            id: fresh_measurement_id(),
            timestamp_micros: current_timestamp_micros(),
            measurement_type: MeasurementType::Ping,
            target: target.to_owned(),
            result: MeasurementResult::Ping {
                latency_micros: privatized,
                packet_loss_pct,
            },
        }
    }

    /// Builds a DNS measurement: the resolution time is privatized under
    /// `privacy`, the success flag is carried unchanged.
    pub fn dns(privacy: &PrivacyLayer, target: &str, raw_resolution_micros: i64, success: bool) -> (m: Measurement)
        requires
            privacy.valid(),
        ensures
            m.measurement_type == MeasurementType::Dns,
            m.target@ == target@,
            m.id@.len() == 36,
            m.result matches MeasurementResult::Dns { resolution_time_micros, success: ok }
                && ok == success
                && is_noised(*privacy, raw_resolution_micros as int, resolution_time_micros as int),
    {
        let privatized = privacy.privatize(raw_resolution_micros);
        Measurement {
            id: fresh_measurement_id(),
            timestamp_micros: current_timestamp_micros(),
            measurement_type: MeasurementType::Dns,
            target: target.to_owned(),
            result: MeasurementResult::Dns {
                resolution_time_micros: privatized,
                success,
            },
        }
    }

    /// Builds an HTTP measurement: the response time is privatized under
    /// `privacy`, the status code and success flag are carried unchanged.
    pub fn http(privacy: &PrivacyLayer, target: &str, raw_response_micros: i64, status_code: u16, success: bool) -> (m: Measurement)
        requires
            privacy.valid(),
        ensures
            m.measurement_type == MeasurementType::Http,
            m.target@ == target@,
            m.id@.len() == 36,
            m.result matches MeasurementResult::Http { response_time_micros, status_code: sc, success: ok }
                && sc == status_code
                && ok == success
                && is_noised(*privacy, raw_response_micros as int, response_time_micros as int),
    {
        let privatized = privacy.privatize(raw_response_micros);
        Measurement {
            id: fresh_measurement_id(),
            timestamp_micros: current_timestamp_micros(),
            measurement_type: MeasurementType::Http,
            target: target.to_owned(),
            result: MeasurementResult::Http {
                response_time_micros: privatized,
                status_code,
                success,
            },
        }
    }
}

/// Relies on `uuid::Uuid::new_v4` and its hyphenated text form: a fresh
/// random identifier of 36 ASCII characters.
#[verifier::external_body]
fn fresh_measurement_id() -> (r: String)
    ensures
        r@.len() == 36,
{
    uuid::Uuid::new_v4().to_string()
}

/// Relies on `chrono::Utc::now`: the current UTC time in microseconds since
/// the epoch. Nothing is promised of the value.
#[verifier::external_body]
fn current_timestamp_micros() -> i64 {
    chrono::Utc::now().timestamp_micros()
}

} // verus!
