//! HTTP probe: outcome of one GET request.
//!
//! The request itself lives outside the library; it hands back the elapsed
//! wall-clock time and the status code, with 0 as the sentinel for a
//! transport-level failure (timeout, refused connection, TLS error) — a
//! failed probe is itself data, never an error. The probe's contract:
//! success is exactly a 2xx status.

use vstd::prelude::*;

verus! {

/// The sentinel status code recorded for a transport-level failure.
pub const HTTP_FAILURE_STATUS: u16 = 0;

/// Whether an HTTP status code counts as a successful probe outcome.
pub open spec fn is_success_status(status: u16) -> bool {
    200 <= status < 300
}

/// The HTTP probe for one URL.
pub struct HttpMeasurement {
    url: String,
}

impl HttpMeasurement {
    /// The probed URL's text.
    pub closed spec fn url_spec(&self) -> Seq<char> {
        self.url@
    }

    pub fn new(url: String) -> (r: Self)
        ensures
            r.url_spec() == url@,
    {
        Self { url }
    }

    /// The probed URL, for the transport half.
    pub fn url(&self) -> (r: &String)
        ensures
            r@ == self.url_spec(),
    {
        &self.url
    }

    /// Summarizes one GET attempt: the elapsed time and status code are
    /// passed through unchanged, and the outcome is success exactly when
    /// the status is 2xx (the failure sentinel 0 is never a success).
    pub fn summarize(&self, elapsed_micros: u64, status_code: u16) -> (r: (u64, u16, bool))
        ensures
            r.0 == elapsed_micros,
            r.1 == status_code,
            r.2 == is_success_status(status_code),
    {
        (elapsed_micros, status_code, 200 <= status_code && status_code < 300)
    }
}

} // verus!
