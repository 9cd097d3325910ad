//! DNS probe: outcome of one resolution attempt.
//!
//! The resolver call itself lives outside the library; it hands back the
//! wall-clock duration of the lookup and how many address records came
//! back (zero when resolution failed). The probe's contract: success means
//! at least one address record, and the duration is reported either way,
//! since timing is informative for both outcomes.

use vstd::prelude::*;

verus! {

/// The DNS probe for one domain name.
pub struct DnsMeasurement {
    domain: String,
}

impl DnsMeasurement {
    /// The probed domain's text.
    pub closed spec fn domain_spec(&self) -> Seq<char> {
        self.domain@
    }

    pub fn new(domain: String) -> (r: Self)
        ensures
            r.domain_spec() == domain@,
    {
        Self { domain }
    }

    /// The probed domain, for the resolver half.
    pub fn domain(&self) -> (r: &String)
        ensures
            r@ == self.domain_spec(),
    {
        &self.domain
    }

    /// Summarizes one resolution attempt: the elapsed time is passed
    /// through unchanged, and the outcome is success exactly when at
    /// least one address record was returned.
    pub fn summarize(&self, elapsed_micros: u64, address_count: usize) -> (r: (u64, bool))
        ensures
            r.0 == elapsed_micros,
            r.1 == (address_count > 0),
    {
        (elapsed_micros, address_count > 0)
    }
}

} // verus!
