//! Target classification: decides which probes apply to a configured target.
//!
//! A target beginning with an HTTP(S) scheme is probed over HTTP; otherwise a
//! target that contains a `.` and no `/` may be either a hostname or a
//! literal address, so both the ping and the DNS probe are attempted.

use vstd::prelude::*;
use vstd::string::StringSliceAdditionalSpecFns;

verus! {

pub const B_H: u8 = 104;
pub const B_T: u8 = 116;
pub const B_P: u8 = 112;
pub const B_S: u8 = 115;
pub const B_COLON: u8 = 58;
pub const B_SLASH: u8 = 47;
pub const B_DOT: u8 = 46;

/// How a configured target string is to be probed.
#[derive(Debug, Clone, Copy, PartialEq, Eq, Structural)]
pub enum TargetClass {
    /// Begins with `http://` or `https://`: probe with a GET request.
    Http,
    /// Contains a dot and no slash: hostname or literal address, so both
    /// the ping probe and the DNS probe are attempted independently.
    PingAndDns,
    /// Anything else: no probe applies.
    Unknown,
}

/// The bytes `http://` stand at the front of `s`.
pub open spec fn has_http_prefix(s: Seq<u8>) -> bool {
    s.len() >= 7 && s[0] == B_H && s[1] == B_T && s[2] == B_T && s[3] == B_P && s[4] == B_COLON
        && s[5] == B_SLASH && s[6] == B_SLASH
}

/// The bytes `https://` stand at the front of `s`.
pub open spec fn has_https_prefix(s: Seq<u8>) -> bool {
    s.len() >= 8 && s[0] == B_H && s[1] == B_T && s[2] == B_T && s[3] == B_P && s[4] == B_S
        && s[5] == B_COLON && s[6] == B_SLASH && s[7] == B_SLASH
}

/// The class a target with UTF-8 bytes `s` falls in.
pub open spec fn classification(s: Seq<u8>) -> TargetClass {
    if has_http_prefix(s) || has_https_prefix(s) {
        TargetClass::Http
    } else if s.contains(B_DOT) && !s.contains(B_SLASH) {
        TargetClass::PingAndDns
    } else {
        TargetClass::Unknown
    }
}

/// Whether byte `b` occurs anywhere in `s`.
fn contains_byte(s: &[u8], b: u8) -> (r: bool)
    ensures
        r == s@.contains(b),
{
    let mut i: usize = 0;
    while i < s.len()
        invariant
            i <= s@.len(),
            forall|k: int| 0 <= k < i ==> s@[k] != b,
        decreases s@.len() - i,
    {
        if s[i] == b {
            assert(s@.contains(b));
            return true;
        }
        i += 1;
    }
    assert(forall|k: int| 0 <= k < s@.len() ==> s@[k] != b);
    false
}

/// Whether the bytes of `s` start with an `http://` or `https://` scheme.
fn has_scheme_prefix(s: &[u8]) -> (r: bool)
    ensures
        r == (has_http_prefix(s@) || has_https_prefix(s@)),
{
    let plain = s.len() >= 7 && s[0] == B_H && s[1] == B_T && s[2] == B_T && s[3] == B_P
        && s[4] == B_COLON && s[5] == B_SLASH && s[6] == B_SLASH;
    let secure = s.len() >= 8 && s[0] == B_H && s[1] == B_T && s[2] == B_T && s[3] == B_P
        && s[4] == B_S && s[5] == B_COLON && s[6] == B_SLASH && s[7] == B_SLASH;
    plain || secure
}

/// Classifies a configured target by the shape of its text alone.
///
/// A literal IP address also contains a dot and no slash, so it is classed
/// `PingAndDns` and the DNS probe is expected to fail on it; trying both
/// probes rather than pre-classifying is a deliberate policy.
pub fn classify_target(target: &str) -> (r: TargetClass)
    ensures
        r == classification(target.spec_bytes()),
{
    let bytes = target.as_bytes();
    if has_scheme_prefix(bytes) {
        TargetClass::Http
    } else if contains_byte(bytes, B_DOT) && !contains_byte(bytes, B_SLASH) {
        TargetClass::PingAndDns
    } else {
        TargetClass::Unknown
    }
}

} // verus!
