//! Instants carried by the service records, and the parsing of the RFC 3339
//! text that callers pass in.
use vstd::prelude::*;

verus! {

/// An instant as whole seconds since the Unix epoch plus the sub-second
/// nanoseconds (the content of an `aws_smithy_types::DateTime`).
#[derive(Clone, Copy, Debug, PartialEq, Eq)]
pub struct Timestamp {
    pub secs: i64,
    pub nanos: u32,
}

/// The instant (`timestamp()`, `timestamp_subsec_nanos()`) that chrono's
/// RFC 3339 parser reads from `text`, or `None` where it rejects `text`.
pub uninterp spec fn rfc3339_instant(text: Seq<char>) -> Option<(i64, u32)>;

/// Calls `chrono::DateTime::parse_from_rfc3339` and reads the parsed value's
/// `timestamp()` and `timestamp_subsec_nanos()`. Claimed: the result is
/// determined by the text alone (`rfc3339_instant`); nothing is claimed of
/// which texts parse or of the instant they give.
#[verifier::external_body]
fn chrono_parse_rfc3339(text: &str) -> (r: Option<(i64, u32)>)
    ensures
        r == rfc3339_instant(text@),
{
    match chrono::DateTime::parse_from_rfc3339(text) {
        Ok(dt) => Some((dt.timestamp(), dt.timestamp_subsec_nanos())),
        Err(_) => None,
    }
}

/// Parses an RFC 3339 date-time (`2024-01-02T03:04:05Z`) into an instant;
/// `None` when the text is not RFC 3339.
pub fn parse_datetime(s: &str) -> (r: Option<Timestamp>)
    ensures
        r == (match rfc3339_instant(s@) {
            Some((secs, nanos)) => Some(Timestamp { secs, nanos }),
            None => None,
        }),
{
    match chrono_parse_rfc3339(s) {
        Some((secs, nanos)) => Some(Timestamp { secs, nanos }),
        None => None,
    }
}

} // verus!
