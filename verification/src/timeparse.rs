//! Parsing of RFC 3339 timestamp text, delegated to the calendar
//! library.

use vstd::prelude::*;

verus! {

/// The value of an RFC 3339 timestamp text: the instant it denotes, in
/// seconds since the Unix epoch, or `None` where the text is not a valid
/// RFC 3339 timestamp. Named, not defined: the calendar rules live in
/// the outside library.
pub uninterp spec fn rfc3339_epoch(s: Seq<char>) -> Option<i64>;

/// Relies on chrono's `DateTime::parse_from_rfc3339` and
/// `DateTime::timestamp`: both are deterministic functions of the text
/// alone, so the parse's outcome is a function of `s`.
#[verifier::external_body]
pub(crate) fn parse_rfc3339_epoch(s: &str) -> (r: Option<i64>)
    ensures
        r == rfc3339_epoch(s@),
{
    match chrono::DateTime::parse_from_rfc3339(s) {
        Ok(t) => Some(t.timestamp()),
        Err(_) => None,
    }
}

} // verus!
