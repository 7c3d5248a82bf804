use vstd::prelude::*;

verus! {

/// A point in time: microseconds since the Unix epoch, in UTC.
#[derive(Debug, Clone, Copy, PartialEq, Eq, Structural)]
pub struct Timestamp {
    pub micros: i64,
}

/// What an RFC 3339 date string denotes: its microseconds since the Unix
/// epoch, or nothing when the string does not parse as such a date.
pub uninterp spec fn rfc3339_micros(s: Seq<char>) -> Option<int>;

/// Relies on chrono's DateTime::parse_from_rfc3339 and timestamp_micros: the
/// result is a function of the characters alone.
#[verifier::external_body]
pub(crate) fn parse_rfc3339(s: &str) -> (r: Option<i64>)
    ensures
        r is Some <==> rfc3339_micros(s@) is Some,
        r is Some ==> r.unwrap() as int == rfc3339_micros(s@).unwrap(),
{
    match chrono::DateTime::parse_from_rfc3339(s) {
        Ok(dt) => Some(dt.timestamp_micros()),
        Err(_) => None,
    }
}

} // verus!
