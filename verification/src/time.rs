use vstd::prelude::*;

verus! {

/// The instant that the RFC 3339 parser assigns to a string: non-leap
/// microseconds since the Unix epoch for a well-formed timestamp, `None`
/// where parsing fails.  The result depends on the characters alone, so it
/// is only named here; what the library does with it is stated exactly.
pub uninterp spec fn parse_instant_of(s: Seq<char>) -> Option<i64>;

/// Relies on chrono's `str::parse::<DateTime<Utc>>` (a relaxed RFC 3339
/// parser) and `DateTime::timestamp_micros`: both are pure functions of the
/// string alone, so the result is named by `parse_instant_of`.
#[verifier::external_body]
pub(crate) fn parse_rfc3339_micros(s: &str) -> (r: Option<i64>)
    ensures
        r == parse_instant_of(s@),
{
    match s.parse::<chrono::DateTime<chrono::Utc>>() {
        Ok(t) => Some(t.timestamp_micros()),
        Err(_) => None,
    }
}

} // verus!
