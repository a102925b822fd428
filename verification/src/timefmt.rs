//! Timestamp rendering and parsing, through the calendar library. The
//! library keeps times as plain UNIX timestamps; what only a calendar
//! implementation can compute stands behind trusted wrappers here.

use vstd::prelude::*;

verus! {

/// The RFC 3339 rendering of a UNIX timestamp, a function of the timestamp
/// alone.
pub uninterp spec fn rfc3339_of(secs: int) -> Seq<char>;

/// Relies on chrono's `DateTime::from_timestamp_secs` and
/// `DateTime::to_rfc3339`: renders a UNIX timestamp as an RFC 3339 string;
/// `from_timestamp_secs` rejects timestamps whose day count leaves the
/// supported calendar range, and accepts every realistic one.
#[verifier::external_body]
pub(crate) fn rfc3339_of_secs(secs: i64) -> (r: Option<String>)
    ensures
        r matches Some(s) ==> s@ == rfc3339_of(secs as int),
        0 <= secs <= 100_000_000_000 ==> r is Some,
{
    chrono::DateTime::<chrono::Utc>::from_timestamp_secs(secs).map(|d| d.to_rfc3339())
}

/// The UNIX timestamp an RFC 3339 string denotes, or nothing when the
/// string does not parse; a function of the string alone.
pub uninterp spec fn rfc3339_parse(s: Seq<char>) -> Option<int>;

/// Relies on chrono's `DateTime::parse_from_rfc3339` and
/// `DateTime::timestamp`: parses an RFC 3339 string into a UNIX timestamp.
#[verifier::external_body]
pub(crate) fn parse_rfc3339_secs(s: &str) -> (r: Option<i64>)
    ensures
        r is Some <==> rfc3339_parse(s@) is Some,
        r matches Some(v) ==> rfc3339_parse(s@) == Some(v as int),
{
    chrono::DateTime::parse_from_rfc3339(s).ok().map(|d| d.timestamp())
}

/// The English "time ago" rendering of a duration in seconds, a function of
/// the duration alone.
pub uninterp spec fn ago_text(secs: int) -> Seq<char>;

/// Relies on timeago's `Formatter::convert` with the default formatter:
/// renders a duration as English "time ago" text.
#[verifier::external_body]
pub(crate) fn ago_text_of_secs(secs: u64) -> (r: String)
    ensures
        r@ == ago_text(secs as int),
{
    timeago::Formatter::new().convert(core::time::Duration::from_secs(secs))
}

} // verus!
