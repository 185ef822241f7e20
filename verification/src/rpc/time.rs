//! Printing timestamps, done by `chrono`.

use vstd::prelude::*;

verus! {

/// The earliest timestamp, in seconds since the epoch, that `chrono` can
/// represent: 1 January of year -262143, 00:00:00 UTC.
pub const MIN_TIMESTAMP: i64 = -8334601228800;

/// The latest timestamp, in seconds since the epoch, that `chrono` can
/// represent: 31 December of year 262142, 23:59:59 UTC.
pub const MAX_TIMESTAMP: i64 = 8210266876799;

/// RFC 3339 form, in UTC with a `Z` suffix and whole seconds, of a timestamp
/// given in seconds since the epoch.
pub uninterp spec fn rfc3339_utc(secs: i64) -> Seq<char>;

/// Calls `chrono::DateTime::<Utc>::from_timestamp(secs, 0)` and, on success,
/// `to_rfc3339_opts(SecondsFormat::Secs, true)`. Trusted: the date exists
/// exactly for timestamps from `MIN_TIMESTAMP` to `MAX_TIMESTAMP` (the years
/// `chrono` supports), and the text is the RFC 3339 form of the timestamp.
#[verifier::external_body]
pub(crate) fn format_rfc3339(secs: i64) -> (text: Option<String>)
    ensures
        text is Some <==> MIN_TIMESTAMP <= secs <= MAX_TIMESTAMP,
        text matches Some(t) ==> t@ == rfc3339_utc(secs),
{
    match chrono::DateTime::from_timestamp(secs, 0) {
        Some(date) => Some(date.to_rfc3339_opts(chrono::SecondsFormat::Secs, true)),
        None => None,
    }
}

/// The RFC 3339 form of a timestamp in seconds since the epoch.
pub fn ts_to_rfc3339(ts: i64) -> (text: String)
    requires
        MIN_TIMESTAMP <= ts <= MAX_TIMESTAMP,
    ensures
        text@ == rfc3339_utc(ts),
{
    match format_rfc3339(ts) {
        Some(text) => text,
        None => String::new(),
    }
}

} // verus!
