//! Readings of the clock and fresh identifiers.

use crate::database::Timestamp;
use crate::paths::optional_text;
use vstd::prelude::*;

verus! {

/// The present instant, from `chrono::Utc::now`: the seconds since the Unix
/// epoch and the nanoseconds within the second, as `DateTime::timestamp`
/// and `DateTime::timestamp_subsec_nanos` give them. Nothing is claimed of
/// the instant.
#[verifier::external_body]
pub(crate) fn current_time() -> (now: Timestamp) {
    let now = chrono::Utc::now();
    Timestamp { secs: now.timestamp(), nanos: now.timestamp_subsec_nanos() }
}

/// What `chrono` writes for the instant `secs` seconds and `nanos`
/// nanoseconds after the Unix epoch, in UTC, in the form
/// `%Y-%m-%d %H:%M:%S`; nothing for an instant that `chrono` cannot hold.
pub uninterp spec fn instant_text(secs: i64, nanos: u32) -> Option<Seq<char>>;

/// The instant `at` as date and time of day in UTC, from
/// `chrono::DateTime::from_timestamp` and `DateTime::format` with
/// `%Y-%m-%d %H:%M:%S`; nothing where `from_timestamp` gives no instant.
/// The result is a function of the two numbers alone.
#[verifier::external_body]
pub(crate) fn format_instant(at: Timestamp) -> (text: Option<String>)
    ensures
        optional_text(text) == instant_text(at.secs, at.nanos),
{
    match chrono::DateTime::from_timestamp(at.secs, at.nanos) {
        Some(instant) => Some(instant.format("%Y-%m-%d %H:%M:%S").to_string()),
        None => None,
    }
}

/// A new random identifier, from `uuid::Uuid::new_v4`, in the text form that
/// the identifier's `to_string` gives. Nothing is claimed of the text.
#[verifier::external_body]
pub(crate) fn fresh_id() -> (id: String) {
    uuid::Uuid::new_v4().to_string()
}

} // verus!
