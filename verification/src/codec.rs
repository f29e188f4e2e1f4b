//! Text forms that the store keeps: lists and maps of strings as JSON, and
//! instants as RFC 3339.

use crate::database::Timestamp;
use crate::env::entries_view;
use crate::paths::optional_text;
use crate::text::strings_view;
use vstd::prelude::*;

verus! {

/// The failure of `chrono` to parse a text.
#[verifier::external_type_specification]
#[verifier::external_body]
pub struct ExParseError(chrono::ParseError);

/// The JSON array that `serde_json::to_string` writes for a list of
/// strings, or nothing where it fails.
pub uninterp spec fn json_of_strings(values: Seq<Seq<char>>) -> Option<Seq<char>>;

/// The list of strings that `serde_json::from_str` reads from a text, or
/// nothing where the text is no JSON array of strings.
pub uninterp spec fn strings_of_json(text: Seq<char>) -> Option<Seq<Seq<char>>>;

/// The JSON object that `serde_json` writes for a map with the entries
/// `pairs`, in their order, or nothing where it fails.
pub uninterp spec fn json_of_pairs(pairs: Seq<(Seq<char>, Seq<char>)>) -> Option<Seq<char>>;

/// The pairs of the mapping that `serde_json::from_str` reads from a text,
/// keys in ascending order, or nothing where the text is no JSON object of
/// strings.
pub uninterp spec fn pairs_of_json(text: Seq<char>) -> Option<Seq<(Seq<char>, Seq<char>)>>;

/// What `chrono` writes for the instant `secs` seconds and `nanos`
/// nanoseconds after the Unix epoch as RFC 3339 in UTC; nothing for an
/// instant that `chrono` cannot hold.
pub uninterp spec fn rfc3339_of(secs: i64, nanos: u32) -> Option<Seq<char>>;

/// The instant that `chrono` reads from a text as RFC 3339, as seconds and
/// nanoseconds after the Unix epoch, or nothing where the text is no such
/// date and time.
pub uninterp spec fn instant_of_rfc3339(text: Seq<char>) -> Option<(i64, u32)>;

/// `serde_json::to_string` on a list of strings; a failure is handed out
/// as its text.
#[verifier::external_body]
pub(crate) fn strings_to_json(values: &Vec<String>) -> (r: Result<String, String>)
    ensures
        match r {
            Ok(text) => json_of_strings(strings_view(values@)) == Some(text@),
            Err(_) => json_of_strings(strings_view(values@)) is None,
        },
{
    match serde_json::to_string(values) {
        Ok(text) => Ok(text),
        Err(e) => Err(e.to_string()),
    }
}

/// `serde_json::from_str` for a list of strings; a failure is handed out
/// as its text.
#[verifier::external_body]
pub(crate) fn strings_from_json(text: &str) -> (r: Result<Vec<String>, String>)
    ensures
        match r {
            Ok(values) => strings_of_json(text@) == Some(strings_view(values@)),
            Err(_) => strings_of_json(text@) is None,
        },
{
    match serde_json::from_str(text) {
        Ok(values) => Ok(values),
        Err(e) => Err(e.to_string()),
    }
}

/// `Serializer::collect_map` of `serde` on a `serde_json::Serializer`: the
/// pairs written as one JSON object, entry by entry in their order; a
/// failure is handed out as its text.
#[verifier::external_body]
pub(crate) fn pairs_to_json(pairs: &Vec<(String, String)>) -> (r: Result<String, String>)
    ensures
        match r {
            Ok(text) => json_of_pairs(entries_view(pairs@)) == Some(text@),
            Err(_) => json_of_pairs(entries_view(pairs@)) is None,
        },
{
    let mut bytes: Vec<u8> = Vec::new();
    let mut writer = serde_json::Serializer::new(&mut bytes);
    match serde::Serializer::collect_map(&mut writer, pairs.iter().map(|p| (&p.0, &p.1))) {
        Ok(()) => match String::from_utf8(bytes) {
            Ok(text) => Ok(text),
            Err(e) => Err(e.to_string()),
        },
        Err(e) => Err(e.to_string()),
    }
}

/// `serde_json::from_str` for a `BTreeMap` of strings, handed out as its
/// pairs in the order of the map; a failure is handed out as its text.
#[verifier::external_body]
pub(crate) fn pairs_from_json(text: &str) -> (r: Result<Vec<(String, String)>, String>)
    ensures
        match r {
            Ok(pairs) => pairs_of_json(text@) == Some(entries_view(pairs@)),
            Err(_) => pairs_of_json(text@) is None,
        },
{
    match serde_json::from_str::<std::collections::BTreeMap<String, String>>(text) {
        Ok(map) => Ok(map.into_iter().collect()),
        Err(e) => Err(e.to_string()),
    }
}

/// `DateTime::to_rfc3339` on the instant that `DateTime::from_timestamp`
/// gives for `at`; nothing where it gives none.
#[verifier::external_body]
pub(crate) fn instant_to_rfc3339(at: Timestamp) -> (text: Option<String>)
    ensures
        optional_text(text) == rfc3339_of(at.secs, at.nanos),
{
    match chrono::DateTime::from_timestamp(at.secs, at.nanos) {
        Some(instant) => Some(instant.to_rfc3339()),
        None => None,
    }
}

/// `DateTime::parse_from_rfc3339`, the result handed out as seconds and
/// nanoseconds after the Unix epoch, from `DateTime::timestamp` and
/// `DateTime::timestamp_subsec_nanos`.
#[verifier::external_body]
pub(crate) fn instant_from_rfc3339(text: &str) -> (r: Result<Timestamp, chrono::ParseError>)
    ensures
        match r {
            Ok(at) => instant_of_rfc3339(text@) == Some((at.secs, at.nanos)),
            Err(_) => instant_of_rfc3339(text@) is None,
        },
{
    match chrono::DateTime::parse_from_rfc3339(text) {
        Ok(instant) => Ok(
            Timestamp { secs: instant.timestamp(), nanos: instant.timestamp_subsec_nanos() },
        ),
        Err(e) => Err(e),
    }
}

/// The text of a failure of `chrono` to parse, from its `to_string`.
/// Nothing is claimed of the text.
#[verifier::external_body]
pub(crate) fn parse_error_text(error: &chrono::ParseError) -> (text: String) {
    error.to_string()
}

} // verus!
