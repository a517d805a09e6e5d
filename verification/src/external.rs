//! The functions of `std`, `chrono` and `serde_json` that the crate calls
//! without a proof, each with what is taken for granted of it.

use std::path::PathBuf;
use std::time::Duration;

use chrono::{DateTime, SecondsFormat, Utc};
use vstd::prelude::*;

use crate::text::digit;

verus! {

/// A file system path is carried through the crate and never looked into.
#[verifier::external_type_specification]
#[verifier::external_body]
pub struct ExPathBuf(PathBuf);

/// The number of nanoseconds in a duration, as `Duration::as_nanos` gives it.
pub uninterp spec fn duration_nanos(duration: Duration) -> u128;

/// Calls `Duration::as_nanos`: the total number of nanoseconds that the
/// duration contains. Every other length of it that the crate reads is
/// computed from this one.
#[verifier::external_body]
pub(crate) fn whole_nanos(duration: Duration) -> (nanos: u128)
    ensures
        nanos == duration_nanos(duration),
{
    duration.as_nanos()
}

/// The first millisecond of the earliest date that `chrono` represents,
/// January 1 of the year -262143.
pub const MIN_UTC_MILLIS: i64 = -8_334_601_228_800_000;

/// The last millisecond of the latest date that `chrono` represents,
/// December 31 of the year 262142.
pub const MAX_UTC_MILLIS: i64 = 8_210_266_876_799_999;

/// The RFC 3339 text, in UTC and with milliseconds, that `chrono` writes for
/// a count of milliseconds since the Unix epoch.
pub uninterp spec fn rfc3339_millis(unix_ms: i64) -> Seq<char>;

/// Calls `DateTime::<Utc>::from_timestamp_millis` and, on the date that it
/// gives, `to_rfc3339_opts` with milliseconds and a `Z` suffix. There is a
/// text exactly for the dates that `chrono` represents, and it depends on the
/// timestamp alone.
#[verifier::external_body]
pub(crate) fn utc_text(unix_ms: i64) -> (result: Option<String>)
    ensures
        result is Some <==> MIN_UTC_MILLIS <= unix_ms <= MAX_UTC_MILLIS,
        result matches Some(written) ==> written@ == rfc3339_millis(unix_ms),
{
    match DateTime::<Utc>::from_timestamp_millis(unix_ms) {
        Some(moment) => Some(moment.to_rfc3339_opts(SecondsFormat::Millis, true)),
        None => None,
    }
}

/// A lower case hexadecimal digit.
pub open spec fn hex_digit(value: int) -> char
    recommends
        0 <= value < 16,
{
    if value < 10 {
        digit(value)
    } else {
        (87 + value) as char
    }
}

/// One character inside a JSON string: quotes, backslashes and control
/// characters are escaped, everything else stands for itself.
pub open spec fn json_escape(c: char) -> Seq<char> {
    if c == '"' {
        seq!['\\', '"']
    } else if c == '\\' {
        seq!['\\', '\\']
    } else if c == '\u{8}' {
        seq!['\\', 'b']
    } else if c == '\t' {
        seq!['\\', 't']
    } else if c == '\n' {
        seq!['\\', 'n']
    } else if c == '\u{c}' {
        seq!['\\', 'f']
    } else if c == '\r' {
        seq!['\\', 'r']
    } else if (c as u32) < 0x20 {
        seq!['\\', 'u', '0', '0', hex_digit((c as u32) as int / 16), hex_digit((c as u32) as int % 16)]
    } else {
        seq![c]
    }
}

/// A text as a JSON string, quotes included.
pub open spec fn json_string(text: Seq<char>) -> Seq<char> {
    seq!['"'] + text.map_values(|c: char| json_escape(c)).flatten() + seq!['"']
}

/// Calls `to_string` on a `serde_json::Value::String`: the compact JSON text
/// of a string is the string between quotes, each character escaped as
/// `json_escape` says.
#[verifier::external_body]
pub(crate) fn json_string_text(text: &str) -> (result: String)
    ensures
        result@ == json_string(text@),
{
    serde_json::Value::String(text.to_owned()).to_string()
}

/// The text of a string in `std`'s `Debug` form, quotes and escapes included.
pub uninterp spec fn debug_form(text: Seq<char>) -> Seq<char>;

/// Calls the `Debug` formatting of `str`; what it writes depends on the
/// string alone.
#[verifier::external_body]
pub(crate) fn debug_text(text: &str) -> (result: String)
    ensures
        result@ == debug_form(text@),
{
    format!("{text:?}")
}

} // verus!
