//! Value formatting helpers for memory, CPU, timestamps, etc.
use vstd::prelude::*;
use super::calendar::{renders, text_names_one_instant};
use super::color::{BOLD, GREEN, RED, RESET, YELLOW};
use crate::text::{
    decimal, f64_value, f64_value_of, fixed, push_decimal, push_fixed, push_signed_decimal,
    signed_decimal, str_eq,
};

verus! {

/// The text for a byte count: whole kilobytes below one megabyte, then
/// megabytes with one decimal below one gigabyte, then gigabytes with
/// two decimals. The count is first converted to a double, as `bytes as
/// f64` does, and each figure is that value divided by a power of 1024,
/// rounded half to even.
pub open spec fn memory_bytes_text(bytes: nat) -> Seq<char> {
    let b = f64_value(bytes);
    if b < 0x10_0000 {
        fixed(b, 0x400, 0) + seq![' ', 'K', 'B']
    } else if b < 0x4000_0000 {
        fixed(b, 0x10_0000, 1) + seq![' ', 'M', 'B']
    } else {
        fixed(b, 0x4000_0000, 2) + seq![' ', 'G', 'B']
    }
}

/// Format raw bytes into a human-readable size string (KB / MB / GB).
pub fn format_memory_bytes(bytes: u64) -> (s: String)
    ensures
        s@ == memory_bytes_text(bytes as nat),
{
    let b = f64_value_of(bytes);
    let mut s = String::new();
    if b < 0x10_0000 {
        push_fixed(&mut s, b, 0x400, 0);
        s.push(' ');
        s.push('K');
        s.push('B');
    } else if b < 0x4000_0000 {
        push_fixed(&mut s, b, 0x10_0000, 1);
        s.push(' ');
        s.push('M');
        s.push('B');
    } else {
        push_fixed(&mut s, b, 0x4000_0000, 2);
        s.push(' ');
        s.push('G');
        s.push('B');
    }
    assert(s@ =~= memory_bytes_text(bytes as nat));
    s
}

/// The text for a duration in seconds: `Ns` below a minute (negative
/// values included), `Mm Ss` below an hour, `Hh Mm` from an hour on.
pub open spec fn duration_text(seconds: int) -> Seq<char> {
    if seconds < 60 {
        signed_decimal(seconds) + seq!['s']
    } else if seconds < 3600 {
        decimal((seconds / 60) as nat) + seq!['m', ' '] + decimal((seconds % 60) as nat) + seq!['s']
    } else {
        decimal((seconds / 3600) as nat) + seq!['h', ' '] + decimal(((seconds % 3600) / 60) as nat)
            + seq!['m']
    }
}

/// Format a duration in seconds into a human-readable string.
pub fn format_duration(seconds: i64) -> (s: String)
    ensures
        s@ == duration_text(seconds as int),
{
    let mut s = String::new();
    if seconds < 60 {
        push_signed_decimal(&mut s, seconds);
        s.push('s');
    } else if seconds < 3600 {
        push_decimal(&mut s, (seconds / 60) as u128);
        s.push('m');
        s.push(' ');
        push_decimal(&mut s, (seconds % 60) as u128);
        s.push('s');
    } else {
        push_decimal(&mut s, (seconds / 3600) as u128);
        s.push('h');
        s.push(' ');
        push_decimal(&mut s, ((seconds % 3600) / 60) as u128);
        s.push('m');
    }
    assert(s@ =~= duration_text(seconds as int));
    s
}

/// The text for a severity label: `CRITICAL` and `HIGH` in bold red,
/// `MEDIUM` in bold yellow, `LOW` in green, anything else unchanged.
pub open spec fn severity_text(severity: Seq<char>) -> Seq<char> {
    if severity == "CRITICAL"@ || severity == "HIGH"@ {
        BOLD@ + RED@ + severity + RESET@
    } else if severity == "MEDIUM"@ {
        BOLD@ + YELLOW@ + severity + RESET@
    } else if severity == "LOW"@ {
        GREEN@ + severity + RESET@
    } else {
        severity
    }
}

/// Colorize a severity string.
pub fn format_severity(severity: &str) -> (s: String)
    ensures
        s@ == severity_text(severity@),
{
    let mut s = String::new();
    if str_eq(severity, "CRITICAL") || str_eq(severity, "HIGH") {
        s.append(BOLD);
        s.append(RED);
        s.append(severity);
        s.append(RESET);
    } else if str_eq(severity, "MEDIUM") {
        s.append(BOLD);
        s.append(YELLOW);
        s.append(severity);
        s.append(RESET);
    } else if str_eq(severity, "LOW") {
        s.append(GREEN);
        s.append(severity);
        s.append(RESET);
    } else {
        s.append(severity);
    }
    assert(s@ =~= severity_text(severity@));
    s
}

/// The text for a database size: `N B` below one kilobyte, otherwise
/// as [`memory_bytes_text`].
pub open spec fn db_size_text(bytes: nat) -> Seq<char> {
    if bytes < 1024 {
        decimal(bytes) + seq![' ', 'B']
    } else {
        memory_bytes_text(bytes)
    }
}

/// A database size of a kilobyte or more reads exactly as the same number
/// of bytes of memory does; below that it is the byte count and `B`.
pub proof fn db_size_reads_as_memory(bytes: nat)
    ensures
        bytes >= 1024 ==> db_size_text(bytes) == memory_bytes_text(bytes),
        bytes < 1024 ==> db_size_text(bytes) == decimal(bytes) + " B"@,
{
    reveal_strlit(" B");
    assert(seq![' ', 'B'] =~= " B"@);
}

/// Format a byte count for DB size display.
pub fn format_db_size(bytes: u64) -> (s: String)
    ensures
        s@ == db_size_text(bytes as nat),
{
    if bytes < 1024 {
        let mut s = String::new();
        push_decimal(&mut s, bytes as u128);
        s.push(' ');
        s.push('B');
        assert(s@ =~= db_size_text(bytes as nat));
        s
    } else {
        format_memory_bytes(bytes)
    }
}

/// Whether `chrono::DateTime::from_timestamp` accepts the Unix time `ts`
/// (its source bounds the date by the years its packed date format
/// holds: from -262143-01-01 00:00:00 to 262142-12-31 23:59:59 UTC).
pub open spec fn timestamp_in_range(ts: int) -> bool {
    -8_334_601_228_800 <= ts <= 8_210_266_876_799
}

/// Whether `text` is the local date and time of the Unix time `ts` in some
/// time zone: the `%Y-%m-%d %H:%M:%S` text of the second `ts + offset`,
/// for a UTC offset of less than a day either way.
pub open spec fn local_time_text(ts: int, text: Seq<char>) -> bool {
    exists|local: int| -86400 < local - ts < 86400 && #[trigger] renders(local, text)
}

/// Two timestamps whose local date-and-time texts are the same lie less
/// than two days apart, whatever the time zone did between them; so a
/// text read as another instant (such as the timestamp taken as
/// milliseconds) is never the text of the timestamp itself, once the two
/// are two days apart or more.
pub proof fn local_text_pins_the_timestamp(ts1: int, ts2: int, text: Seq<char>)
    requires
        local_time_text(ts1, text),
        local_time_text(ts2, text),
    ensures
        -2 * 86400 < ts1 - ts2 < 2 * 86400,
{
    let l1 = choose|local: int| -86400 < local - ts1 < 86400 && #[trigger] renders(local, text);
    let l2 = choose|local: int| -86400 < local - ts2 < 86400 && #[trigger] renders(local, text);
    text_names_one_instant(l1, l2, text);
}

/// `chrono::DateTime::from_timestamp(ts, 0)`, rendered in the local time
/// zone as `%Y-%m-%d %H:%M:%S`. The result is `Some` exactly for the
/// timestamps chrono can represent. The text is the calendar date and time
/// of `ts` shifted by the local UTC offset, a `FixedOffset`, which chrono
/// keeps strictly within a day either way (`FixedOffset::east_opt`);
/// which offset applies depends on the machine's time zone and is not
/// stated. chrono's calendar is the proleptic Gregorian one, and `%Y`
/// writes the year with at least four digits (with a sign outside
/// 0..=9999), the other five fields with two digits each, with five
/// separators, so the text has at least 19 characters.
#[verifier::external_body]
fn local_datetime_text(ts: i64) -> (r: Option<String>)
    ensures
        r is Some <==> timestamp_in_range(ts as int),
        r matches Some(t) ==> t@.len() >= 19,
        r matches Some(t) ==> local_time_text(ts as int, t@),
{
    match chrono::DateTime::from_timestamp(ts, 0) {
        Some(dt) => Some(dt.with_timezone(&chrono::Local).format("%Y-%m-%d %H:%M:%S").to_string()),
        None => None,
    }
}

/// The text shown for a converted timestamp: the local date and time, or
/// `unknown` when there is none.
pub fn timestamp_text(local: Option<String>) -> (s: String)
    ensures
        s@ == match local {
            Some(t) => t@,
            None => "unknown"@,
        },
{
    match local {
        Some(t) => t,
        None => String::from_str("unknown"),
    }
}

/// Format a Unix timestamp into a local datetime string; `unknown` for
/// timestamps outside chrono's range.
pub fn format_timestamp(ts: i64) -> (s: String)
    ensures
        !timestamp_in_range(ts as int) ==> s@ == "unknown"@,
        timestamp_in_range(ts as int) ==> s@.len() >= 19,
        timestamp_in_range(ts as int) ==> local_time_text(ts as int, s@),
{
    timestamp_text(local_datetime_text(ts))
}

} // verus!
