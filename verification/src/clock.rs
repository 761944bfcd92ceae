//! Instants and durations as nanosecond counts, and the calendar facts that the
//! access rules read from an instant.
//!
//! An instant is the number of nanoseconds since 1970-01-01T00:00:00 UTC (`i128`);
//! a duration is a signed number of nanoseconds (`i128`). The calendar is the
//! proleptic Gregorian calendar in UTC, so a day is exactly `NANOS_PER_DAY` long.
use vstd::prelude::*;

verus! {

pub const NANOS_PER_SECOND: i128 = 1_000_000_000;

pub const NANOS_PER_MINUTE: i128 = 60_000_000_000;

pub const NANOS_PER_HOUR: i128 = 3_600_000_000_000;

pub const NANOS_PER_DAY: i128 = 86_400_000_000_000;

/// The earliest second that a UTC date-time can hold (year -262143, January 1st).
pub const MIN_SECONDS: i64 = -8_334_601_315_200;

/// The latest second that a UTC date-time can hold (year 262142, December 31st, 23:59:59).
pub const MAX_SECONDS: i64 = 8_210_266_876_799;

/// The earliest instant that a UTC date-time can hold.
pub const MIN_INSTANT: i128 = -8_334_601_315_200_000_000_000;

/// The latest instant that a UTC date-time can hold.
pub const MAX_INSTANT: i128 = 8_210_266_876_799_999_999_999;

/// The largest magnitude of a duration: `i64::MAX` milliseconds.
pub const MAX_DURATION: i128 = 9_223_372_036_854_775_807_000_000;

/// `t` lies in the range of UTC date-times.
pub open spec fn valid_instant(t: int) -> bool {
    MIN_INSTANT <= t <= MAX_INSTANT
}

/// `d` lies in the range of durations.
pub open spec fn valid_duration(d: int) -> bool {
    -MAX_DURATION <= d <= MAX_DURATION
}

/// The instant `secs` seconds and `nanos` nanoseconds after the epoch.
pub open spec fn instant_of(secs: i64, nanos: u32) -> int {
    secs * NANOS_PER_SECOND + nanos
}

/// The day of `t`, counted from 1970-01-01 (day 0).
pub open spec fn day_number(t: int) -> int {
    t / (NANOS_PER_DAY as int)
}

/// Nanoseconds since midnight.
pub open spec fn time_of_day(t: int) -> int {
    t % (NANOS_PER_DAY as int)
}

/// Weekday of `t` counted from Monday: 0 is Monday, 6 is Sunday (1970-01-01 was a Thursday).
pub open spec fn weekday_index(t: int) -> int {
    (day_number(t) + 3) % 7
}

/// Whole seconds since the epoch, rounded down.
pub open spec fn whole_seconds(t: int) -> int {
    t / (NANOS_PER_SECOND as int)
}

/// Reads the system clock: whole seconds since the epoch and the nanoseconds past them.
///
/// Calls `chrono::Utc::now` and reads `timestamp` and `timestamp_subsec_nanos` of the
/// result. The contract claims only what that source shows of every outcome: the
/// clock is read as a duration since the epoch (a clock before the epoch panics
/// there), the nanoseconds come from `Duration::subsec_nanos`, and the result was
/// accepted by `DateTime::from_timestamp`. Which instant comes back is not stated.
#[verifier::external_body]
fn utc_now_parts() -> (r: (i64, u32))
    ensures
        0 <= r.0 <= MAX_SECONDS,
        r.1 < 1_000_000_000,
{
    let t = chrono::Utc::now();
    (t.timestamp(), t.timestamp_subsec_nanos())
}

/// The current instant.
pub fn now() -> (t: i128)
    ensures
        valid_instant(t as int),
        t >= 0,
{
    let (secs, nanos) = utc_now_parts();
    secs as i128 * NANOS_PER_SECOND + nanos as i128
}

/// What `chrono::DateTime::parse_from_rfc3339` gives for a string, as whole seconds
/// since the epoch and the nanoseconds past them (`None` when it refuses the string).
pub uninterp spec fn rfc3339_parts(s: Seq<char>) -> Option<(i64, u32)>;

/// Parses an RFC 3339 date-time.
///
/// Calls `chrono::DateTime::parse_from_rfc3339` and reads `timestamp` and
/// `timestamp_subsec_nanos` of the result. The contract names the result
/// (`rfc3339_parts`) and states that a parsed date-time lies in chrono's range and
/// that its nanoseconds stay below two seconds (chrono documents up to
/// 1,999,999,999 for a leap second).
#[verifier::external_body]
fn parse_rfc3339_parts(s: &str) -> (r: Option<(i64, u32)>)
    ensures
        r == rfc3339_parts(s@),
        r matches Some(p) ==> MIN_SECONDS <= p.0 <= MAX_SECONDS && p.1 < 2_000_000_000,
{
    match chrono::DateTime::parse_from_rfc3339(s) {
        Ok(dt) => Some((dt.timestamp(), dt.timestamp_subsec_nanos())),
        Err(_) => None,
    }
}

/// The instant an RFC 3339 date-time names, if it parses.
pub open spec fn rfc3339_instant(s: Seq<char>) -> Option<int> {
    match rfc3339_parts(s) {
        Some(p) => Some(instant_of(p.0, p.1)),
        None => None,
    }
}

/// Parses an RFC 3339 date-time into an instant.
pub fn parse_rfc3339(s: &str) -> (r: Option<i128>)
    ensures
        match r {
            Some(t) => rfc3339_instant(s@) == Some(t as int),
            None => rfc3339_instant(s@) is None,
        },
{
    match parse_rfc3339_parts(s) {
        Some((secs, nanos)) => Some(secs as i128 * NANOS_PER_SECOND + nanos as i128),
        None => None,
    }
}

/// The day of `t`, counted from 1970-01-01.
pub fn day_of(t: i128) -> (r: i128)
    ensures
        r == day_number(t as int),
{
    t.checked_div_euclid(NANOS_PER_DAY).unwrap()
}

/// Nanoseconds since midnight.
pub fn time_of_day_of(t: i128) -> (r: i128)
    ensures
        r == time_of_day(t as int),
        0 <= r < NANOS_PER_DAY,
{
    t.checked_rem_euclid(NANOS_PER_DAY).unwrap()
}

/// Weekday of `t` counted from Monday (0) to Sunday (6).
pub fn weekday_index_of(t: i128) -> (r: i128)
    ensures
        r == weekday_index(t as int),
        0 <= r < 7,
{
    let d = day_of(t);
    assert(d < 0x1_0000_0000_0000_0000_0000_0000_0000) by (nonlinear_arith)
        requires
            d == (t as int) / (NANOS_PER_DAY as int),
            t <= i128::MAX,
    ;
    (d + 3).checked_rem_euclid(7).unwrap()
}

/// Whole seconds since the epoch, rounded down.
pub fn whole_seconds_of(t: i128) -> (r: i128)
    ensures
        r == whole_seconds(t as int),
{
    t.checked_div_euclid(NANOS_PER_SECOND).unwrap()
}

} // verus!
