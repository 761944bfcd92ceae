//! Time specifications: the textual time rules that attribute values carry.
//!
//! A specification is one of
//! - `EMERGENCY`: holds while the environment's `emergency_mode` is `true`;
//! - `BUSINESS_HOURS`: Monday to Friday, 09:00 to 17:00 (both included);
//! - `MAINTENANCE:<day>:<hh:mm-hh:mm>`: a window on one weekday;
//! - `<day>:<hh:mm-hh:mm>` or `<day>-<day>:<hh:mm-hh:mm>`: a window on a weekday
//!   or on a range of weekdays (Monday first);
//! - `<hh:mm>-<hh:mm>`: a daily window.
//!
//! The day part ends at the first `:`; the rest is the window, whose times keep
//! their own `:`. Both ends of a window are included.
use vstd::prelude::*;
use vstd::utf8::is_ascii_chars;

use crate::abac::attribute::Environment;
use crate::clock::{
    now, parse_rfc3339, rfc3339_instant, time_of_day, time_of_day_of, weekday_index,
    weekday_index_of, NANOS_PER_HOUR, NANOS_PER_MINUTE,
};
use crate::text::{
    chars_of, has_prefix, parse_u32, parse_u32_spec, split_on, split_once, split_str,
    str_contains_char, str_eq, str_split_once, str_starts_with, strs,
};
use crate::types::common::AttributeValue;
use crate::types::time::Weekday;

verus! {

/// What `str::to_uppercase` gives for a string.
pub uninterp spec fn uppercase(s: Seq<char>) -> Seq<char>;

/// A character upper-cased the ASCII way: `a` to `z` become `A` to `Z`.
pub open spec fn ascii_upper(c: char) -> char {
    if 'a' <= c && c <= 'z' {
        ((c as u32) - 32) as char
    } else {
        c
    }
}

/// What `str::to_uppercase` gives: for an ASCII string, each letter upper-cased in
/// place; beyond ASCII, the Unicode case mappings (`uppercase`).
pub open spec fn upper_text(s: Seq<char>) -> Seq<char> {
    if is_ascii_chars(s) {
        s.map_values(|c: char| ascii_upper(c))
    } else {
        uppercase(s)
    }
}

/// Upper-cases a string.
///
/// Calls `str::to_uppercase`, whose result follows the Unicode case mappings. Among
/// ASCII characters these map `a` to `z` to `A` to `Z` and leave the rest, so an
/// ASCII string keeps its length; beyond ASCII the contract names the result
/// (`uppercase`).
#[verifier::external_body]
fn to_uppercase(s: &str) -> (r: String)
    ensures
        is_ascii_chars(s@) ==> r@ == s@.map_values(|c: char| ascii_upper(c)),
        !is_ascii_chars(s@) ==> r@ == uppercase(s@),
{
    s.to_uppercase()
}

/// The weekday a name stands for: three-letter or full English names, in any case.
pub open spec fn weekday_named(s: Seq<char>) -> Option<Weekday> {
    let u = upper_text(s);
    if u == "MON"@ || u == "MONDAY"@ {
        Some(Weekday::Mon)
    } else if u == "TUE"@ || u == "TUESDAY"@ {
        Some(Weekday::Tue)
    } else if u == "WED"@ || u == "WEDNESDAY"@ {
        Some(Weekday::Wed)
    } else if u == "THU"@ || u == "THURSDAY"@ {
        Some(Weekday::Thu)
    } else if u == "FRI"@ || u == "FRIDAY"@ {
        Some(Weekday::Fri)
    } else if u == "SAT"@ || u == "SATURDAY"@ {
        Some(Weekday::Sat)
    } else if u == "SUN"@ || u == "SUNDAY"@ {
        Some(Weekday::Sun)
    } else {
        None
    }
}

/// A weekday range `a-b` (inclusive, Monday first) or a single day contains `day`
/// (0 is Monday).
pub open spec fn weekday_in_range(range: Seq<char>, day: int) -> bool {
    if range.contains('-') {
        let parts = split_on(range, '-');
        parts.len() == 2 && match (weekday_named(parts[0]), weekday_named(parts[1])) {
            (Some(a), Some(b)) => a.index() <= day <= b.index(),
            _ => false,
        }
    } else {
        match weekday_named(range) {
            Some(w) => w.index() == day,
            None => false,
        }
    }
}

/// The time of day `hh:mm` names, in nanoseconds since midnight.
pub open spec fn clock_time(s: Seq<char>) -> Option<int> {
    let parts = split_on(s, ':');
    if parts.len() == 2 {
        match (parse_u32_spec(parts[0]), parse_u32_spec(parts[1])) {
            (Some(h), Some(m)) => if h < 24 && m < 60 {
                Some(h * NANOS_PER_HOUR + m * NANOS_PER_MINUTE)
            } else {
                None
            },
            _ => None,
        }
    } else {
        None
    }
}

/// The range `hh:mm-hh:mm` contains the time of day of `t` (both ends included).
pub open spec fn in_clock_range(range: Seq<char>, t: int) -> bool {
    let parts = split_on(range, '-');
    parts.len() == 2 && match (clock_time(parts[0]), clock_time(parts[1])) {
        (Some(a), Some(b)) => a <= time_of_day(t) <= b,
        _ => false,
    }
}

/// The environment declares an emergency.
pub open spec fn emergency_declared(env: Environment) -> bool {
    env.attributes.lookup("emergency_mode"@) matches Some(AttributeValue::Boolean(b)) && b
}

/// `s` names a weekday or a range `a-b` of weekdays.
pub open spec fn names_days(s: Seq<char>) -> bool {
    if s.contains('-') {
        let parts = split_on(s, '-');
        parts.len() == 2 && weekday_named(parts[0]) is Some && weekday_named(parts[1]) is Some
    } else {
        weekday_named(s) is Some
    }
}

/// The time specification `spec` holds at instant `t`.
pub open spec fn time_spec_holds(spec: Seq<char>, t: int, env: Environment) -> bool {
    if spec == "EMERGENCY"@ {
        emergency_declared(env)
    } else if spec == "BUSINESS_HOURS"@ {
        weekday_index(t) <= 4 && 9 * NANOS_PER_HOUR <= time_of_day(t) <= 17 * NANOS_PER_HOUR
    } else if has_prefix(spec, "MAINTENANCE:"@) {
        match split_once(spec, ':') {
            Some((_, rest)) => match split_once(rest, ':') {
                Some((day, window)) => match weekday_named(day) {
                    Some(w) => w.index() == weekday_index(t) && in_clock_range(window, t),
                    None => false,
                },
                None => false,
            },
            None => false,
        }
    } else {
        match split_once(spec, ':') {
            Some((days, window)) => if names_days(days) {
                weekday_in_range(days, weekday_index(t)) && in_clock_range(window, t)
            } else {
                in_clock_range(spec, t)
            },
            None => in_clock_range(spec, t),
        }
    }
}

/// Some specification of `specs` holds at `t`.
pub open spec fn any_time_spec_holds(specs: Seq<Seq<char>>, t: int, env: Environment) -> bool {
    exists|i: int| 0 <= i < specs.len() && time_spec_holds(#[trigger] specs[i], t, env)
}

/// An attribute value read as time specifications holds at `t`: a string is one
/// specification, an array holds when any of its entries does.
pub open spec fn time_value_holds(value: AttributeValue, t: int, env: Environment) -> bool {
    match value {
        AttributeValue::String(s) => time_spec_holds(s@, t, env),
        AttributeValue::Array(a) => any_time_spec_holds(strs(a@), t, env),
        _ => false,
    }
}

/// The instant the rules are checked at: the environment's `current_time` when it is
/// an RFC 3339 date-time, else `now`.
pub open spec fn evaluation_time(env: Environment, now: int) -> int {
    match env.attributes.lookup("current_time"@) {
        Some(AttributeValue::String(s)) => match rfc3339_instant(s@) {
            Some(t) => t,
            None => now,
        },
        _ => now,
    }
}

/// The `EMERGENCY` specification holds at any instant exactly when the
/// environment's `emergency_mode` is `true`: not when it is `false`, absent, or not
/// a flag.
pub proof fn lemma_emergency_needs_true_flag(value: AttributeValue, t: int, env: Environment)
    requires
        value matches AttributeValue::String(x) && x@ == "EMERGENCY"@,
    ensures
        time_value_holds(value, t, env) <==> env.attributes.lookup("emergency_mode"@) == Some(
            AttributeValue::Boolean(true),
        ),
        env.attributes.lookup("emergency_mode"@) == Some(AttributeValue::Boolean(false)) ==> !time_value_holds(
            value,
            t,
            env,
        ),
        env.attributes.lookup("emergency_mode"@) is None ==> !time_value_holds(value, t, env),
{
}

/// The weekday a name stands for.
pub fn parse_weekday(s: &str) -> (r: Option<Weekday>)
    ensures
        r == weekday_named(s@),
{
    let u = to_uppercase(s);
    let u = u.as_str();
    if str_eq(u, "MON") || str_eq(u, "MONDAY") {
        Some(Weekday::Mon)
    } else if str_eq(u, "TUE") || str_eq(u, "TUESDAY") {
        Some(Weekday::Tue)
    } else if str_eq(u, "WED") || str_eq(u, "WEDNESDAY") {
        Some(Weekday::Wed)
    } else if str_eq(u, "THU") || str_eq(u, "THURSDAY") {
        Some(Weekday::Thu)
    } else if str_eq(u, "FRI") || str_eq(u, "FRIDAY") {
        Some(Weekday::Fri)
    } else if str_eq(u, "SAT") || str_eq(u, "SATURDAY") {
        Some(Weekday::Sat)
    } else if str_eq(u, "SUN") || str_eq(u, "SUNDAY") {
        Some(Weekday::Sun)
    } else {
        None
    }
}

/// A weekday range or single day contains `day` (0 is Monday).
pub fn is_weekday_in_range(range: &str, day: Weekday) -> (r: bool)
    ensures
        r == weekday_in_range(range@, day.index()),
{
    if str_contains_char(range, '-') {
        let parts = split_str(range, '-');
        if parts.len() == 2 {
            assert(parts@[0]@ == split_on(range@, '-')[0]);
            assert(parts@[1]@ == split_on(range@, '-')[1]);
            match (parse_weekday(parts[0].as_str()), parse_weekday(parts[1].as_str())) {
                (Some(a), Some(b)) => {
                    let start = a.number_from_monday();
                    let end = b.number_from_monday();
                    let cur = day.number_from_monday();
                    cur >= start && cur <= end
                },
                _ => false,
            }
        } else {
            false
        }
    } else {
        match parse_weekday(range) {
            Some(w) => w == day,
            None => false,
        }
    }
}

/// The time of day `hh:mm` names, in nanoseconds since midnight.
pub fn parse_time(s: &str) -> (r: Option<i128>)
    ensures
        match r {
            Some(x) => clock_time(s@) == Some(x as int),
            None => clock_time(s@) is None,
        },
{
    let parts = split_str(s, ':');
    if parts.len() == 2 {
        assert(parts@[0]@ == split_on(s@, ':')[0]);
        assert(parts@[1]@ == split_on(s@, ':')[1]);
        let h = parse_u32(chars_of(parts[0].as_str()).as_slice());
        let m = parse_u32(chars_of(parts[1].as_str()).as_slice());
        match (h, m) {
            (Some(h), Some(m)) => {
                if h < 24 && m < 60 {
                    Some(h as i128 * NANOS_PER_HOUR + m as i128 * NANOS_PER_MINUTE)
                } else {
                    None
                }
            },
            _ => None,
        }
    } else {
        None
    }
}

/// The range `hh:mm-hh:mm` contains the time of day of `t`.
pub fn parse_time_range(range: &str, t: i128) -> (r: bool)
    ensures
        r == in_clock_range(range@, t as int),
{
    let parts = split_str(range, '-');
    if parts.len() == 2 {
        assert(parts@[0]@ == split_on(range@, '-')[0]);
        assert(parts@[1]@ == split_on(range@, '-')[1]);
        match (parse_time(parts[0].as_str()), parse_time(parts[1].as_str())) {
            (Some(a), Some(b)) => {
                let tod = time_of_day_of(t);
                tod >= a && tod <= b
            },
            _ => false,
        }
    } else {
        false
    }
}

/// The environment declares an emergency.
pub fn emergency_mode(env: &Environment) -> (r: bool)
    ensures
        r == emergency_declared(*env),
{
    match env.attributes.get("emergency_mode") {
        Some(AttributeValue::Boolean(b)) => *b,
        _ => false,
    }
}

/// `s` names a weekday or a range of weekdays.
pub fn is_day_spec(s: &str) -> (r: bool)
    ensures
        r == names_days(s@),
{
    if str_contains_char(s, '-') {
        let parts = split_str(s, '-');
        if parts.len() == 2 {
            assert(parts@[0]@ == split_on(s@, '-')[0]);
            assert(parts@[1]@ == split_on(s@, '-')[1]);
            parse_weekday(parts[0].as_str()).is_some() && parse_weekday(parts[1].as_str()).is_some()
        } else {
            false
        }
    } else {
        parse_weekday(s).is_some()
    }
}

/// The time specification `spec` holds at `t`.
pub fn check_time_spec(spec: &str, t: i128, env: &Environment) -> (r: bool)
    ensures
        r == time_spec_holds(spec@, t as int, *env),
{
    if str_eq(spec, "EMERGENCY") {
        return emergency_mode(env);
    }
    if str_eq(spec, "BUSINESS_HOURS") {
        let wd = weekday_index_of(t);
        let tod = time_of_day_of(t);
        return wd <= 4 && tod >= 9 * NANOS_PER_HOUR && tod <= 17 * NANOS_PER_HOUR;
    }
    if str_starts_with(spec, "MAINTENANCE:") {
        if let Some((_, rest)) = str_split_once(spec, ':') {
            if let Some((day, window)) = str_split_once(rest.as_str(), ':') {
                if let Some(w) = parse_weekday(day.as_str()) {
                    let wd = weekday_index_of(t);
                    if w == Weekday::from_index(wd) {
                        return parse_time_range(window.as_str(), t);
                    }
                }
            }
        }
        return false;
    }
    match str_split_once(spec, ':') {
        Some((days, window)) => {
            if is_day_spec(days.as_str()) {
                let wd = weekday_index_of(t);
                is_weekday_in_range(days.as_str(), Weekday::from_index(wd)) && parse_time_range(
                    window.as_str(),
                    t,
                )
            } else {
                parse_time_range(spec, t)
            }
        },
        None => parse_time_range(spec, t),
    }
}

/// An attribute value, read as time specifications, holds at `t`.
pub fn check_time_value(value: &AttributeValue, t: i128, env: &Environment) -> (r: bool)
    ensures
        r == time_value_holds(*value, t as int, *env),
{
    match value {
        AttributeValue::Array(specs) => {
            let mut i: usize = 0;
            while i < specs.len()
                invariant
                    *value == AttributeValue::Array(*specs),
                    i <= specs@.len(),
                    forall|j: int| 0 <= j < i ==> !time_spec_holds(#[trigger] strs(specs@)[j], t as int, *env),
                decreases specs.len() - i,
            {
                if check_time_spec(specs[i].as_str(), t, env) {
                    assert(strs(specs@)[i as int] == specs@[i as int]@);
                    assert(time_spec_holds(strs(specs@)[i as int], t as int, *env));
                    return true;
                }
                i = i + 1;
            }
            false
        },
        AttributeValue::String(spec) => check_time_spec(spec.as_str(), t, env),
        _ => false,
    }
}

/// The instant the rules are checked at, given the current instant.
pub fn evaluation_instant(env: &Environment, now: i128) -> (r: i128)
    ensures
        r == evaluation_time(*env, now as int),
{
    match env.attributes.get("current_time") {
        Some(AttributeValue::String(s)) => match parse_rfc3339(s.as_str()) {
            Some(t) => t,
            None => now,
        },
        _ => now,
    }
}

} // verus!
