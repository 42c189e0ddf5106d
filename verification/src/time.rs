//! Durations for the user to read, and what a clock shows.
//!
//! A duration is a number of seconds. Its hours and minutes are whole: what
//! does not fill a minute is dropped, also from a negative duration, which is
//! cut towards zero.

use vstd::prelude::*;
use vstd::string::StringExecFns;
use crate::arguments::TimeFormat;
use crate::clock::Clock;
use crate::decimal::{decimal, push_decimal};
pub use crate::interval::{Interval, Search};

verus! {

broadcast use vstd::string::group_string_axioms;

/// `a` divided by `b`, for `b` above zero, with the quotient cut towards
/// zero.
pub open spec fn quotient(a: int, b: int) -> int {
    if a >= 0 {
        a / b
    } else {
        -((-a) / b)
    }
}

/// What remains of `a` when `quotient(a, b)` times `b` is taken from it.
pub open spec fn remainder(a: int, b: int) -> int {
    a - quotient(a, b) * b
}

/// The whole minutes of `duration`.
pub open spec fn minutes_of(duration: int) -> int {
    quotient(duration, 60)
}

/// The whole hours of `duration`.
pub open spec fn hours_of(duration: int) -> int {
    quotient(duration, 3600)
}

/// The minutes of `duration` brought up to a quarter of an hour: minutes
/// that are a multiple of 15 stay, others go up to the next multiple above
/// the one that lies towards zero.
pub open spec fn quarter_minutes(duration: int) -> int {
    let minutes = minutes_of(duration);
    let over = remainder(minutes, 15);
    if over == 0 {
        minutes
    } else {
        minutes - over + 15
    }
}

/// The hours of `duration` in halves: the whole hours, and for the minutes
/// beyond them a whole hour if they are more than 30, half an hour if they
/// are more than 15.
pub open spec fn half_hours(duration: int) -> int {
    let beyond = minutes_of(duration) - hours_of(duration) * 60;
    if beyond > 30 {
        2 * hours_of(duration) + 2
    } else if beyond > 15 {
        2 * hours_of(duration) + 1
    } else {
        2 * hours_of(duration)
    }
}

/// `units` of a unit in words: nothing for none, the singular for one.
pub open spec fn counted(units: int, singular: Seq<char>) -> Seq<char> {
    if units == 0 {
        Seq::empty()
    } else if units == 1 {
        "1 "@ + singular
    } else {
        decimal(units) + " "@ + singular + "s"@
    }
}

/// Hours and minutes in words.
pub open spec fn human_readable(hours: int, minutes: int) -> Seq<char> {
    if hours == 0 && minutes == 0 {
        "Less than a minute"@
    } else if hours == 0 {
        counted(minutes, "minute"@)
    } else if minutes == 0 {
        counted(hours, "hour"@)
    } else {
        counted(hours, "hour"@) + " and "@ + counted(minutes, "minute"@)
    }
}

/// The seconds since the epoch at the moment that `clock` shows.
pub fn now(clock: &Clock) -> (r: i64)
    ensures
        r == clock@.timestamp,
{
    clock.timestamp()
}

/// The midnight with which the day of `clock` began, in seconds since the
/// epoch as if the clock on the wall showed universal time.
pub fn today_date_time(clock: &Clock) -> (r: i64)
    ensures
        r == clock@.midnight,
{
    clock.midnight()
}

/// The whole minutes of a duration of seconds.
pub fn get_minutes(duration: i64) -> (r: i64)
    ensures
        r == minutes_of(duration as int),
{
    duration / 60
}

/// The minutes of a duration of seconds, brought up to a quarter of an hour.
pub fn approximate_minutes(duration: i64) -> (r: i64)
    ensures
        r == quarter_minutes(duration as int),
{
    let answer = duration / 60;
    let remainder_minutes = 15 - (answer % 15);
    if remainder_minutes != 15 {
        answer + remainder_minutes
    } else {
        answer
    }
}

/// The hours of a duration of seconds, counted in half hours.
pub fn approximate_half_hours(duration: i64) -> (r: i64)
    ensures
        r == half_hours(duration as int),
{
    let hours = duration / 3600;
    let remainder_minutes = duration / 60 - hours * 60;
    if remainder_minutes > 30 {
        2 * hours + 2
    } else if remainder_minutes > 15 {
        2 * hours + 1
    } else {
        2 * hours
    }
}

/// Appends `units` of the unit `singular` to `out`, in words.
fn push_counted(out: &mut String, units: i64, singular: &str)
    ensures
        final(out)@ == old(out)@ + counted(units as int, singular@),
{
    if units == 0 {
    } else if units == 1 {
        out.append("1 ");
        out.append(singular);
    } else {
        push_decimal(out, units);
        out.append(" ");
        out.append(singular);
        out.append("s");
    }
    assert(out@ =~= old(out)@ + counted(units as int, singular@));
}

/// Hours and minutes in words.
pub fn format_human_readable(hours: i64, minutes: i64) -> (r: String)
    ensures
        r@ == human_readable(hours as int, minutes as int),
{
    let mut out = String::new();
    if hours == 0 && minutes == 0 {
        out.append("Less than a minute");
    } else if hours == 0 {
        push_counted(&mut out, minutes, "minute");
    } else if minutes == 0 {
        push_counted(&mut out, hours, "hour");
    } else {
        push_counted(&mut out, hours, "hour");
        out.append(" and ");
        push_counted(&mut out, minutes, "minute");
    }
    assert(out@ =~= human_readable(hours as int, minutes as int));
    out
}

/// A duration of seconds in words: its whole hours, and the whole minutes
/// beyond them.
pub fn get_human_readable_form(duration: i64) -> (r: String)
    ensures
        r@ == human_readable(
            hours_of(duration as int),
            remainder(minutes_of(duration as int), 60),
        ),
{
    let total_hours = duration / 3600;
    let total_minutes = (duration / 60) % 60;
    format_human_readable(total_hours, total_minutes)
}

/// Half hours as hours: the whole hours, and `.5` for a half.
pub open spec fn halves_text(halves: int) -> Seq<char> {
    if remainder(halves, 2) == 0 {
        decimal(quotient(halves, 2))
    } else {
        decimal(quotient(halves, 2)) + ".5"@
    }
}

/// A duration of seconds as `format` shows it.
pub open spec fn formatted(format: TimeFormat, duration: int) -> Seq<char> {
    match format {
        TimeFormat::Minutes => decimal(minutes_of(duration)),
        TimeFormat::MinutesApprox => decimal(quarter_minutes(duration)),
        TimeFormat::HoursApprox => halves_text(half_hours(duration)),
        TimeFormat::HumanReadable => human_readable(
            hours_of(duration),
            remainder(minutes_of(duration), 60),
        ),
    }
}

/// Shows a duration of seconds in the format `time_format`.
pub fn format_time(time_format: &TimeFormat, duration: i64) -> (r: String)
    ensures
        r@ == formatted(*time_format, duration as int),
{
    match time_format {
        TimeFormat::Minutes => {
            let mut out = String::new();
            push_decimal(&mut out, get_minutes(duration));
            out
        },
        TimeFormat::MinutesApprox => {
            let mut out = String::new();
            push_decimal(&mut out, approximate_minutes(duration));
            out
        },
        TimeFormat::HoursApprox => {
            let halves = approximate_half_hours(duration);
            let mut out = String::new();
            push_decimal(&mut out, halves / 2);
            if halves % 2 != 0 {
                out.append(".5");
            }
            out
        },
        TimeFormat::HumanReadable => get_human_readable_form(duration),
    }
}

} // verus!
