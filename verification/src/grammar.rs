//! The expressions of time that a user may write, and how they are told
//! apart.
//!
//! There are seven patterns and two words. A number is one or two decimal
//! digits; what it may be depends on its place:
//!
//! | pattern   | meaning                                   | ranges                     |
//! |-----------|-------------------------------------------|----------------------------|
//! | `H`       | at H o'clock                              | 0-23                       |
//! | `H:M`     | at M minutes past H                       | 0-23, 0-59                 |
//! | `D H:M`   | on day D of a month, at H:M               | 1-31, then as above        |
//! | `D-M H:M` | on day D of month M, at H:M               | 1-31, 1-12, then as above  |
//! | `Nh`      | N hours from now, before or after         | 1-23                       |
//! | `Nm`      | N minutes from now, before or after       | 1-59                       |
//! | `H:Mh`    | H hours and M minutes from now            | 0-23, 0-59                 |
//!
//! Between a day and a time of day stands one character of white space. The
//! words are `today` and `yesterday`. An expression fits a pattern only as a
//! whole.

use vstd::prelude::*;
use crate::decimal::{char_digit_value, char_is_digit, digit_value, is_digit};
use crate::text::{char_is_space, chars_of, is_space, is_text};

verus! {

/// An expression of time, read but not yet placed on the calendar.
#[derive(Clone, Copy, PartialEq, Eq, Debug, Structural)]
pub enum TimeExpr {
    /// `H`
    AtHour { hour: u32 },
    /// `H:M`
    AtHourMinutes { hour: u32, minute: u32 },
    /// `D H:M`
    AtDayHourMinutes { day: u32, hour: u32, minute: u32 },
    /// `D-M H:M`
    AtDayMonthHourMinutes { day: u32, month: u32, hour: u32, minute: u32 },
    /// `Nh`
    HoursAgoOrUntil { hours: u32 },
    /// `Nm`
    MinutesAgoOrUntil { minutes: u32 },
    /// `H:Mh`
    HoursAndMinutesAgoOrUntil { hours: u32, minutes: u32 },
    /// `today`: the midnight with which the present day began.
    Today,
    /// `yesterday`: the midnight before that.
    Yesterday,
}

/// The patterns, in the order in which they are tried.
#[derive(Clone, Copy, PartialEq, Eq, Debug, Structural)]
pub enum Pattern {
    AtHour,
    AtHourMinutes,
    AtDayHourMinutes,
    AtDayMonthHourMinutes,
    HoursAgoOrUntil,
    MinutesAgoOrUntil,
    HoursAndMinutesAgoOrUntil,
}

/// A number read from a text, and the index behind it.
pub struct Number {
    pub value: u32,
    pub end: int,
}

/// A time of day read from a text, and the index behind it.
pub struct HourMinute {
    pub hour: u32,
    pub minute: u32,
    pub end: int,
}

/// The number that the digits at `i` write: two digits where two stand
/// there, else one.
pub open spec fn number_at(s: Seq<char>, i: int) -> Option<Number> {
    if 0 <= i < s.len() && is_digit(s[i]) {
        if i + 1 < s.len() && is_digit(s[i + 1]) {
            Some(
                Number { value: (10 * digit_value(s[i]) + digit_value(s[i + 1])) as u32, end: i + 2 },
            )
        } else {
            Some(Number { value: digit_value(s[i]) as u32, end: i + 1 })
        }
    } else {
        None
    }
}

/// The number at `i`, if it lies between `low` and `high`.
pub open spec fn field_at(s: Seq<char>, i: int, low: u32, high: u32) -> Option<Number> {
    match number_at(s, i) {
        Some(number) => if low <= number.value <= high {
            Some(number)
        } else {
            None
        },
        None => None,
    }
}

/// The time of day at `i`: an hour, a colon, a minute.
pub open spec fn hour_minute_at(s: Seq<char>, i: int) -> Option<HourMinute> {
    match field_at(s, i, 0, 23) {
        Some(hour) => if hour.end < s.len() && s[hour.end] == ':' {
            match field_at(s, hour.end + 1, 0, 59) {
                Some(minute) => Some(
                    HourMinute { hour: hour.value, minute: minute.value, end: minute.end },
                ),
                None => None,
            }
        } else {
            None
        },
        None => None,
    }
}

/// `H`
pub open spec fn at_hour(s: Seq<char>) -> Option<TimeExpr> {
    match field_at(s, 0, 0, 23) {
        Some(hour) => if hour.end == s.len() {
            Some(TimeExpr::AtHour { hour: hour.value })
        } else {
            None
        },
        None => None,
    }
}

/// `H:M`
pub open spec fn at_hour_minutes(s: Seq<char>) -> Option<TimeExpr> {
    match hour_minute_at(s, 0) {
        Some(time) => if time.end == s.len() {
            Some(TimeExpr::AtHourMinutes { hour: time.hour, minute: time.minute })
        } else {
            None
        },
        None => None,
    }
}

/// `D H:M`
pub open spec fn at_day_hour_minutes(s: Seq<char>) -> Option<TimeExpr> {
    match field_at(s, 0, 1, 31) {
        Some(day) => if day.end < s.len() && is_space(s[day.end]) {
            match hour_minute_at(s, day.end + 1) {
                Some(time) => if time.end == s.len() {
                    Some(
                        TimeExpr::AtDayHourMinutes {
                            day: day.value,
                            hour: time.hour,
                            minute: time.minute,
                        },
                    )
                } else {
                    None
                },
                None => None,
            }
        } else {
            None
        },
        None => None,
    }
}

/// `D-M H:M`
pub open spec fn at_day_month_hour_minutes(s: Seq<char>) -> Option<TimeExpr> {
    match field_at(s, 0, 1, 31) {
        Some(day) => if day.end < s.len() && s[day.end] == '-' {
            match field_at(s, day.end + 1, 1, 12) {
                Some(month) => if month.end < s.len() && is_space(s[month.end]) {
                    match hour_minute_at(s, month.end + 1) {
                        Some(time) => if time.end == s.len() {
                            Some(
                                TimeExpr::AtDayMonthHourMinutes {
                                    day: day.value,
                                    month: month.value,
                                    hour: time.hour,
                                    minute: time.minute,
                                },
                            )
                        } else {
                            None
                        },
                        None => None,
                    }
                } else {
                    None
                },
                None => None,
            }
        } else {
            None
        },
        None => None,
    }
}

/// `Nh`
pub open spec fn hours_ago_or_until(s: Seq<char>) -> Option<TimeExpr> {
    match field_at(s, 0, 1, 23) {
        Some(hours) => if hours.end + 1 == s.len() && s[hours.end] == 'h' {
            Some(TimeExpr::HoursAgoOrUntil { hours: hours.value })
        } else {
            None
        },
        None => None,
    }
}

/// `Nm`
pub open spec fn minutes_ago_or_until(s: Seq<char>) -> Option<TimeExpr> {
    match field_at(s, 0, 1, 59) {
        Some(minutes) => if minutes.end + 1 == s.len() && s[minutes.end] == 'm' {
            Some(TimeExpr::MinutesAgoOrUntil { minutes: minutes.value })
        } else {
            None
        },
        None => None,
    }
}

/// `H:Mh`
pub open spec fn hours_and_minutes_ago_or_until(s: Seq<char>) -> Option<TimeExpr> {
    match hour_minute_at(s, 0) {
        Some(time) => if time.end + 1 == s.len() && s[time.end] == 'h' {
            Some(TimeExpr::HoursAndMinutesAgoOrUntil { hours: time.hour, minutes: time.minute })
        } else {
            None
        },
        None => None,
    }
}

impl Pattern {
    /// What the pattern reads in `s`, if `s` fits it.
    pub open spec fn read(self, s: Seq<char>) -> Option<TimeExpr> {
        match self {
            Pattern::AtHour => at_hour(s),
            Pattern::AtHourMinutes => at_hour_minutes(s),
            Pattern::AtDayHourMinutes => at_day_hour_minutes(s),
            Pattern::AtDayMonthHourMinutes => at_day_month_hour_minutes(s),
            Pattern::HoursAgoOrUntil => hours_ago_or_until(s),
            Pattern::MinutesAgoOrUntil => minutes_ago_or_until(s),
            Pattern::HoursAndMinutesAgoOrUntil => hours_and_minutes_ago_or_until(s),
        }
    }
}

/// What `s` says: the reading of the first pattern that it fits, else the
/// word that it is; nothing for any other text.
pub open spec fn classified(s: Seq<char>) -> Option<TimeExpr> {
    if at_hour(s) is Some {
        at_hour(s)
    } else if at_hour_minutes(s) is Some {
        at_hour_minutes(s)
    } else if at_day_hour_minutes(s) is Some {
        at_day_hour_minutes(s)
    } else if at_day_month_hour_minutes(s) is Some {
        at_day_month_hour_minutes(s)
    } else if hours_ago_or_until(s) is Some {
        hours_ago_or_until(s)
    } else if minutes_ago_or_until(s) is Some {
        minutes_ago_or_until(s)
    } else if hours_and_minutes_ago_or_until(s) is Some {
        hours_and_minutes_ago_or_until(s)
    } else if s == "today"@ {
        Some(TimeExpr::Today)
    } else if s == "yesterday"@ {
        Some(TimeExpr::Yesterday)
    } else {
        None
    }
}

impl TimeExpr {
    /// Every number lies in the range that its place allows.
    pub open spec fn wf(self) -> bool {
        match self {
            TimeExpr::AtHour { hour } => hour <= 23,
            TimeExpr::AtHourMinutes { hour, minute } => hour <= 23 && minute <= 59,
            TimeExpr::AtDayHourMinutes { day, hour, minute } => 1 <= day <= 31 && hour <= 23
                && minute <= 59,
            TimeExpr::AtDayMonthHourMinutes { day, month, hour, minute } => 1 <= day <= 31 && 1
                <= month <= 12 && hour <= 23 && minute <= 59,
            TimeExpr::HoursAgoOrUntil { hours } => 1 <= hours <= 23,
            TimeExpr::MinutesAgoOrUntil { minutes } => 1 <= minutes <= 59,
            TimeExpr::HoursAndMinutesAgoOrUntil { hours, minutes } => hours <= 23 && minutes <= 59,
            TimeExpr::Today => true,
            TimeExpr::Yesterday => true,
        }
    }
}

/// What the patterns read is in range.
pub proof fn lemma_classified_wf(s: Seq<char>)
    ensures
        classified(s) matches Some(expr) ==> expr.wf(),
{
}

/// No text fits two patterns.
pub proof fn lemma_patterns_apart(s: Seq<char>, p: Pattern, q: Pattern)
    requires
        p != q,
        p.read(s) is Some,
    ensures
        q.read(s) is None,
{
}

/// A number read in executable code: the value and the index behind it.
struct Scan {
    value: u32,
    end: usize,
}

/// A time of day read in executable code, and the index behind it.
struct TimeScan {
    hour: u32,
    minute: u32,
    end: usize,
}

/// Reads the number at `i`, if it lies between `low` and `high`.
fn read_field(v: &Vec<char>, i: usize, low: u32, high: u32) -> (r: Option<Scan>)
    ensures
        match r {
            Some(scan) => field_at(v@, i as int, low, high) == Some(
                Number { value: scan.value, end: scan.end as int },
            ) && scan.end <= v.len(),
            None => field_at(v@, i as int, low, high) is None,
        },
{
    if i >= v.len() || !char_is_digit(v[i]) {
        return None;
    }
    let first = char_digit_value(v[i]) as u32;
    let scan = if i + 1 < v.len() && char_is_digit(v[i + 1]) {
        Scan { value: 10 * first + char_digit_value(v[i + 1]) as u32, end: i + 2 }
    } else {
        Scan { value: first, end: i + 1 }
    };
    if low <= scan.value && scan.value <= high {
        Some(scan)
    } else {
        None
    }
}

/// Reads the time of day at `i`.
fn read_hour_minute(v: &Vec<char>, i: usize) -> (r: Option<TimeScan>)
    ensures
        match r {
            Some(scan) => hour_minute_at(v@, i as int) == Some(
                HourMinute { hour: scan.hour, minute: scan.minute, end: scan.end as int },
            ) && scan.end <= v.len(),
            None => hour_minute_at(v@, i as int) is None,
        },
{
    match read_field(v, i, 0, 23) {
        Some(hour) => {
            if hour.end < v.len() && v[hour.end] == ':' {
                match read_field(v, hour.end + 1, 0, 59) {
                    Some(minute) => Some(
                        TimeScan { hour: hour.value, minute: minute.value, end: minute.end },
                    ),
                    None => None,
                }
            } else {
                None
            }
        },
        None => None,
    }
}

impl Pattern {
    /// Reads the characters `v` by this pattern.
    pub fn read_chars(&self, v: &Vec<char>) -> (r: Option<TimeExpr>)
        ensures
            r == self.read(v@),
    {
        let n = v.len();
        match self {
            Pattern::AtHour => match read_field(v, 0, 0, 23) {
                Some(hour) => if hour.end == n {
                    Some(TimeExpr::AtHour { hour: hour.value })
                } else {
                    None
                },
                None => None,
            },
            Pattern::AtHourMinutes => match read_hour_minute(v, 0) {
                Some(time) => if time.end == n {
                    Some(TimeExpr::AtHourMinutes { hour: time.hour, minute: time.minute })
                } else {
                    None
                },
                None => None,
            },
            Pattern::AtDayHourMinutes => match read_field(v, 0, 1, 31) {
                Some(day) => if day.end < n && char_is_space(v[day.end]) {
                    match read_hour_minute(v, day.end + 1) {
                        Some(time) => if time.end == n {
                            Some(
                                TimeExpr::AtDayHourMinutes {
                                    day: day.value,
                                    hour: time.hour,
                                    minute: time.minute,
                                },
                            )
                        } else {
                            None
                        },
                        None => None,
                    }
                } else {
                    None
                },
                None => None,
            },
            Pattern::AtDayMonthHourMinutes => match read_field(v, 0, 1, 31) {
                Some(day) => if day.end < n && v[day.end] == '-' {
                    match read_field(v, day.end + 1, 1, 12) {
                        Some(month) => if month.end < n && char_is_space(v[month.end]) {
                            match read_hour_minute(v, month.end + 1) {
                                Some(time) => if time.end == n {
                                    Some(
                                        TimeExpr::AtDayMonthHourMinutes {
                                            day: day.value,
                                            month: month.value,
                                            hour: time.hour,
                                            minute: time.minute,
                                        },
                                    )
                                } else {
                                    None
                                },
                                None => None,
                            }
                        } else {
                            None
                        },
                        None => None,
                    }
                } else {
                    None
                },
                None => None,
            },
            Pattern::HoursAgoOrUntil => match read_field(v, 0, 1, 23) {
                Some(hours) => if hours.end + 1 == n && v[hours.end] == 'h' {
                    Some(TimeExpr::HoursAgoOrUntil { hours: hours.value })
                } else {
                    None
                },
                None => None,
            },
            Pattern::MinutesAgoOrUntil => match read_field(v, 0, 1, 59) {
                Some(minutes) => if minutes.end + 1 == n && v[minutes.end] == 'm' {
                    Some(TimeExpr::MinutesAgoOrUntil { minutes: minutes.value })
                } else {
                    None
                },
                None => None,
            },
            Pattern::HoursAndMinutesAgoOrUntil => match read_hour_minute(v, 0) {
                Some(time) => if time.end + 1 == n && v[time.end] == 'h' {
                    Some(
                        TimeExpr::HoursAndMinutesAgoOrUntil { hours: time.hour, minutes: time.minute },
                    )
                } else {
                    None
                },
                None => None,
            },
        }
    }

    /// Whether `unit` fits this pattern as a whole.
    pub fn is_match(&self, unit: &str) -> (r: bool)
        ensures
            r == (self.read(unit@) is Some),
    {
        let v = chars_of(unit);
        self.read_chars(&v).is_some()
    }
}

/// Tells what the characters `v` say, if they are an expression.
pub fn classify_chars(v: &Vec<char>) -> (r: Option<TimeExpr>)
    ensures
        r == classified(v@),
        r matches Some(expr) ==> expr.wf(),
{
    proof {
        lemma_classified_wf(v@);
    }
    let mut found = Pattern::AtHour.read_chars(v);
    if found.is_none() {
        found = Pattern::AtHourMinutes.read_chars(v);
    }
    if found.is_none() {
        found = Pattern::AtDayHourMinutes.read_chars(v);
    }
    if found.is_none() {
        found = Pattern::AtDayMonthHourMinutes.read_chars(v);
    }
    if found.is_none() {
        found = Pattern::HoursAgoOrUntil.read_chars(v);
    }
    if found.is_none() {
        found = Pattern::MinutesAgoOrUntil.read_chars(v);
    }
    if found.is_none() {
        found = Pattern::HoursAndMinutesAgoOrUntil.read_chars(v);
    }
    if found.is_some() {
        found
    } else if is_text(v, "today") {
        Some(TimeExpr::Today)
    } else if is_text(v, "yesterday") {
        Some(TimeExpr::Yesterday)
    } else {
        None
    }
}

/// Tells what the expression `unit` says, if it is one.
pub fn classify(unit: &str) -> (r: Option<TimeExpr>)
    ensures
        r == classified(unit@),
        r matches Some(expr) ==> expr.wf(),
{
    let v = chars_of(unit);
    classify_chars(&v)
}

} // verus!
