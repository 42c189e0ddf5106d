//! From an expression of time to a moment.
//!
//! An hour without a day, a day without a month, a month without a year: each
//! fits many moments. The direction of the search decides: backward means the
//! nearest such moment that is not after now, forward the nearest to come.
//! A moment is counted in seconds since the epoch, as if the clock on the
//! wall showed universal time.
//!
//! A day that the chosen month does not have is no moment: the expression is
//! refused, not moved to a neighbouring day.

use vstd::prelude::*;
use crate::clock::{civil_midnight, midnight_timestamp, Clock, ClockView, DAY};
use crate::grammar::TimeExpr;
use crate::interval::Search;

verus! {

/// A day near the present one.
#[derive(Clone, Copy, PartialEq, Eq, Debug, Structural)]
pub enum Day {
    Yesterday,
    Today,
    Tomorrow,
}

/// A month of a year.
#[derive(Clone, Copy, PartialEq, Eq, Debug, Structural)]
pub struct YearMonth {
    pub year: i32,
    pub month: u32,
}

/// The day on which a time of day is meant. Searching backward, a time that
/// is still to come today was yesterday; searching forward, a time that is
/// not to come today is tomorrow.
pub open spec fn time_of_day_resolved(given: int, current: int, search: Search) -> Day {
    match search {
        Search::Backward => if given > current {
            Day::Yesterday
        } else {
            Day::Today
        },
        Search::Forward => if given > current {
            Day::Today
        } else {
            Day::Tomorrow
        },
    }
}

/// The month before `now`.
pub open spec fn last_month(now: YearMonth) -> YearMonth {
    if now.month == 1 {
        YearMonth { year: (now.year - 1) as i32, month: 12 }
    } else {
        YearMonth { year: now.year, month: (now.month - 1) as u32 }
    }
}

/// The month after `now`.
pub open spec fn next_month(now: YearMonth) -> YearMonth {
    if now.month == 12 {
        YearMonth { year: (now.year + 1) as i32, month: 1 }
    } else {
        YearMonth { year: now.year, month: (now.month + 1) as u32 }
    }
}

/// The month in which a day of the month is meant. Searching backward, a
/// day that is still to come this month was last month; searching forward,
/// a day that is past this month is next month. The present day is this
/// month either way.
pub open spec fn day_of_month_resolved(
    given_day: u32,
    current_day: u32,
    now: YearMonth,
    search: Search,
) -> YearMonth {
    match search {
        Search::Backward => if given_day > current_day {
            last_month(now)
        } else {
            now
        },
        Search::Forward => if given_day >= current_day {
            now
        } else {
            next_month(now)
        },
    }
}

/// The year in which a month is meant: for a month that is still to come
/// this year, last year searching backward and next year searching forward;
/// for any other month, this year.
pub open spec fn month_year_resolved(
    given_month: u32,
    current_month: u32,
    current_year: i32,
    search: Search,
) -> int {
    if given_month > current_month {
        match search {
            Search::Backward => current_year - 1,
            Search::Forward => current_year + 1,
        }
    } else {
        current_year as int
    }
}

/// The seconds from midnight to `minute` minutes past `hour`.
pub open spec fn seconds_at(hour: u32, minute: u32) -> int {
    3600 * hour + 60 * minute
}

/// The midnight with which `day` begins.
pub open spec fn day_start(day: Day, clock: ClockView) -> int {
    match day {
        Day::Yesterday => clock.midnight - DAY,
        Day::Today => clock.midnight as int,
        Day::Tomorrow => clock.midnight + DAY,
    }
}

/// The moment of a time of day without a date.
pub open spec fn at_time(hour: u32, minute: u32, clock: ClockView, search: Search) -> int {
    let given = seconds_at(hour, minute);
    day_start(time_of_day_resolved(given, clock.seconds_of_day(), search), clock) + given
}

/// The moment of a time of day on a date. Where the date is the present
/// one, the time of day decides as it does without a date. A date that does
/// not exist has no moment.
pub open spec fn on_date(
    year: int,
    month: u32,
    day: u32,
    hour: u32,
    minute: u32,
    clock: ClockView,
    search: Search,
) -> Option<int> {
    if year == clock.year && month == clock.month && day == clock.day {
        Some(at_time(hour, minute, clock, search))
    } else {
        match midnight_timestamp(year as i32, month, day) {
            Some(midnight) => Some(midnight + seconds_at(hour, minute)),
            None => None,
        }
    }
}

/// The moment that lies `seconds` before now, or after.
pub open spec fn from_now(seconds: int, clock: ClockView, search: Search) -> int {
    match search {
        Search::Backward => clock.local_seconds() - seconds,
        Search::Forward => clock.local_seconds() + seconds,
    }
}

/// The moment that `expr` means at the time of `clock`.
pub open spec fn resolved(expr: TimeExpr, clock: ClockView, search: Search) -> Option<int> {
    match expr {
        TimeExpr::AtHour { hour } => Some(at_time(hour, 0, clock, search)),
        TimeExpr::AtHourMinutes { hour, minute } => Some(at_time(hour, minute, clock, search)),
        TimeExpr::AtDayHourMinutes { day, hour, minute } => {
            let target = day_of_month_resolved(
                day,
                clock.day,
                YearMonth { year: clock.year, month: clock.month },
                search,
            );
            on_date(target.year as int, target.month, day, hour, minute, clock, search)
        },
        TimeExpr::AtDayMonthHourMinutes { day, month, hour, minute } => on_date(
            month_year_resolved(month, clock.month, clock.year, search),
            month,
            day,
            hour,
            minute,
            clock,
            search,
        ),
        TimeExpr::HoursAgoOrUntil { hours } => Some(from_now(3600 * hours, clock, search)),
        TimeExpr::MinutesAgoOrUntil { minutes } => Some(from_now(60 * minutes, clock, search)),
        TimeExpr::HoursAndMinutesAgoOrUntil { hours, minutes } => Some(
            from_now(60 * (60 * hours + minutes), clock, search),
        ),
        TimeExpr::Today => Some(clock.midnight as int),
        TimeExpr::Yesterday => Some(clock.midnight - DAY),
    }
}

/// The moment that `expr` means, where there is one and an `i64` can hold
/// it.
pub open spec fn moment(expr: TimeExpr, clock: ClockView, search: Search) -> Option<i64> {
    match resolved(expr, clock, search) {
        Some(t) => if i64::MIN <= t <= i64::MAX {
            Some(t as i64)
        } else {
            None
        },
        None => None,
    }
}

/// Decides on which day a time of day is meant; `given` and `current` are
/// seconds since midnight.
pub fn resolve_time_of_day(given: i64, current: i64, search: Search) -> (r: Day)
    ensures
        r == time_of_day_resolved(given as int, current as int, search),
        search == Search::Backward ==> r == (if given > current {
            Day::Yesterday
        } else {
            Day::Today
        }),
        search == Search::Forward ==> r == (if given > current {
            Day::Today
        } else {
            Day::Tomorrow
        }),
{
    match search {
        Search::Backward => if given > current {
            Day::Yesterday
        } else {
            Day::Today
        },
        Search::Forward => if given > current {
            Day::Today
        } else {
            Day::Tomorrow
        },
    }
}

/// Decides in which month a day of the month is meant.
pub fn resolve_day_of_month(given_day: u32, current: &Clock, search: Search) -> (r: YearMonth)
    ensures
        r == day_of_month_resolved(
            given_day,
            current@.day,
            YearMonth { year: current@.year, month: current@.month },
            search,
        ),
        1 <= r.month <= 12,
{
    let now = YearMonth { year: current.year(), month: current.month() };
    let last = match search {
        Search::Backward => given_day > current.day(),
        Search::Forward => false,
    };
    let next = match search {
        Search::Backward => false,
        Search::Forward => given_day < current.day(),
    };
    if last {
        if now.month == 1 {
            YearMonth { year: now.year - 1, month: 12 }
        } else {
            YearMonth { year: now.year, month: now.month - 1 }
        }
    } else if next {
        if now.month == 12 {
            YearMonth { year: now.year + 1, month: 1 }
        } else {
            YearMonth { year: now.year, month: now.month + 1 }
        }
    } else {
        now
    }
}

/// Decides in which year a month is meant.
pub fn resolve_month_year(given_month: u32, current: &Clock, search: Search) -> (r: i32)
    ensures
        r == month_year_resolved(given_month, current@.month, current@.year, search),
{
    if given_month > current.month() {
        match search {
            Search::Backward => current.year() - 1,
            Search::Forward => current.year() + 1,
        }
    } else {
        current.year()
    }
}

/// The moment of a time of day without a date.
pub fn resolve_time(hour: u32, minute: u32, clock: &Clock, search: Search) -> (r: i64)
    requires
        hour <= 23,
        minute <= 59,
    ensures
        r == at_time(hour, minute, clock@, search),
{
    let given: i64 = 3600 * (hour as i64) + 60 * (minute as i64);
    match resolve_time_of_day(given, clock.seconds_of_day(), search) {
        Day::Yesterday => clock.midnight() - DAY + given,
        Day::Today => clock.midnight() + given,
        Day::Tomorrow => clock.midnight() + DAY + given,
    }
}

/// The moment of a time of day on a date, where the date exists and an `i64`
/// can hold the moment.
pub fn resolve_on_date(
    year: i32,
    month: u32,
    day: u32,
    hour: u32,
    minute: u32,
    clock: &Clock,
    search: Search,
) -> (r: Option<i64>)
    requires
        hour <= 23,
        minute <= 59,
    ensures
        match on_date(year as int, month, day, hour, minute, clock@, search) {
            Some(t) => if i64::MIN <= t <= i64::MAX {
                r == Some(t as i64)
            } else {
                r is None
            },
            None => r is None,
        },
{
    if year == clock.year() && month == clock.month() && day == clock.day() {
        Some(resolve_time(hour, minute, clock, search))
    } else {
        match civil_midnight(year, month, day) {
            Some(midnight) => midnight.checked_add(3600 * (hour as i64) + 60 * (minute as i64)),
            None => None,
        }
    }
}

/// The moment that `expr` means at the time of `clock`, searching in the
/// direction `search`.
pub fn resolve(expr: &TimeExpr, clock: &Clock, search: Search) -> (r: Option<i64>)
    requires
        expr.wf(),
    ensures
        r == moment(*expr, clock@, search),
{
    match *expr {
        TimeExpr::AtHour { hour } => Some(resolve_time(hour, 0, clock, search)),
        TimeExpr::AtHourMinutes { hour, minute } => Some(resolve_time(hour, minute, clock, search)),
        TimeExpr::AtDayHourMinutes { day, hour, minute } => {
            let target = resolve_day_of_month(day, clock, search);
            resolve_on_date(target.year, target.month, day, hour, minute, clock, search)
        },
        TimeExpr::AtDayMonthHourMinutes { day, month, hour, minute } => {
            let year = resolve_month_year(month, clock, search);
            resolve_on_date(year, month, day, hour, minute, clock, search)
        },
        TimeExpr::HoursAgoOrUntil { hours } => Some(
            resolve_from_now(3600 * (hours as i64), clock, search),
        ),
        TimeExpr::MinutesAgoOrUntil { minutes } => Some(
            resolve_from_now(60 * (minutes as i64), clock, search),
        ),
        TimeExpr::HoursAndMinutesAgoOrUntil { hours, minutes } => Some(
            resolve_from_now(60 * (60 * (hours as i64) + (minutes as i64)), clock, search),
        ),
        TimeExpr::Today => Some(clock.midnight()),
        TimeExpr::Yesterday => Some(clock.midnight() - DAY),
    }
}

/// The moment that lies `seconds` before now, or after.
pub fn resolve_from_now(seconds: i64, clock: &Clock, search: Search) -> (r: i64)
    requires
        0 <= seconds < DAY,
    ensures
        r == from_now(seconds as int, clock@, search),
{
    match search {
        Search::Backward => clock.local_seconds() - seconds,
        Search::Forward => clock.local_seconds() + seconds,
    }
}

/// A time of day without a date is the nearest such moment in the direction
/// of the search: searching backward it lies within the day that ends now,
/// searching forward within the day that begins now.
pub proof fn lemma_time_is_nearest(hour: u32, minute: u32, clock: ClockView, search: Search)
    requires
        clock.wf(),
        hour <= 23,
        minute <= 59,
    ensures
        search == Search::Backward ==> clock.local_seconds() - DAY < at_time(
            hour,
            minute,
            clock,
            search,
        ) <= clock.local_seconds(),
        search == Search::Forward ==> clock.local_seconds() < at_time(hour, minute, clock, search)
            <= clock.local_seconds() + DAY,
        (at_time(hour, minute, clock, search) - clock.midnight) % (DAY as int) == seconds_at(
            hour,
            minute,
        ),
{
}

/// Every expression without a date of its own names a moment, whatever the
/// clock shows: only a day of a month can fail to exist.
pub proof fn lemma_moment_exists(expr: TimeExpr, clock: ClockView, search: Search)
    requires
        clock.wf(),
        expr.wf(),
        !(expr is AtDayHourMinutes),
        !(expr is AtDayMonthHourMinutes),
    ensures
        moment(expr, clock, search) is Some,
{
}

} // verus!
