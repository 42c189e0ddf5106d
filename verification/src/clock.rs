//! The present moment, as the expressions of time need it: the date and the
//! time of day that the clock on the wall shows, and the seconds since the
//! epoch.
//!
//! Nothing here reads a clock: whoever does hands in a `ClockReading`, and
//! `Clock::new` takes it where it is a date and a time of day.
//!
//! The calendar is chrono's. A date enters the arithmetic of this crate as
//! the seconds from the epoch to its midnight; a time of day is then a matter
//! of adding seconds.

use chrono::{NaiveDate, NaiveTime};
use vstd::prelude::*;

verus! {

/// The seconds of a day.
pub const DAY: i64 = 86_400;

/// What a clock was read to show: a moment, and the local date and time of
/// day at that moment.
#[derive(Clone, Copy, Debug)]
pub struct ClockReading {
    /// Seconds since the epoch.
    pub timestamp: i64,
    /// The local date.
    pub year: i32,
    pub month: u32,
    pub day: u32,
    /// The local time of day.
    pub hour: u32,
    pub minute: u32,
    pub second: u32,
}

/// The seconds from the epoch to midnight of a date, leap seconds not
/// counted, as chrono computes them for the calendar date of `year`, `month`
/// and `day`; nothing where chrono has no such date.
pub uninterp spec fn midnight_timestamp(year: i32, month: u32, day: u32) -> Option<i64>;

/// `NaiveDate::from_ymd_opt` of chrono, and for the date it gives the
/// timestamp of midnight (`and_time`, `and_utc`, `timestamp`). `None` is
/// chrono's answer for a day that the month does not have, a month or day
/// out of range, and a year that it cannot hold. The contract gives the
/// result its name and claims nothing else.
#[verifier::external_body]
pub(crate) fn civil_midnight(year: i32, month: u32, day: u32) -> (r: Option<i64>)
    ensures
        r == midnight_timestamp(year, month, day),
{
    match NaiveDate::from_ymd_opt(year, month, day) {
        Some(date) => Some(date.and_time(NaiveTime::MIN).and_utc().timestamp()),
        None => None,
    }
}

/// Whether a date and a time of day have their fields in range, the year
/// with a year to spare on either side.
pub open spec fn fields_in_range(
    year: i32,
    month: u32,
    day: u32,
    hour: u32,
    minute: u32,
    second: u32,
) -> bool {
    &&& i32::MIN < year < i32::MAX
    &&& 1 <= month <= 12
    &&& 1 <= day <= 31
    &&& hour <= 23
    &&& minute <= 59
    &&& second <= 59
}

/// Whether two days can be added to `midnight`, and taken from it, within an
/// `i64`.
pub open spec fn has_margin(midnight: i64) -> bool {
    i64::MIN + 2 * DAY <= midnight <= i64::MAX - 2 * DAY
}

impl ClockReading {
    /// The fields are in range, and chrono has the date, with a midnight
    /// that leaves two days to spare on either side.
    pub open spec fn is_date_and_time(self) -> bool {
        &&& fields_in_range(self.year, self.month, self.day, self.hour, self.minute, self.second)
        &&& match midnight_timestamp(self.year, self.month, self.day) {
            Some(midnight) => has_margin(midnight),
            None => false,
        }
    }
}

/// What a `Clock` shows.
pub struct ClockView {
    /// Seconds since the epoch.
    pub timestamp: i64,
    /// The local date.
    pub year: i32,
    pub month: u32,
    pub day: u32,
    /// The local time of day.
    pub hour: u32,
    pub minute: u32,
    pub second: u32,
    /// The seconds from the epoch to the midnight with which the local date
    /// began.
    pub midnight: i64,
}

impl ClockView {
    /// The fields are in range, the date exists, and `midnight` is its
    /// midnight.
    pub open spec fn wf(self) -> bool {
        &&& fields_in_range(self.year, self.month, self.day, self.hour, self.minute, self.second)
        &&& midnight_timestamp(self.year, self.month, self.day) == Some(self.midnight)
        &&& has_margin(self.midnight)
    }

    /// What the clock that was read as `reading` shows.
    pub open spec fn of(reading: ClockReading) -> ClockView {
        ClockView {
            timestamp: reading.timestamp,
            year: reading.year,
            month: reading.month,
            day: reading.day,
            hour: reading.hour,
            minute: reading.minute,
            second: reading.second,
            midnight: midnight_timestamp(reading.year, reading.month, reading.day)->0,
        }
    }

    /// The seconds since the last midnight.
    pub open spec fn seconds_of_day(self) -> int {
        3600 * self.hour + 60 * self.minute + self.second
    }

    /// The local date and time as seconds since the epoch, as if the clock
    /// on the wall showed universal time.
    pub open spec fn local_seconds(self) -> int {
        self.midnight + self.seconds_of_day()
    }
}

/// The present moment: a date that exists, a time of day, and the midnight
/// with which the date began.
#[derive(Clone, Copy, Debug)]
pub struct Clock {
    timestamp: i64,
    year: i32,
    month: u32,
    day: u32,
    hour: u32,
    minute: u32,
    second: u32,
    midnight: i64,
}

impl View for Clock {
    type V = ClockView;

    closed spec fn view(&self) -> ClockView {
        ClockView {
            timestamp: self.timestamp,
            year: self.year,
            month: self.month,
            day: self.day,
            hour: self.hour,
            minute: self.minute,
            second: self.second,
            midnight: self.midnight,
        }
    }
}

impl Clock {
    #[verifier::type_invariant]
    closed spec fn is_wf(self) -> bool {
        self@.wf()
    }

    /// The clock that shows `reading`, where its fields are a date and a time
    /// of day.
    pub fn new(reading: ClockReading) -> (r: Option<Clock>)
        ensures
            match r {
                Some(clock) => reading.is_date_and_time() && clock@ == ClockView::of(reading)
                    && clock@.wf(),
                None => !reading.is_date_and_time(),
            },
    {
        if !(i32::MIN < reading.year && reading.year < i32::MAX && 1 <= reading.month
            && reading.month <= 12 && 1 <= reading.day && reading.day <= 31 && reading.hour <= 23
            && reading.minute <= 59 && reading.second <= 59) {
            return None;
        }
        match civil_midnight(reading.year, reading.month, reading.day) {
            Some(midnight) => {
                if i64::MIN + 2 * DAY <= midnight && midnight <= i64::MAX - 2 * DAY {
                    Some(
                        Clock {
                            timestamp: reading.timestamp,
                            year: reading.year,
                            month: reading.month,
                            day: reading.day,
                            hour: reading.hour,
                            minute: reading.minute,
                            second: reading.second,
                            midnight,
                        },
                    )
                } else {
                    None
                }
            },
            None => None,
        }
    }

    /// Seconds since the epoch.
    pub fn timestamp(&self) -> (r: i64)
        ensures
            r == self@.timestamp,
            self@.wf(),
    {
        proof {
            use_type_invariant(self);
        }
        self.timestamp
    }

    /// The year of the local date.
    pub fn year(&self) -> (r: i32)
        ensures
            r == self@.year,
            self@.wf(),
    {
        proof {
            use_type_invariant(self);
        }
        self.year
    }

    /// The month of the local date, from 1 to 12.
    pub fn month(&self) -> (r: u32)
        ensures
            r == self@.month,
            self@.wf(),
    {
        proof {
            use_type_invariant(self);
        }
        self.month
    }

    /// The day of the local date, from 1 on.
    pub fn day(&self) -> (r: u32)
        ensures
            r == self@.day,
            self@.wf(),
    {
        proof {
            use_type_invariant(self);
        }
        self.day
    }

    /// The hour of the local time of day, from 0 to 23.
    pub fn hour(&self) -> (r: u32)
        ensures
            r == self@.hour,
            self@.wf(),
    {
        proof {
            use_type_invariant(self);
        }
        self.hour
    }

    /// The minute of the local time of day.
    pub fn minute(&self) -> (r: u32)
        ensures
            r == self@.minute,
            self@.wf(),
    {
        proof {
            use_type_invariant(self);
        }
        self.minute
    }

    /// The second of the local time of day.
    pub fn second(&self) -> (r: u32)
        ensures
            r == self@.second,
            self@.wf(),
    {
        proof {
            use_type_invariant(self);
        }
        self.second
    }

    /// The seconds from the epoch to the midnight with which the local date
    /// began.
    pub fn midnight(&self) -> (r: i64)
        ensures
            r == self@.midnight,
            self@.wf(),
    {
        proof {
            use_type_invariant(self);
        }
        self.midnight
    }

    /// The seconds since the last midnight.
    pub fn seconds_of_day(&self) -> (r: i64)
        ensures
            r == self@.seconds_of_day(),
            0 <= r < DAY,
            self@.wf(),
    {
        proof {
            use_type_invariant(self);
        }
        3600 * (self.hour as i64) + 60 * (self.minute as i64) + (self.second as i64)
    }

    /// The local date and time as seconds since the epoch.
    pub fn local_seconds(&self) -> (r: i64)
        ensures
            r == self@.local_seconds(),
            self@.wf(),
    {
        proof {
            use_type_invariant(self);
        }
        self.midnight + self.seconds_of_day()
    }
}

} // verus!
