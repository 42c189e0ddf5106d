//! Intervals of time, and the expressions that name them.
//!
//! One expression of time names the interval from its moment to now. Two of
//! them with ` - ` between name the interval between their moments, in
//! whichever order they stand.

use vstd::prelude::*;
use vstd::string::StringExecFns;
use crate::clock::{Clock, ClockView, DAY};
use crate::error::{AppError, ErrorView};
use crate::grammar::{classified, classify_chars, TimeExpr};
use crate::resolve::{moment, resolve};
use crate::text::{chars_of, copy_range};

verus! {

broadcast use vstd::string::group_string_axioms;

/// Whether an expression that fits several moments means the nearest one in
/// the past or the nearest one to come.
#[derive(Clone, Copy, PartialEq, Eq, Debug, Structural)]
pub enum Search {
    Backward,
    Forward,
}

/// The time from `start` to `end`, both in seconds since the epoch and both
/// part of the interval.
#[derive(Clone, Copy, PartialEq, Eq, Debug, Structural)]
pub struct Interval {
    pub start: i64,
    pub end: i64,
}

/// The message for a text that names no moment.
pub open spec fn invalid_message(unit: Seq<char>) -> Seq<char> {
    "Invalid time specifier: "@ + unit
}

/// The moment that the text `unit` names at the time of `clock`.
pub open spec fn moment_of(unit: Seq<char>, clock: ClockView, search: Search) -> Option<i64> {
    match classified(unit) {
        Some(expr) => moment(expr, clock, search),
        None => None,
    }
}

/// The index of the first ` - ` that begins at or after `i`; `s.len()` if
/// there is none.
pub open spec fn find_separator(s: Seq<char>, i: int) -> int
    decreases s.len() - i,
{
    if 0 <= i && i + 3 <= s.len() {
        if s[i] == ' ' && s[i + 1] == '-' && s[i + 2] == ' ' {
            i
        } else {
            find_separator(s, i + 1)
        }
    } else {
        s.len() as int
    }
}

/// The two parts of `s` on either side of its ` - `, if it has exactly one.
pub open spec fn range_parts(s: Seq<char>) -> Option<(Seq<char>, Seq<char>)> {
    let at = find_separator(s, 0);
    if at < s.len() && find_separator(s, at + 3) >= s.len() {
        Some((s.subrange(0, at), s.subrange(at + 3, s.len() as int)))
    } else {
        None
    }
}

/// Whether `s` is an expression of time, or two of them with ` - `
/// between.
pub open spec fn names_interval(s: Seq<char>) -> bool {
    ||| classified(s) is Some
    ||| match range_parts(s) {
        Some((from, to)) => classified(from) is Some && classified(to) is Some,
        None => false,
    }
}

/// The interval that `s` names at the time of `clock`: from the moment of
/// `s` to now, or, where `s` names no moment, between the moments of its two
/// parts.
pub open spec fn interval_of(s: Seq<char>, clock: ClockView, search: Search) -> Option<Interval> {
    match moment_of(s, clock, search) {
        Some(start) => Some(Interval::spanning(start, clock.timestamp)),
        None => match range_parts(s) {
            Some((from, to)) => match (
                moment_of(from, clock, search),
                moment_of(to, clock, search),
            ) {
                (Some(start), Some(end)) => Some(Interval::spanning(start, end)),
                _ => None,
            },
            None => None,
        },
    }
}

/// The error for a text that names no moment.
pub fn invalid_time(unit: &str) -> (e: AppError)
    ensures
        e@ == ErrorView::User(invalid_message(unit@)),
{
    let mut message = String::new();
    message.append("Invalid time specifier: ");
    message.append(unit);
    assert(message@ =~= invalid_message(unit@));
    AppError::user(message.as_str())
}

/// The moment that the characters `v` name at the time of `clock`.
fn moment_of_chars(v: &Vec<char>, clock: &Clock, search: Search) -> (r: Option<i64>)
    ensures
        r == moment_of(v@, clock@, search),
{
    match classify_chars(v) {
        Some(expr) => resolve(&expr, clock, search),
        None => None,
    }
}

/// Finds the one ` - ` of `v`: where it begins and where it ends.
fn split_range(v: &Vec<char>) -> (r: Option<(usize, usize)>)
    ensures
        match r {
            Some((end, start)) => end <= start <= v.len() && range_parts(v@) == Some(
                (v@.subrange(0, end as int), v@.subrange(start as int, v.len() as int)),
            ),
            None => range_parts(v@) is None,
        },
{
    let at = find_separator_from(v, 0);
    if at >= v.len() {
        return None;
    }
    if find_separator_from(v, at + 3) < v.len() {
        return None;
    }
    Some((at, at + 3))
}

/// The index of the first ` - ` of `v` that begins at or after `from`.
fn find_separator_from(v: &Vec<char>, from: usize) -> (r: usize)
    requires
        from <= v.len(),
    ensures
        r == find_separator(v@, from as int),
        from <= r <= v.len(),
        r < v.len() ==> r + 3 <= v.len(),
{
    let n = v.len();
    let mut i: usize = from;
    while n - i >= 3
        invariant
            from <= i <= n,
            n == v.len(),
            find_separator(v@, from as int) == find_separator(v@, i as int),
        decreases n - i,
    {
        if v[i] == ' ' && v[i + 1] == '-' && v[i + 2] == ' ' {
            return i;
        }
        i = i + 1;
    }
    n
}

/// The moment that `unit` names at the time of `clock`. A text that is no
/// expression of time, or names a day that does not exist, is the user's
/// error.
pub fn parse_time_input(unit: &str, search_type: &Search, clock: &Clock) -> (r: Result<
    i64,
    AppError,
>)
    ensures
        match r {
            Ok(t) => moment_of(unit@, clock@, *search_type) == Some(t),
            Err(e) => moment_of(unit@, clock@, *search_type) is None && e@ == ErrorView::User(
                invalid_message(unit@),
            ),
        },
{
    let v = chars_of(unit);
    match moment_of_chars(&v, clock, *search_type) {
        Some(t) => Ok(t),
        None => Err(invalid_time(unit)),
    }
}

impl Interval {
    /// The start is not after the end.
    pub open spec fn wf(self) -> bool {
        self.start <= self.end
    }

    /// The interval between two moments, whichever of them comes first.
    pub open spec fn spanning(a: i64, b: i64) -> Interval {
        if a > b {
            Interval { start: b, end: a }
        } else {
            Interval { start: a, end: b }
        }
    }

    /// Whether the moment `timestamp` lies in the interval.
    pub open spec fn holds(self, timestamp: int) -> bool {
        self.start <= timestamp <= self.end
    }

    /// The interval between two moments. A start that is later than the end
    /// is no error: the two change places.
    pub fn between(start: i64, end: i64) -> (r: Interval)
        ensures
            r == Interval::spanning(start, end),
            r.wf(),
    {
        if start > end {
            Interval { start: end, end: start }
        } else {
            Interval { start, end }
        }
    }

    /// The interval between `start` and `end`, or between `start` and the
    /// moment `now` where no end is given.
    pub fn new(start: i64, end: Option<i64>, now: i64) -> (r: Interval)
        ensures
            r == Interval::spanning(
                start,
                match end {
                    Some(e) => e,
                    None => now,
                },
            ),
            r.wf(),
    {
        match end {
            Some(e) => Interval::between(start, e),
            None => Interval::between(start, now),
        }
    }

    /// Whether the moment `timestamp` lies in the interval, its two ends
    /// included.
    pub fn contains(&self, timestamp: i64) -> (r: bool)
        ensures
            r == self.holds(timestamp as int),
    {
        self.start <= timestamp && timestamp <= self.end
    }

    /// The interval that `str_interval` names at the time of `clock`.
    ///
    /// The text is read as one expression first, which names the time from
    /// its moment to now. Failing that it is read as two expressions with
    /// ` - ` between. Whatever fails, the error names the whole text.
    pub fn try_parse(str_interval: &str, search_type: &Search, clock: &Clock) -> (r: Result<
        Interval,
        AppError,
    >)
        ensures
            match r {
                Ok(interval) => interval_of(str_interval@, clock@, *search_type) == Some(interval)
                    && interval.wf(),
                Err(e) => interval_of(str_interval@, clock@, *search_type) is None && e@
                    == ErrorView::User(invalid_message(str_interval@)),
            },
    {
        let v = chars_of(str_interval);
        match moment_of_chars(&v, clock, *search_type) {
            Some(start) => Ok(Interval::between(start, clock.timestamp())),
            None => match split_range(&v) {
                Some((end, start)) => {
                    let from = copy_range(&v, 0, end);
                    let to = copy_range(&v, start, v.len());
                    match (
                        moment_of_chars(&from, clock, *search_type),
                        moment_of_chars(&to, clock, *search_type),
                    ) {
                        (Some(a), Some(b)) => Ok(Interval::between(a, b)),
                        _ => Err(invalid_time(str_interval)),
                    }
                },
                None => Err(invalid_time(str_interval)),
            },
        }
    }

    /// Whether `str_interval` is an expression of time, or two of them with
    /// ` - ` between.
    pub fn is_interval(str_interval: &str) -> (r: bool)
        ensures
            r == names_interval(str_interval@),
    {
        let v = chars_of(str_interval);
        if classify_chars(&v).is_some() {
            return true;
        }
        match split_range(&v) {
            Some((end, start)) => {
                let from = copy_range(&v, 0, end);
                let to = copy_range(&v, start, v.len());
                classify_chars(&from).is_some() && classify_chars(&to).is_some()
            },
            None => false,
        }
    }
}

/// Only an expression of time, or two of them with ` - ` between, names an
/// interval, whatever the clock shows.
pub proof fn lemma_named(s: Seq<char>, clock: ClockView, search: Search)
    ensures
        interval_of(s, clock, search) is Some ==> names_interval(s),
{
}

/// `today` is the midnight with which the present day began, and
/// `yesterday` the midnight before it, whichever way the search goes. The
/// interval that either names runs from there to now.
pub proof fn lemma_today_and_yesterday(clock: ClockView, search: Search)
    requires
        clock.wf(),
    ensures
        moment_of("today"@, clock, search) == Some(clock.midnight),
        moment_of("yesterday"@, clock, search) == Some((clock.midnight - DAY) as i64),
        interval_of("today"@, clock, search) == Some(
            Interval::spanning(clock.midnight, clock.timestamp),
        ),
        interval_of("yesterday"@, clock, search) == Some(
            Interval::spanning((clock.midnight - DAY) as i64, clock.timestamp),
        ),
{
    reveal_strlit("today");
    reveal_strlit("yesterday");
    assert(classified("today"@) == Some(TimeExpr::Today));
    assert("yesterday"@ != "today"@) by {
        assert("yesterday"@.len() != "today"@.len());
    }
    assert(classified("yesterday"@) == Some(TimeExpr::Yesterday));
}

/// The interval between two moments has its start first, and is the same
/// whichever of the two is given first.
pub proof fn lemma_spanning(a: i64, b: i64)
    ensures
        Interval::spanning(a, b).wf(),
        Interval::spanning(a, b) == Interval::spanning(b, a),
        Interval::spanning(a, b).holds(a as int),
        Interval::spanning(a, b).holds(b as int),
{
}

/// Whatever text names an interval, the start of the interval is not after
/// its end.
pub proof fn lemma_interval_ordered(s: Seq<char>, clock: ClockView, search: Search)
    ensures
        interval_of(s, clock, search) matches Some(interval) ==> interval.wf(),
{
}

} // verus!
