//! From the records of an interval to the time spent.
//!
//! The records that fall into an interval need not begin with a start nor end
//! with a stop: work may have begun before the interval or go on after it.
//! Such a record at the edge is credited up to the edge of the interval. What
//! lies between is taken as sessions, two records each.

use vstd::prelude::*;
use crate::error::{AppError, ErrorView};
use crate::event::{views, Event, LogRecord, RecordView};
use crate::interval::Interval;
use crate::project_map::{
    credit_all, credit_checked, fits_i64, key_of, keys_after, lemma_credit_all_prefix, ordered,
    pair_credits, Credit, Key, ProjectMap,
};

verus! {

broadcast use vstd::string::group_string_axioms;

/// What the records of an interval begin and end with.
#[derive(Clone, Copy, PartialEq, Eq, Debug, Structural)]
pub enum Shape {
    /// No record.
    Empty,
    /// One record, a stop.
    SingleStop,
    /// One record, a start.
    SingleStart,
    /// Two records or more, from a start to a stop.
    StartToStop,
    /// Two records or more, from a start to a start.
    StartToStart,
    /// Two records or more, from a stop to a stop.
    StopToStop,
    /// Two records or more, from a stop to a start.
    StopToStart,
}

/// The shape of `records`.
pub open spec fn shape_of(records: Seq<RecordView>) -> Shape {
    if records.len() == 0 {
        Shape::Empty
    } else if records.len() == 1 {
        if records[0].event.start {
            Shape::SingleStart
        } else {
            Shape::SingleStop
        }
    } else if records.first().event.start {
        if records.last().event.start {
            Shape::StartToStart
        } else {
            Shape::StartToStop
        }
    } else {
        if records.last().event.start {
            Shape::StopToStart
        } else {
            Shape::StopToStop
        }
    }
}

/// The credit for a stop whose start lies before the interval: the time from
/// the start of the interval to the stop.
pub open spec fn leading_credit(stop: RecordView, interval: Interval) -> Credit {
    Credit { key: key_of(stop.event), seconds: stop.timestamp - interval.start }
}

/// The credit for a start whose stop lies after the interval: the time from
/// the start to the end of the interval.
pub open spec fn trailing_credit(start: RecordView, interval: Interval) -> Credit {
    Credit { key: key_of(start.event), seconds: interval.end - start.timestamp }
}

/// The credits that the records of `interval` give, in the order in which
/// they are added up: first the sessions, then a stop at the front, then a
/// start at the back.
pub open spec fn credits(records: Seq<RecordView>, interval: Interval) -> Seq<Credit> {
    let n = records.len() as int;
    match shape_of(records) {
        Shape::Empty => Seq::empty(),
        Shape::SingleStop => seq![leading_credit(records[0], interval)],
        Shape::SingleStart => seq![trailing_credit(records[0], interval)],
        Shape::StartToStop => pair_credits(records),
        Shape::StartToStart => pair_credits(records.subrange(0, n - 1)).push(
            trailing_credit(records[n - 1], interval),
        ),
        Shape::StopToStop => pair_credits(records.subrange(1, n)).push(
            leading_credit(records[0], interval),
        ),
        Shape::StopToStart => pair_credits(records.subrange(1, n - 1)).push(
            leading_credit(records[0], interval),
        ).push(trailing_credit(records[n - 1], interval)),
    }
}

/// The message of the error for times that cannot be added up.
pub open spec fn overflow_message() -> Seq<char> {
    "Work log holds times too far apart to add up!"@
}

/// Tells what `records` begin and end with.
pub fn shape(records: &[LogRecord]) -> (r: Shape)
    ensures
        r == shape_of(views(records@)),
{
    let n = records.len();
    if n == 0 {
        Shape::Empty
    } else if n == 1 {
        if records[0].event.is_start() {
            Shape::SingleStart
        } else {
            Shape::SingleStop
        }
    } else if records[0].event.is_start() {
        if records[n - 1].event.is_start() {
            Shape::StartToStart
        } else {
            Shape::StartToStop
        }
    } else {
        if records[n - 1].event.is_start() {
            Shape::StopToStart
        } else {
            Shape::StopToStop
        }
    }
}

/// Credits the time from `earlier` to `later` to the key of `event`, if that
/// time and the new total fit; else `map` stays as it is.
fn try_credit(map: &mut ProjectMap, later: i64, earlier: i64, event: &Event) -> (done: bool)
    requires
        old(map).wf(),
    ensures
        final(map).wf(),
        match credit_checked(
            old(map)@,
            Credit { key: key_of(event@), seconds: later - earlier },
        ) {
            Some(totals) => done && final(map)@ == totals && final(map).order() == ordered(
                old(map).order(),
                key_of(event@),
            ),
            None => !done && *final(map) == *old(map),
        },
{
    match later.checked_sub(earlier) {
        Some(seconds) => map.try_add_event(seconds, event),
        None => false,
    }
}

/// Credits the sessions of `records[from..to]`, two records each, as far as
/// the totals fit.
fn try_credit_pairs(map: &mut ProjectMap, records: &[LogRecord], from: usize, to: usize) -> (done:
    bool)
    requires
        old(map).wf(),
        from <= to <= records.len(),
    ensures
        final(map).wf(),
        match credit_all(
            old(map)@,
            pair_credits(views(records@).subrange(from as int, to as int)),
        ) {
            Some(totals) => done && final(map)@ == totals && final(map).order() == keys_after(
                old(map).order(),
                pair_credits(views(records@).subrange(from as int, to as int)),
            ),
            None => !done,
        },
{
    let ghost part = views(records@).subrange(from as int, to as int);
    let ghost all = pair_credits(part);
    let mut i: usize = from;
    while to - i >= 2
        invariant
            from <= i <= to <= records.len(),
            (i - from) % 2 == 0,
            map.wf(),
            part == views(records@).subrange(from as int, to as int),
            all == pair_credits(part),
            credit_all(old(map)@, all.take((i - from) / 2)) == Some(map@),
            map.order() == keys_after(old(map).order(), all.take((i - from) / 2)),
        decreases to - i,
    {
        let ghost k = (i - from) / 2;
        proof {
            assert(all.take(k + 1).drop_last() == all.take(k));
            assert(all.take(k + 1).last() == all[k]);
            assert(part[2 * k] == records@[i as int]@);
            assert(part[2 * k + 1] == records@[i + 1]@);
        }
        if !try_credit(map, records[i + 1].timestamp, records[i].timestamp, &records[i].event) {
            proof {
                if credit_all(old(map)@, all) is Some {
                    lemma_credit_all_prefix(old(map)@, all, k + 1);
                }
            }
            return false;
        }
        i = i + 2;
    }
    assert(all.take((i - from) / 2) == all);
    true
}

/// Whether `r` is what `records`, the records of `interval` in the order of
/// the log, add up to.
///
/// No records give no totals: `None`, which is no error and not the same as
/// work of no duration. Else the credits are added up one after the other;
/// the keys stand in the order in which they first were credited. The one
/// error is that of times which do not fit an `i64` on the way.
pub open spec fn is_sum(
    records: Seq<RecordView>,
    interval: Interval,
    r: Result<Option<ProjectMap>, AppError>,
) -> bool {
    let all = credits(records, interval);
    if records.len() == 0 {
        r matches Ok(None)
    } else {
        match credit_all(Map::empty(), all) {
            Some(totals) => r matches Ok(Some(map)) && map.wf() && map@ == totals && map.order()
                == keys_after(Seq::empty(), all),
            None => r matches Err(e) && e@ == ErrorView::LogFile(overflow_message()),
        }
    }
}

/// Adds up the time that `records`, the records of `interval` in the order
/// of the log, show for each project and description.
pub fn tally(records: &[LogRecord], interval: &Interval) -> (r: Result<Option<ProjectMap>, AppError>)
    ensures
        is_sum(views(records@), *interval, r),
{
    let n = records.len();
    let ghost all = views(records@);
    let form = shape(records);
    if n == 0 {
        return Ok(None);
    }
    let leading = match form {
        Shape::SingleStop | Shape::StopToStop | Shape::StopToStart => true,
        _ => false,
    };
    let trailing = match form {
        Shape::SingleStart | Shape::StartToStart | Shape::StopToStart => true,
        _ => false,
    };
    let from: usize = if leading {
        1
    } else {
        0
    };
    let to: usize = if n == 1 {
        from
    } else if trailing {
        n - 1
    } else {
        n
    };
    let ghost sessions = pair_credits(all.subrange(from as int, to as int));
    let ghost lead = leading_credit(all[0], *interval);
    let ghost trail = trailing_credit(all[n - 1], *interval);
    let ghost with_lead = if leading {
        sessions.push(lead)
    } else {
        sessions
    };
    let ghost with_trail = if trailing {
        with_lead.push(trail)
    } else {
        with_lead
    };
    proof {
        assert(all[0] == records@[0]@);
        assert(all[n - 1] == records@[n - 1]@);
        assert(all.subrange(0, n as int) == all);
        if n == 1 {
            assert(sessions == Seq::<Credit>::empty());
        }
        assert(credits(all, *interval) == with_trail);
        if leading {
            assert(with_lead.drop_last() == sessions);
        }
        if trailing {
            assert(with_trail.drop_last() == with_lead);
        }
    }
    let mut map = ProjectMap::new();
    let mut done = try_credit_pairs(&mut map, records, from, to);
    assert(match credit_all(Map::empty(), sessions) {
        Some(totals) => done && map@ == totals && map.order() == keys_after(
            Seq::empty(),
            sessions,
        ),
        None => !done,
    });
    if done && leading {
        done = try_credit(&mut map, records[0].timestamp, interval.start, &records[0].event);
    }
    assert(match credit_all(Map::empty(), with_lead) {
        Some(totals) => done && map@ == totals && map.order() == keys_after(
            Seq::empty(),
            with_lead,
        ),
        None => !done,
    });
    if done && trailing {
        done = try_credit(&mut map, interval.end, records[n - 1].timestamp, &records[n - 1].event);
    }
    assert(match credit_all(Map::empty(), with_trail) {
        Some(totals) => done && map@ == totals && map.order() == keys_after(
            Seq::empty(),
            with_trail,
        ),
        None => !done,
    });
    if done {
        Ok(Some(map))
    } else {
        Err(AppError::log_file("Work log holds times too far apart to add up!"))
    }
}

/// One credit that fits gives one total: the credit under its key.
pub proof fn lemma_one_credit(c: Credit)
    requires
        fits_i64(c.seconds),
    ensures
        credit_all(Map::empty(), seq![c]) == Some(Map::<Key, int>::empty().insert(c.key, c.seconds)),
        keys_after(Seq::empty(), seq![c]) == seq![c.key],
{
    let one = seq![c];
    assert(one.drop_last() == Seq::<Credit>::empty());
    assert(one.last() == c);
    reveal_with_fuel(credit_all, 2);
    reveal_with_fuel(keys_after, 2);
    assert(!Seq::<Key>::empty().contains(c.key));
    assert(Seq::<Key>::empty().push(c.key) == seq![c.key]);
}

/// A start alone in its interval is credited with the time from it to the
/// end of the interval.
pub proof fn lemma_single_start(start: RecordView, interval: Interval)
    requires
        start.event.start,
        fits_i64(interval.end - start.timestamp),
    ensures
        credit_all(Map::empty(), credits(seq![start], interval)) == Some(
            Map::<Key, int>::empty().insert(
                key_of(start.event),
                interval.end - start.timestamp,
            ),
        ),
{
    lemma_one_credit(trailing_credit(start, interval));
}

/// A stop alone in its interval is credited with the time from the start of
/// the interval to it.
pub proof fn lemma_single_stop(stop: RecordView, interval: Interval)
    requires
        !stop.event.start,
        fits_i64(stop.timestamp - interval.start),
    ensures
        credit_all(Map::empty(), credits(seq![stop], interval)) == Some(
            Map::<Key, int>::empty().insert(key_of(stop.event), stop.timestamp - interval.start),
        ),
{
    lemma_one_credit(leading_credit(stop, interval));
}

/// A start and its stop are one session: the time between them goes to the
/// key of the start, whatever the interval.
pub proof fn lemma_one_session(start: RecordView, stop: RecordView, interval: Interval)
    requires
        start.event.start,
        !stop.event.start,
        fits_i64(stop.timestamp - start.timestamp),
    ensures
        credit_all(Map::empty(), credits(seq![start, stop], interval)) == Some(
            Map::<Key, int>::empty().insert(
                key_of(start.event),
                stop.timestamp - start.timestamp,
            ),
        ),
{
    let session = Credit { key: key_of(start.event), seconds: stop.timestamp - start.timestamp };
    assert(pair_credits(seq![start, stop]) == seq![session]);
    lemma_one_credit(session);
}

/// The seconds of `credits` taken together.
pub open spec fn credit_sum(credits: Seq<Credit>) -> int
    decreases credits.len(),
{
    if credits.len() == 0 {
        0
    } else {
        credit_sum(credits.drop_last()) + credits.last().seconds
    }
}

/// No record is earlier than one before it.
pub open spec fn in_order(records: Seq<RecordView>) -> bool {
    forall|i: int, j: int|
        0 <= i <= j < records.len() ==> (#[trigger] records[i]).timestamp <= (
        #[trigger] records[j]).timestamp
}

/// The first `k` sessions of records in order take no more time than lies
/// between the first record and the last of them.
proof fn lemma_sessions_bounded(records: Seq<RecordView>, k: int)
    requires
        in_order(records),
        0 <= k <= records.len() / 2,
    ensures
        0 <= credit_sum(pair_credits(records).take(k)),
        k > 0 ==> credit_sum(pair_credits(records).take(k)) <= records[2 * k - 1].timestamp
            - records[0].timestamp,
        k == 0 ==> credit_sum(pair_credits(records).take(k)) == 0,
    decreases k,
{
    let sessions = pair_credits(records).take(k);
    if k > 0 {
        lemma_sessions_bounded(records, k - 1);
        assert(sessions.drop_last() == pair_credits(records).take(k - 1));
        assert(sessions.last() == pair_credits(records)[k - 1]);
        assert(records[2 * k - 2].timestamp <= records[2 * k - 1].timestamp);
        if k > 1 {
            assert(records[2 * k - 3].timestamp <= records[2 * k - 2].timestamp);
        }
    }
}

/// The sessions of `records[from..to]`, for records in order, take no more
/// time than lies between the records at the two ends.
proof fn lemma_part_bounded(records: Seq<RecordView>, from: int, to: int)
    requires
        in_order(records),
        0 <= from <= to <= records.len(),
    ensures
        0 <= credit_sum(pair_credits(records.subrange(from, to))),
        to - from >= 2 ==> credit_sum(pair_credits(records.subrange(from, to))) <= records[to
            - 1].timestamp - records[from].timestamp,
        to - from < 2 ==> credit_sum(pair_credits(records.subrange(from, to))) == 0,
{
    let part = records.subrange(from, to);
    let pairs = part.len() as int / 2;
    assert(in_order(part)) by {
        assert forall|i: int, j: int| 0 <= i <= j < part.len() implies (#[trigger] part[i]).timestamp
            <= (#[trigger] part[j]).timestamp by {
            assert(records[from + i].timestamp <= records[from + j].timestamp);
        }
    }
    lemma_sessions_bounded(part, pairs);
    assert(pair_credits(part).take(pairs) == pair_credits(part));
    if to - from >= 2 {
        assert(part[2 * pairs - 1] == records[from + 2 * pairs - 1]);
        assert(part[0] == records[from]);
        assert(records[from + 2 * pairs - 1].timestamp <= records[to - 1].timestamp);
    }
}

/// One more credit is that many more seconds.
proof fn lemma_sum_push(credits: Seq<Credit>, c: Credit)
    ensures
        credit_sum(credits.push(c)) == credit_sum(credits) + c.seconds,
{
    assert(credits.push(c).drop_last() == credits);
}

/// Records that lie in the interval, in the order of time, give no negative
/// time and no more time than the interval is long.
pub proof fn lemma_time_within_interval(records: Seq<RecordView>, interval: Interval)
    requires
        interval.wf(),
        in_order(records),
        forall|i: int| 0 <= i < records.len() ==> interval.holds((#[trigger] records[i]).timestamp),
    ensures
        0 <= credit_sum(credits(records, interval)) <= interval.end - interval.start,
{
    let n = records.len() as int;
    if n > 0 {
        assert(interval.holds(records[0].timestamp));
        assert(interval.holds(records[n - 1].timestamp));
        let lead = leading_credit(records[0], interval);
        let trail = trailing_credit(records[n - 1], interval);
        match shape_of(records) {
            Shape::Empty => {},
            Shape::SingleStop => {
                lemma_sum_push(Seq::empty(), lead);
                assert(Seq::<Credit>::empty().push(lead) == seq![lead]);
            },
            Shape::SingleStart => {
                lemma_sum_push(Seq::empty(), trail);
                assert(Seq::<Credit>::empty().push(trail) == seq![trail]);
            },
            Shape::StartToStop => {
                lemma_part_bounded(records, 0, n);
                assert(records.subrange(0, n) == records);
            },
            Shape::StartToStart => {
                lemma_part_bounded(records, 0, n - 1);
                lemma_sum_push(pair_credits(records.subrange(0, n - 1)), trail);
                assert(records[n - 2].timestamp <= records[n - 1].timestamp);
            },
            Shape::StopToStop => {
                lemma_part_bounded(records, 1, n);
                lemma_sum_push(pair_credits(records.subrange(1, n)), lead);
                assert(records[0].timestamp <= records[1].timestamp);
            },
            Shape::StopToStart => {
                let sessions = pair_credits(records.subrange(1, n - 1));
                lemma_part_bounded(records, 1, n - 1);
                lemma_sum_push(sessions, lead);
                lemma_sum_push(sessions.push(lead), trail);
                assert(records[0].timestamp <= records[1].timestamp);
                assert(records[n - 2].timestamp <= records[n - 1].timestamp);
            },
        }
    }
}

} // verus!
