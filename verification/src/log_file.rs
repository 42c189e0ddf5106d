//! The work log: its lines in the order in which they were written.
//!
//! The log only grows. Nothing here reads or writes a file: a `LogFile` holds
//! the lines, and whoever owns the file hands them in and takes the new ones
//! out.

use vstd::prelude::*;
use crate::clock::Clock;
use crate::error::{AppError, ErrorView};
pub use crate::event::Event;
use crate::event::{decode, decode_event, encode, views, EventView, LogRecord, RecordView};
use crate::interval::Interval;
use crate::project_map::ProjectMap;
use crate::tally::{is_sum, tally};

verus! {

broadcast use vstd::string::group_string_axioms;

/// The lines of the work log.
#[derive(Debug)]
pub struct LogFile {
    pub lines: Vec<String>,
}

impl View for LogFile {
    type V = Seq<Seq<char>>;

    open spec fn view(&self) -> Seq<Seq<char>> {
        Seq::new(self.lines@.len(), |i: int| self.lines@[i]@)
    }
}

/// The index of the first line at or after `i` that holds no record;
/// `lines.len()` if there is none.
pub open spec fn first_corrupt(lines: Seq<Seq<char>>, i: int) -> int
    decreases lines.len() - i,
{
    if 0 <= i < lines.len() && decode(lines[i]) is Some {
        first_corrupt(lines, i + 1)
    } else {
        i
    }
}

/// Every line holds a record.
pub open spec fn sound(lines: Seq<Seq<char>>) -> bool {
    first_corrupt(lines, 0) >= lines.len()
}

/// The records of the lines, where every line holds one.
pub open spec fn records_of(lines: Seq<Seq<char>>) -> Seq<RecordView> {
    Seq::new(lines.len(), |i: int| decode(lines[i])->0)
}

/// The records of `records` that lie in `interval`, in their order.
pub open spec fn retained(records: Seq<RecordView>, interval: Interval) -> Seq<RecordView>
    decreases records.len(),
{
    if records.len() == 0 {
        Seq::empty()
    } else if interval.holds(records.last().timestamp) {
        retained(records.drop_last(), interval).push(records.last())
    } else {
        retained(records.drop_last(), interval)
    }
}

/// The event with which an empty log ends: no work is in progress.
pub open spec fn at_rest() -> EventView {
    EventView { start: false, project: None, description: None }
}

/// The event with which the log ends, if its last line records one.
pub open spec fn latest_event(lines: Seq<Seq<char>>) -> Option<EventView> {
    if lines.len() == 0 {
        Some(at_rest())
    } else {
        decode_event(lines.last())
    }
}

/// Whether `r` is what the lines `lines` give for `interval`.
///
/// A line that holds no record is an error, the first such line named. Else
/// `r` is the sum of the records that lie in the interval.
pub open spec fn is_tally(
    lines: Seq<Seq<char>>,
    interval: Interval,
    r: Result<Option<ProjectMap>, AppError>,
) -> bool {
    if sound(lines) {
        is_sum(retained(records_of(lines), interval), interval, r)
    } else {
        r matches Err(e) && e@ == ErrorView::Corrupt(lines[first_corrupt(lines, 0)])
    }
}

impl LogFile {
    /// The log with the lines `lines`.
    pub fn new(lines: Vec<String>) -> (r: LogFile)
        ensures
            r.lines == lines,
    {
        LogFile { lines }
    }

    /// The number of lines.
    pub fn len(&self) -> (n: usize)
        ensures
            n == self@.len(),
    {
        self.lines.len()
    }

    /// Appends the record of `event` at the time `timestamp`.
    pub fn append_event(&mut self, event: &Event, timestamp: i64)
        ensures
            final(self)@ == old(self)@.push(
                encode(RecordView { timestamp: timestamp as int, event: event@ }),
            ),
    {
        let record = LogRecord { timestamp, event: event.clone() };
        let line = record.to_line();
        self.lines.push(line);
        assert(self@ =~= old(self)@.push(
            encode(RecordView { timestamp: timestamp as int, event: event@ }),
        ));
    }

    /// Appends the record of `event` at the moment that `clock` shows.
    pub fn append_event_now(&mut self, event: &Event, clock: &Clock)
        ensures
            final(self)@ == old(self)@.push(
                encode(RecordView { timestamp: clock@.timestamp as int, event: event@ }),
            ),
    {
        self.append_event(event, clock.timestamp());
    }

    /// The event of the last line. An empty log ends at rest: with a stop
    /// that has neither project nor description. A last line that records
    /// no event is an error.
    pub fn get_latest_event(&self) -> (r: Result<Event, AppError>)
        ensures
            match r {
                Ok(event) => latest_event(self@) == Some(event@),
                Err(e) => latest_event(self@) is None && e@ == ErrorView::Corrupt(self@.last()),
            },
    {
        let n = self.lines.len();
        if n == 0 {
            return Ok(Event::Stop(None, None));
        }
        let line = self.lines[n - 1].as_str();
        assert(line@ == self@.last());
        match Event::from_line(line) {
            Some(event) => Ok(event),
            None => Err(AppError::corrupt(line)),
        }
    }

    /// The records that lie in `interval`, its two ends included, in the
    /// order of the log. Every line is read: the first that holds no record
    /// is an error, wherever its time would lie.
    pub fn filter_events(&self, interval: &Interval) -> (r: Result<Vec<LogRecord>, AppError>)
        ensures
            match r {
                Ok(records) => sound(self@) && views(records@) == retained(
                    records_of(self@),
                    *interval,
                ),
                Err(e) => !sound(self@) && e@ == ErrorView::Corrupt(self@[first_corrupt(self@, 0)]),
            },
    {
        let ghost all = records_of(self@);
        let mut records: Vec<LogRecord> = Vec::new();
        let mut i: usize = 0;
        while i < self.lines.len()
            invariant
                i <= self.lines.len(),
                all == records_of(self@),
                first_corrupt(self@, 0) == first_corrupt(self@, i as int),
                views(records@) == retained(all.take(i as int), *interval),
            decreases self.lines.len() - i,
        {
            let line = self.lines[i].as_str();
            assert(line@ == self@[i as int]);
            match LogRecord::from_line(line) {
                Some(record) => {
                    proof {
                        assert(all.take(i + 1).drop_last() == all.take(i as int));
                        assert(all.take(i + 1).last() == record@);
                    }
                    if interval.contains(record.timestamp) {
                        let ghost before = records@;
                        records.push(record);
                        assert(views(records@) == views(before).push(record@));
                    }
                },
                None => {
                    return Err(AppError::corrupt(line));
                },
            }
            i = i + 1;
        }
        assert(all.take(i as int) == all);
        Ok(records)
    }

    /// The time spent in `interval` per project and description, from the
    /// records that lie in it; `None` where none does.
    pub fn tally_time(&self, interval: &Interval) -> (r: Result<Option<ProjectMap>, AppError>)
        ensures
            is_tally(self@, *interval, r),
    {
        match self.filter_events(interval) {
            Ok(records) => {
                assert(views(records@).len() == records@.len());
                tally(records.as_slice(), interval)
            },
            Err(e) => Err(e),
        }
    }
}

/// What is retained lies in the interval, and nothing that lies in it is
/// left out: where every record lies in the interval, all are retained.
pub proof fn lemma_retained(records: Seq<RecordView>, interval: Interval)
    ensures
        retained(records, interval).len() <= records.len(),
        forall|i: int|
            0 <= i < retained(records, interval).len() ==> interval.holds(
                (#[trigger] retained(records, interval)[i]).timestamp,
            ),
        (forall|i: int| 0 <= i < records.len() ==> interval.holds((#[trigger] records[i]).timestamp))
            ==> retained(records, interval) == records,
    decreases records.len(),
{
    if records.len() > 0 {
        lemma_retained(records.drop_last(), interval);
        if forall|i: int| 0 <= i < records.len() ==> interval.holds((#[trigger] records[i]).timestamp) {
            assert forall|i: int| 0 <= i < records.drop_last().len() implies interval.holds(
                (#[trigger] records.drop_last()[i]).timestamp,
            ) by {
                assert(records.drop_last()[i] == records[i]);
            }
            assert(interval.holds(records.last().timestamp));
            assert(records.drop_last().push(records.last()) == records);
        }
    }
}

} // verus!
