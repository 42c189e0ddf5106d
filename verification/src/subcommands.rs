//! What each command does to the log.
//!
//! A command looks at the event with which the log ends, refuses what makes
//! no sense (work started twice, work stopped that never began) and appends
//! its records. The caller brings the present time and, afterwards, writes
//! the new lines to the file.

use vstd::prelude::*;
use vstd::string::StringExecFns;
use crate::clock::{Clock, ClockView};
use crate::error::{AppError, ErrorView};
use crate::event::{clone_label, encode, label_view, Event, EventView, Label, RecordView};
use crate::interval::{interval_of, invalid_message, Interval, Search};
use crate::log_file::{is_tally, latest_event, LogFile};
use crate::project_map::ProjectMap;
use crate::text::{chars_of, is_text};

verus! {

broadcast use vstd::string::group_string_axioms;

/// The message for work that was to start while other work is in progress.
pub open spec fn busy_message() -> Seq<char> {
    "Please stop the current work before starting new work."@
}

/// The message for work that was to be registered while other work is in
/// progress.
pub open spec fn busy_registering_message() -> Seq<char> {
    "Please stop the current work before registering new work."@
}

/// The message for a stop without work in progress.
pub open spec fn idle_message() -> Seq<char> {
    "Unable to stop, no work in progress!"@
}

/// The message for a command that ran and failed.
pub open spec fn failed_message() -> Seq<char> {
    "Process failed to execute"@
}

/// The line that records a start at `timestamp`.
pub open spec fn start_line(timestamp: i64, project: Label, description: Label) -> Seq<char> {
    encode(
        RecordView {
            timestamp: timestamp as int,
            event: EventView { start: true, project, description },
        },
    )
}

/// The line that records a stop at `timestamp`.
pub open spec fn stop_line(timestamp: i64, project: Label, description: Label) -> Seq<char> {
    encode(
        RecordView {
            timestamp: timestamp as int,
            event: EventView { start: false, project, description },
        },
    )
}

/// What the user reads of the state of the log.
pub open spec fn status_text(event: EventView) -> Seq<char> {
    if !event.start {
        "Free"@
    } else {
        match event.project {
            Some(project) => "Working on "@ + project,
            None => "Working"@,
        }
    }
}

/// Whether work is in progress after `event`.
pub fn is_working(event: &Event) -> (r: bool)
    ensures
        r == event@.start,
{
    match event {
        Event::Stop(_, _) => false,
        Event::Start(_, _) => true,
    }
}

/// The event with which the log ends, if no work is in progress; else the
/// error with the message `message`.
fn latest_at_rest(log: &LogFile, message: &str) -> (r: Result<Event, AppError>)
    ensures
        match r {
            Ok(event) => latest_event(log@) == Some(event@) && !event@.start,
            Err(e) => match latest_event(log@) {
                Some(event) => event.start && e@ == ErrorView::User(message@),
                None => e@ == ErrorView::Corrupt(log@.last()),
            },
        },
{
    match log.get_latest_event() {
        Ok(event) => if is_working(&event) {
            Err(AppError::user(message))
        } else {
            Ok(event)
        },
        Err(e) => Err(e),
    }
}

/// Starts work at the time `timestamp`, unless work is in progress.
pub fn start(
    log: &mut LogFile,
    project: Option<String>,
    description: Option<String>,
    timestamp: i64,
) -> (r: Result<i32, AppError>)
    ensures
        match r {
            Ok(code) => {
                &&& code == 0
                &&& latest_event(old(log)@) matches Some(event)
                &&& !event.start
                &&& final(log)@ == old(log)@.push(
                    start_line(timestamp, label_view(project), label_view(description)),
                )
            },
            Err(e) => final(log)@ == old(log)@ && match latest_event(old(log)@) {
                Some(event) => event.start && e@ == ErrorView::User(busy_message()),
                None => e@ == ErrorView::Corrupt(old(log)@.last()),
            },
        },
{
    match latest_at_rest(log, "Please stop the current work before starting new work.") {
        Ok(_) => {
            log.append_event(&Event::Start(project, description), timestamp);
            Ok(0)
        },
        Err(e) => Err(e),
    }
}

/// Stops the work in progress at the time `timestamp`: the stop bears the
/// project and the description of the start.
pub fn stop(log: &mut LogFile, timestamp: i64) -> (r: Result<i32, AppError>)
    ensures
        match r {
            Ok(code) => {
                &&& code == 0
                &&& latest_event(old(log)@) matches Some(event)
                &&& event.start
                &&& final(log)@ == old(log)@.push(
                    stop_line(timestamp, event.project, event.description),
                )
            },
            Err(e) => final(log)@ == old(log)@ && match latest_event(old(log)@) {
                Some(event) => !event.start && e@ == ErrorView::User(idle_message()),
                None => e@ == ErrorView::Corrupt(old(log)@.last()),
            },
        },
{
    match log.get_latest_event() {
        Ok(event) => match event {
            Event::Stop(_, _) => Err(AppError::user("Unable to stop, no work in progress!")),
            Event::Start(project, description) => {
                log.append_event(&Event::Stop(project, description), timestamp);
                Ok(0)
            },
        },
        Err(e) => Err(e),
    }
}

/// The state of the log in words: `Free`, `Working`, or `Working on` and the
/// project.
pub fn status(log: &LogFile) -> (r: Result<String, AppError>)
    ensures
        match r {
            Ok(text) => latest_event(log@) matches Some(event) && text@ == status_text(event),
            Err(e) => latest_event(log@) is None && e@ == ErrorView::Corrupt(log@.last()),
        },
{
    match log.get_latest_event() {
        Ok(event) => {
            let mut text = String::new();
            match &event {
                Event::Stop(_, _) => {
                    text.append("Free");
                },
                Event::Start(None, _) => {
                    text.append("Working");
                },
                Event::Start(Some(project), _) => {
                    text.append("Working on ");
                    text.append(project.as_str());
                },
            }
            assert(text@ =~= status_text(event@));
            Ok(text)
        },
        Err(e) => Err(e),
    }
}

/// Answers a question with an exit code, 0 for yes and 1 for no: is work in
/// progress (`check_working`), or is there none?
pub fn working_or_free(log: &LogFile, check_working: bool) -> (r: Result<i32, AppError>)
    ensures
        match r {
            Ok(code) => latest_event(log@) matches Some(event) && code == (if event.start
                == check_working {
                0i32
            } else {
                1i32
            }),
            Err(e) => latest_event(log@) is None && e@ == ErrorView::Corrupt(log@.last()),
        },
{
    match log.get_latest_event() {
        Ok(event) => if is_working(&event) == check_working {
            Ok(0)
        } else {
            Ok(1)
        },
        Err(e) => Err(e),
    }
}

/// The interval that the command `of` asks about: the one that `input`
/// names searching backward, which for `yesterday` ends with the midnight
/// of today, not now.
pub open spec fn asked_interval(input: Seq<char>, clock: ClockView) -> Option<Interval> {
    match interval_of(input, clock, Search::Backward) {
        Some(interval) => if input == "yesterday"@ {
            Some(Interval { start: interval.start, end: clock.midnight })
        } else {
            Some(interval)
        },
        None => None,
    }
}

/// The interval that the command `of` asks about.
pub fn of_interval(interval_input: &str, clock: &Clock) -> (r: Result<Interval, AppError>)
    ensures
        match r {
            Ok(interval) => asked_interval(interval_input@, clock@) == Some(interval),
            Err(e) => asked_interval(interval_input@, clock@) is None && e@ == ErrorView::User(
                invalid_message(interval_input@),
            ),
        },
{
    match Interval::try_parse(interval_input, &Search::Backward, clock) {
        Ok(interval) => {
            let v = chars_of(interval_input);
            if is_text(&v, "yesterday") {
                Ok(Interval { start: interval.start, end: clock.midnight() })
            } else {
                Ok(interval)
            }
        },
        Err(e) => Err(e),
    }
}

/// The time spent in the interval that `interval_input` names, per project
/// and description; `None` where the log has no record in it.
pub fn of(log: &LogFile, interval_input: &str, clock: &Clock) -> (r: Result<
    Option<ProjectMap>,
    AppError,
>)
    ensures
        match asked_interval(interval_input@, clock@) {
            Some(interval) => is_tally(log@, interval, r),
            None => r matches Err(e) && e@ == ErrorView::User(invalid_message(interval_input@)),
        },
{
    match of_interval(interval_input, clock) {
        Ok(interval) => log.tally_time(&interval),
        Err(e) => Err(e),
    }
}

/// Registers work that began at the moment `time` names, searching
/// backward, and ends now; with `keep_open` it does not end.
pub fn since(
    log: &mut LogFile,
    time: &str,
    project: Option<String>,
    description: Option<String>,
    keep_open: bool,
    clock: &Clock,
) -> (r: Result<i32, AppError>)
    ensures
        match r {
            Ok(code) => {
                &&& code == 0
                &&& latest_event(old(log)@) matches Some(event)
                &&& !event.start
                &&& interval_of(time@, clock@, Search::Backward) matches Some(interval)
                &&& final(log)@ == if keep_open {
                    old(log)@.push(
                        start_line(interval.start, label_view(project), label_view(description)),
                    )
                } else {
                    old(log)@.push(
                        start_line(interval.start, label_view(project), label_view(description)),
                    ).push(
                        stop_line(clock@.timestamp, label_view(project), label_view(description)),
                    )
                }
            },
            Err(e) => final(log)@ == old(log)@ && match latest_event(old(log)@) {
                Some(event) => if event.start {
                    e@ == ErrorView::User(busy_registering_message())
                } else {
                    interval_of(time@, clock@, Search::Backward) is None && e@ == ErrorView::User(
                        invalid_message(time@),
                    )
                },
                None => e@ == ErrorView::Corrupt(old(log)@.last()),
            },
        },
{
    match latest_at_rest(log, "Please stop the current work before registering new work.") {
        Ok(_) => match Interval::try_parse(time, &Search::Backward, clock) {
            Ok(interval) => {
                let begin = Event::Start(clone_label(&project), clone_label(&description));
                log.append_event(&begin, interval.start);
                if !keep_open {
                    log.append_event(&Event::Stop(project, description), clock.timestamp());
                }
                Ok(0)
            },
            Err(e) => Err(e),
        },
        Err(e) => Err(e),
    }
}

/// Registers work that begins now and ends at the moment `time` names,
/// searching forward.
pub fn until(
    log: &mut LogFile,
    time: &str,
    project: Option<String>,
    description: Option<String>,
    clock: &Clock,
) -> (r: Result<i32, AppError>)
    ensures
        match r {
            Ok(code) => {
                &&& code == 0
                &&& latest_event(old(log)@) matches Some(event)
                &&& !event.start
                &&& interval_of(time@, clock@, Search::Forward) matches Some(interval)
                &&& final(log)@ == old(log)@.push(
                    start_line(clock@.timestamp, label_view(project), label_view(description)),
                ).push(stop_line(interval.end, label_view(project), label_view(description)))
            },
            Err(e) => final(log)@ == old(log)@ && match latest_event(old(log)@) {
                Some(event) => if event.start {
                    e@ == ErrorView::User(busy_message())
                } else {
                    interval_of(time@, clock@, Search::Forward) is None && e@ == ErrorView::User(
                        invalid_message(time@),
                    )
                },
                None => e@ == ErrorView::Corrupt(old(log)@.last()),
            },
        },
{
    match latest_at_rest(log, "Please stop the current work before starting new work.") {
        Ok(_) => match Interval::try_parse(time, &Search::Forward, clock) {
            Ok(interval) => {
                let begin = Event::Start(clone_label(&project), clone_label(&description));
                log.append_event(&begin, clock.timestamp());
                log.append_event(&Event::Stop(project, description), interval.end);
                Ok(0)
            },
            Err(e) => Err(e),
        },
        Err(e) => Err(e),
    }
}

/// Registers work over the interval that `time` names, searching backward.
pub fn between(
    log: &mut LogFile,
    time: &str,
    project: Option<String>,
    description: Option<String>,
    clock: &Clock,
) -> (r: Result<i32, AppError>)
    ensures
        match r {
            Ok(code) => {
                &&& code == 0
                &&& latest_event(old(log)@) matches Some(event)
                &&& !event.start
                &&& interval_of(time@, clock@, Search::Backward) matches Some(interval)
                &&& final(log)@ == old(log)@.push(
                    start_line(interval.start, label_view(project), label_view(description)),
                ).push(stop_line(interval.end, label_view(project), label_view(description)))
            },
            Err(e) => final(log)@ == old(log)@ && match latest_event(old(log)@) {
                Some(event) => if event.start {
                    e@ == ErrorView::User(busy_message())
                } else {
                    interval_of(time@, clock@, Search::Backward) is None && e@ == ErrorView::User(
                        invalid_message(time@),
                    )
                },
                None => e@ == ErrorView::Corrupt(old(log)@.last()),
            },
        },
{
    match latest_at_rest(log, "Please stop the current work before starting new work.") {
        Ok(_) => match Interval::try_parse(time, &Search::Backward, clock) {
            Ok(interval) => {
                let begin = Event::Start(clone_label(&project), clone_label(&description));
                log.append_event(&begin, interval.start);
                log.append_event(&Event::Stop(project, description), interval.end);
                Ok(0)
            },
            Err(e) => Err(e),
        },
        Err(e) => Err(e),
    }
}

/// Whether new work may begin: not while other work is in progress. The
/// error tells the user to stop that work first, before registering new
/// work (`registering`) or before starting it.
pub fn check_at_rest(log: &LogFile, registering: bool) -> (r: Result<(), AppError>)
    ensures
        match r {
            Ok(_) => latest_event(log@) matches Some(event) && !event.start,
            Err(e) => match latest_event(log@) {
                Some(event) => event.start && e@ == ErrorView::User(
                    if registering {
                        busy_registering_message()
                    } else {
                        busy_message()
                    },
                ),
                None => e@ == ErrorView::Corrupt(log@.last()),
            },
        },
{
    let checked = if registering {
        latest_at_rest(log, "Please stop the current work before registering new work.")
    } else {
        latest_at_rest(log, "Please stop the current work before starting new work.")
    };
    match checked {
        Ok(_) => Ok(()),
        Err(e) => Err(e),
    }
}

/// Whether a command may run as work: not while other work is in progress.
pub fn while_check(log: &LogFile) -> (r: Result<(), AppError>)
    ensures
        match r {
            Ok(_) => latest_event(log@) matches Some(event) && !event.start,
            Err(e) => match latest_event(log@) {
                Some(event) => event.start && e@ == ErrorView::User(busy_message()),
                None => e@ == ErrorView::Corrupt(log@.last()),
            },
        },
{
    check_at_rest(log, false)
}

/// Records that the command began to run at the time `timestamp`.
pub fn while_started(
    log: &mut LogFile,
    project: &Option<String>,
    description: &Option<String>,
    timestamp: i64,
)
    ensures
        final(log)@ == old(log)@.push(
            start_line(timestamp, label_view(*project), label_view(*description)),
        ),
{
    log.append_event(&Event::Start(clone_label(project), clone_label(description)), timestamp);
}

/// Records that the command came to its end at the time `timestamp`, and
/// tells how: a command that failed is an error of the system.
pub fn while_finished(
    log: &mut LogFile,
    project: Option<String>,
    description: Option<String>,
    timestamp: i64,
    success: bool,
) -> (r: Result<i32, AppError>)
    ensures
        final(log)@ == old(log)@.push(
            stop_line(timestamp, label_view(project), label_view(description)),
        ),
        match r {
            Ok(code) => success && code == 0,
            Err(e) => !success && e@ == ErrorView::System(failed_message()),
        },
{
    log.append_event(&Event::Stop(project, description), timestamp);
    if success {
        Ok(0)
    } else {
        Err(AppError::system("Process failed to execute"))
    }
}

} // verus!
