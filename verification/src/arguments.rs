//! What the user asks for: the commands and their options.

use vstd::prelude::*;
use crate::error::{AppError, ErrorView};
use crate::text::{chars_of, is_text};

verus! {

broadcast use vstd::string::group_string_axioms;

/// What was given on the command line.
#[derive(Debug)]
pub struct Args {
    pub subcommand: SubCommand,
}

/// The commands.
#[derive(Debug)]
pub enum SubCommand {
    /// Appends a start to the log.
    Start { project: Option<String>, description: Option<String> },
    /// Appends a stop to the log.
    Stop,
    /// Tells the state of the log in words.
    Status,
    /// Exit code 0 if no work is in progress, 1 otherwise.
    Free,
    /// Exit code 0 if work is in progress, 1 otherwise.
    Working,
    /// Sums up the work done in an interval.
    Of { interval: String, csv: bool, json: bool, time_format: TimeFormat },
    /// Registers work that began at a given time; with `keep_open` no stop
    /// is appended.
    Since { time: String, project: Option<String>, description: Option<String>, keep_open: bool },
    /// Registers work that ends at a given time.
    Until { time: String, project: Option<String>, description: Option<String> },
    /// Runs a command as work.
    While { cmd: String, project: Option<String>, description: Option<String> },
    /// Registers work done in a given interval.
    Between { time: String, project: Option<String>, description: Option<String> },
}

/// How a duration is shown.
#[derive(Clone, Copy, PartialEq, Eq, Debug, Structural)]
pub enum TimeFormat {
    /// Whole minutes.
    Minutes,
    /// Minutes brought up to a quarter of an hour.
    MinutesApprox,
    /// Hours, to half an hour.
    HoursApprox,
    /// Hours and minutes in words.
    HumanReadable,
}

/// The format that `s` names.
pub open spec fn named_format(s: Seq<char>) -> Option<TimeFormat> {
    if s == "m"@ || s == "minutes"@ {
        Some(TimeFormat::Minutes)
    } else if s == "h"@ || s == "hours"@ {
        Some(TimeFormat::HoursApprox)
    } else if s == "ma"@ || s == "minutes-approx"@ {
        Some(TimeFormat::MinutesApprox)
    } else if s == "hr"@ || s == "human-readable"@ {
        Some(TimeFormat::HumanReadable)
    } else {
        None
    }
}

/// The message for a text that names no format.
pub open spec fn format_message() -> Seq<char> {
    "Valid values are [m, minutes, ma, minutes-approx, h, hours, hr, human-readable]"@
}

impl TimeFormat {
    /// The format that `s` names, by its short or its long name.
    pub fn from_str(s: &str) -> (r: Result<TimeFormat, AppError>)
        ensures
            match r {
                Ok(format) => named_format(s@) == Some(format),
                Err(e) => named_format(s@) is None && e@ == ErrorView::User(format_message()),
            },
    {
        let v = chars_of(s);
        if is_text(&v, "m") || is_text(&v, "minutes") {
            Ok(TimeFormat::Minutes)
        } else if is_text(&v, "h") || is_text(&v, "hours") {
            Ok(TimeFormat::HoursApprox)
        } else if is_text(&v, "ma") || is_text(&v, "minutes-approx") {
            Ok(TimeFormat::MinutesApprox)
        } else if is_text(&v, "hr") || is_text(&v, "human-readable") {
            Ok(TimeFormat::HumanReadable)
        } else {
            Err(
                AppError::user(
                    "Valid values are [m, minutes, ma, minutes-approx, h, hours, hr, human-readable]",
                ),
            )
        }
    }
}

} // verus!
