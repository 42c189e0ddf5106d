//! The one error type of the crate.

use vstd::prelude::*;
use vstd::string::StringExecFns;

verus! {

broadcast use vstd::string::group_string_axioms;

/// What went wrong, with the message for the user.
#[derive(Clone, Debug)]
pub enum ErrorKind {
    /// The user asked for something that cannot be done: a time expression
    /// that cannot be read, work started twice.
    User(String),
    /// The system refused: a clock that cannot be read, a command that did
    /// not run.
    System(String),
    /// The work log is missing, or cannot be read or written.
    LogFile(String),
    /// The work log holds a line that is no record: the line.
    Corrupt(String),
}

/// An `ErrorKind` with its text as a sequence of characters.
pub enum ErrorView {
    User(Seq<char>),
    System(Seq<char>),
    LogFile(Seq<char>),
    Corrupt(Seq<char>),
}

/// The message for a line of the log that is no record.
pub open spec fn corrupt_message(line: Seq<char>) -> Seq<char> {
    "Corrupt record in work log: "@ + line
}

impl View for ErrorKind {
    type V = ErrorView;

    open spec fn view(&self) -> ErrorView {
        match self {
            ErrorKind::User(m) => ErrorView::User(m@),
            ErrorKind::System(m) => ErrorView::System(m@),
            ErrorKind::LogFile(m) => ErrorView::LogFile(m@),
            ErrorKind::Corrupt(line) => ErrorView::Corrupt(line@),
        }
    }
}

impl ErrorView {
    /// The message for the user, whatever the kind.
    pub open spec fn message(self) -> Seq<char> {
        match self {
            ErrorView::User(m) => m,
            ErrorView::System(m) => m,
            ErrorView::LogFile(m) => m,
            ErrorView::Corrupt(line) => corrupt_message(line),
        }
    }
}

/// Why reading or writing the log file failed, as far as that decides the
/// message.
#[derive(Clone, Copy, Debug, PartialEq, Eq)]
pub enum IoFailure {
    NotFound,
    PermissionDenied,
    Other,
}

/// An error of this crate. It travels up to the caller, who shows its message.
#[derive(Clone, Debug)]
pub struct AppError {
    kind: ErrorKind,
}

impl View for AppError {
    type V = ErrorView;

    closed spec fn view(&self) -> ErrorView {
        self.kind@
    }
}

impl AppError {
    pub fn new(kind: ErrorKind) -> (e: AppError)
        ensures
            e@ == kind@,
    {
        AppError { kind }
    }

    /// The kind of this error.
    pub fn kind(&self) -> (k: &ErrorKind)
        ensures
            k@ == self@,
    {
        &self.kind
    }

    /// A user error with the message `message`.
    pub fn user(message: &str) -> (e: AppError)
        ensures
            e@ == ErrorView::User(message@),
    {
        AppError { kind: ErrorKind::User(message.to_string()) }
    }

    /// A system error with the message `message`.
    pub fn system(message: &str) -> (e: AppError)
        ensures
            e@ == ErrorView::System(message@),
    {
        AppError { kind: ErrorKind::System(message.to_string()) }
    }

    /// A log file error with the message `message`.
    pub fn log_file(message: &str) -> (e: AppError)
        ensures
            e@ == ErrorView::LogFile(message@),
    {
        AppError { kind: ErrorKind::LogFile(message.to_string()) }
    }

    /// An error for the line `line` of the log, which is no record.
    pub fn corrupt(line: &str) -> (e: AppError)
        ensures
            e@ == ErrorView::Corrupt(line@),
    {
        AppError { kind: ErrorKind::Corrupt(line.to_string()) }
    }

    /// The kind in words.
    pub fn description(&self) -> (d: &'static str)
        ensures
            d@ == match self@ {
                ErrorView::User(_) => "user error"@,
                ErrorView::System(_) => "system error"@,
                ErrorView::LogFile(_) => "log file error"@,
                ErrorView::Corrupt(_) => "log file error"@,
            },
    {
        match self.kind {
            ErrorKind::User(_) => "user error",
            ErrorKind::System(_) => "system error",
            ErrorKind::LogFile(_) => "log file error",
            ErrorKind::Corrupt(_) => "log file error",
        }
    }

    /// The message for the user.
    pub fn to_string(&self) -> (s: String)
        ensures
            s@ == self@.message(),
    {
        match &self.kind {
            ErrorKind::User(m) => m.clone(),
            ErrorKind::System(m) => m.clone(),
            ErrorKind::LogFile(m) => m.clone(),
            ErrorKind::Corrupt(line) => {
                let mut message = String::new();
                message.append("Corrupt record in work log: ");
                message.append(line.as_str());
                assert(message@ =~= corrupt_message(line@));
                message
            },
        }
    }

    /// The exit code of a program that ends on this error.
    pub fn exit_code(&self) -> (code: i32)
        ensures
            code == match self@ {
                ErrorView::User(_) => 2i32,
                ErrorView::LogFile(_) => 3i32,
                ErrorView::Corrupt(_) => 3i32,
                ErrorView::System(_) => 4i32,
            },
    {
        match self.kind {
            ErrorKind::User(_) => 2,
            ErrorKind::LogFile(_) => 3,
            ErrorKind::Corrupt(_) => 3,
            ErrorKind::System(_) => 4,
        }
    }

    /// The error for a failure to read or write the log file.
    pub fn from_io(failure: IoFailure) -> (e: AppError)
        ensures
            e@ == ErrorView::LogFile(
                match failure {
                    IoFailure::NotFound => "Work log does not exist!"@,
                    IoFailure::PermissionDenied => "Invalid permissions for work log!"@,
                    IoFailure::Other => "Unable to write/read to/from work log!"@,
                },
            ),
    {
        match failure {
            IoFailure::NotFound => AppError::log_file("Work log does not exist!"),
            IoFailure::PermissionDenied => AppError::log_file("Invalid permissions for work log!"),
            IoFailure::Other => AppError::log_file("Unable to write/read to/from work log!"),
        }
    }
}

} // verus!
