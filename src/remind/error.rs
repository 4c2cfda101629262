//! Errors of the reminder handler.

use vstd::prelude::*;

verus! {

#[derive(Clone, Copy, Debug, PartialEq, Eq, Structural)]
pub enum ErrorKind {
    /// Invalid command error
    InvalidCommand,
    /// Missing message error
    MissingMessage,
    /// Missing receiver error
    MissingReceiver,
    /// Missing time error
    MissingTime,
    /// Invalid time error
    InvalidTime,
    /// Invalid date error
    InvalidDate,
    /// Parse error
    Parsing,
    /// Ambigous time error
    AmbiguousTime,
    /// Time too short error
    TimeShort,
    /// Repeat time too short error
    RepeatTimeShort,
    /// Duplicate error
    Duplicate,
    /// Not found error
    NotFound,
}

pub open spec fn kind_text(k: ErrorKind) -> Seq<char> {
    match k {
        ErrorKind::InvalidCommand => "Incorrect Command. Send \"remind help\" for help."@,
        ErrorKind::MissingMessage => "Reminder needs to have a description"@,
        ErrorKind::MissingReceiver => "Specify who to remind"@,
        ErrorKind::MissingTime => "Reminder needs to have a time"@,
        ErrorKind::InvalidTime => "Could not parse time"@,
        ErrorKind::InvalidDate => "Could not parse date"@,
        ErrorKind::Parsing => "Could not parse integers"@,
        ErrorKind::AmbiguousTime => "Time specified is ambiguous"@,
        ErrorKind::TimeShort => "Reminder needs to be in over 2 minutes"@,
        ErrorKind::RepeatTimeShort => "Repeat time needs to be over 5 minutes"@,
        ErrorKind::Duplicate => "Entry already exists"@,
        ErrorKind::NotFound => "No events found"@,
    }
}

impl ErrorKind {
    /// The display text of this kind.
    pub fn text(&self) -> (r: &'static str)
        ensures
            r@ == kind_text(*self),
    {
        match self {
            ErrorKind::InvalidCommand => "Incorrect Command. Send \"remind help\" for help.",
            ErrorKind::MissingMessage => "Reminder needs to have a description",
            ErrorKind::MissingReceiver => "Specify who to remind",
            ErrorKind::MissingTime => "Reminder needs to have a time",
            ErrorKind::InvalidTime => "Could not parse time",
            ErrorKind::InvalidDate => "Could not parse date",
            ErrorKind::Parsing => "Could not parse integers",
            ErrorKind::AmbiguousTime => "Time specified is ambiguous",
            ErrorKind::TimeShort => "Reminder needs to be in over 2 minutes",
            ErrorKind::RepeatTimeShort => "Repeat time needs to be over 5 minutes",
            ErrorKind::Duplicate => "Entry already exists",
            ErrorKind::NotFound => "No events found",
        }
    }
}

/// `r` is an error of kind `k`.
pub open spec fn fails_with<X>(r: Result<X, RemindError>, k: ErrorKind) -> bool {
    match r {
        Err(e) => e.kind == k,
        Ok(_) => false,
    }
}

/// An error of the reminder handler.
#[derive(Clone, Copy, Debug, PartialEq, Eq, Structural)]
pub struct RemindError {
    pub kind: ErrorKind,
}

} // verus!
