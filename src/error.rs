use vstd::prelude::*;

use crate::time::Weekday;

verus! {

/// Every way in which parsing, validating or resolving a schedule can fail.
#[derive(Clone, PartialEq, Eq, Debug)]
pub enum ScheduleError {
    /// A clock-time string matches neither accepted form.
    UnparsableTime(String),
    /// A meeting name or alias is used more than once in the directory.
    DuplicateAlias(String),
    /// A scheduled slot names a meeting that the directory does not know.
    UnknownMeetingReference(Weekday, String),
    /// A scheduled slot's time string is not a valid clock time.
    InvalidTimeString(Weekday, String),
    /// A selected slot names a meeting that the directory does not know.
    DanglingReference(String),
    /// No meeting is known by the requested name or alias.
    UnknownAlias(String),
}

/// The mathematical value of a `ScheduleError`, with strings as character sequences.
pub enum Fault {
    UnparsableTime(Seq<char>),
    DuplicateAlias(Seq<char>),
    UnknownMeetingReference(Weekday, Seq<char>),
    InvalidTimeString(Weekday, Seq<char>),
    DanglingReference(Seq<char>),
    UnknownAlias(Seq<char>),
}

impl View for ScheduleError {
    type V = Fault;

    open spec fn view(&self) -> Fault {
        match self {
            ScheduleError::UnparsableTime(s) => Fault::UnparsableTime(s@),
            ScheduleError::DuplicateAlias(s) => Fault::DuplicateAlias(s@),
            ScheduleError::UnknownMeetingReference(w, s) => Fault::UnknownMeetingReference(*w, s@),
            ScheduleError::InvalidTimeString(w, s) => Fault::InvalidTimeString(*w, s@),
            ScheduleError::DanglingReference(s) => Fault::DanglingReference(s@),
            ScheduleError::UnknownAlias(s) => Fault::UnknownAlias(s@),
        }
    }
}

} // verus!
