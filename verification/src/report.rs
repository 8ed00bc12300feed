//! Reports: a message of some severity, with or without a place in a file.

use crate::file::{Location, LocationView};
use vstd::prelude::*;

verus! {

/// How grave a report is, from the least to the most.
#[derive(Clone, Copy, Debug, Hash, PartialEq, Eq, PartialOrd, Ord)]
pub enum Severity {
    Note,
    Warning,
    Error,
    Bug,
}

impl Severity {
    /// The word that a report of this severity begins with.
    pub open spec fn label_spec(self) -> Seq<char> {
        match self {
            Severity::Note => "note"@,
            Severity::Warning => "warning"@,
            Severity::Error => "error"@,
            Severity::Bug => "bug"@,
        }
    }

    /// The word that a report of this severity begins with: `note`,
    /// `warning`, `error` or `bug`.
    pub fn label(self) -> (label: &'static str)
        ensures
            label@ == self.label_spec(),
    {
        match self {
            Severity::Note => "note",
            Severity::Warning => "warning",
            Severity::Error => "error",
            Severity::Bug => "bug",
        }
    }

    /// Place of the severity in the order from the least to the most grave.
    pub open spec fn rank_spec(self) -> nat {
        match self {
            Severity::Note => 0,
            Severity::Warning => 1,
            Severity::Error => 2,
            Severity::Bug => 3,
        }
    }

    /// Place of the severity in the order from the least to the most grave:
    /// 0 for a note, 3 for a bug.
    pub fn rank(self) -> (rank: u8)
        ensures
            rank == self.rank_spec(),
    {
        match self {
            Severity::Note => 0,
            Severity::Warning => 1,
            Severity::Error => 2,
            Severity::Bug => 3,
        }
    }
}

/// What a [`Report`] is.
pub struct ReportView {
    pub location: Option<LocationView>,
    pub severity: Severity,
    pub message: Seq<char>,
}

/// A diagnostic: what is wrong, how grave it is, and where it is, if it is
/// anywhere.
#[derive(Debug, PartialEq, Eq)]
pub struct Report {
    pub location: Option<Location>,
    pub severity: Severity,
    pub message: String,
}

impl View for Report {
    type V = ReportView;

    open spec fn view(&self) -> ReportView {
        ReportView {
            location: match self.location {
                Some(place) => Some(place@),
                None => None,
            },
            severity: self.severity,
            message: self.message@,
        }
    }
}

impl Clone for Report {
    fn clone(&self) -> (copy: Report)
        ensures
            copy@ == self@,
    {
        let location = match &self.location {
            Some(place) => Some(place.clone()),
            None => None,
        };
        Report { location, severity: self.severity, message: self.message.clone() }
    }
}

impl Report {
    /// A report of the given severity and message, with no location.
    pub fn new(severity: Severity, message: &str) -> (report: Report)
        ensures
            report@ == (ReportView { location: None, severity, message: message@ }),
    {
        Report { location: None, severity, message: String::from_str(message) }
    }

    /// A report of a bug, with no location.
    pub fn bug(message: &str) -> (report: Report)
        ensures
            report@ == (ReportView { location: None, severity: Severity::Bug, message: message@ }),
    {
        Report::new(Severity::Bug, message)
    }

    /// A report of an error, with no location.
    pub fn error(message: &str) -> (report: Report)
        ensures
            report@ == (ReportView {
                location: None,
                severity: Severity::Error,
                message: message@,
            }),
    {
        Report::new(Severity::Error, message)
    }

    /// A report of a warning, with no location.
    pub fn warning(message: &str) -> (report: Report)
        ensures
            report@ == (ReportView {
                location: None,
                severity: Severity::Warning,
                message: message@,
            }),
    {
        Report::new(Severity::Warning, message)
    }

    /// A note, with no location.
    pub fn note(message: &str) -> (report: Report)
        ensures
            report@ == (ReportView { location: None, severity: Severity::Note, message: message@ }),
    {
        Report::new(Severity::Note, message)
    }

    /// The same report at `location`, or at no location for `None`: the
    /// location that the report had is replaced.
    pub fn location(self, location: Option<Location>) -> (report: Report)
        ensures
            report@.location == match location {
                Some(place) => Some(place@),
                None => None,
            },
            report@.severity == self@.severity,
            report@.message == self@.message,
    {
        Report { location, severity: self.severity, message: self.message }
    }
}

} // verus!
