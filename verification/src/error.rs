//! The ways in which a readout can fail.

use crate::number::{push_decimal, signed_decimal, NumError};
use crate::text::{push_text, string_of};
use vstd::prelude::*;

verus! {

/// Why a readout gave no fragment.
#[derive(Debug, PartialEq, Eq)]
pub enum StatusError {
    /// A file could not be read; holds the message of the failure.
    Io(String),
    /// A file did not hold the number it should.
    ParseNum(NumError),
    /// A time zone is not known; holds the message of the lookup.
    ParseTz(String),
    /// A battery is not present; holds its path.
    NotPresent(String),
    /// A system call failed; holds what it returned.
    System(i32),
    /// A time could not be written with a format; holds the format.
    Format(String),
}

/// A `StatusError` over mathematical values.
pub enum ErrorModel {
    Io(Seq<char>),
    ParseNum(NumError),
    ParseTz(Seq<char>),
    NotPresent(Seq<char>),
    System(int),
    Format(Seq<char>),
}

impl View for StatusError {
    type V = ErrorModel;

    open spec fn view(&self) -> ErrorModel {
        match self {
            StatusError::Io(m) => ErrorModel::Io(m@),
            StatusError::ParseNum(e) => ErrorModel::ParseNum(*e),
            StatusError::ParseTz(m) => ErrorModel::ParseTz(m@),
            StatusError::NotPresent(p) => ErrorModel::NotPresent(p@),
            StatusError::System(rc) => ErrorModel::System(*rc as int),
            StatusError::Format(f) => ErrorModel::Format(f@),
        }
    }
}

/// The view of what a readout returned.
pub open spec fn outcome(r: Result<String, StatusError>) -> Result<Seq<char>, ErrorModel> {
    match r {
        Ok(s) => Ok(s@),
        Err(e) => Err(e@),
    }
}

impl ErrorModel {
    /// The error as a sentence for a log or a terminal.
    pub open spec fn message(self) -> Seq<char> {
        match self {
            ErrorModel::Io(m) => m,
            ErrorModel::ParseNum(e) => e.message(),
            ErrorModel::ParseTz(m) => m,
            ErrorModel::NotPresent(p) => p + " not present"@,
            ErrorModel::System(rc) => "System call returned "@ + signed_decimal(rc),
            ErrorModel::Format(f) => "cannot write the time as "@ + f,
        }
    }

    /// The kind of error in a few words.
    pub open spec fn description(self) -> Seq<char> {
        match self {
            ErrorModel::Io(m) => m,
            ErrorModel::ParseNum(e) => e.message(),
            ErrorModel::ParseTz(_) => "Invalid timezone"@,
            ErrorModel::NotPresent(_) => "Device not present"@,
            ErrorModel::System(_) => "System call returned error"@,
            ErrorModel::Format(_) => "Invalid time format"@,
        }
    }
}

impl StatusError {
    /// The error as a sentence for a log or a terminal.
    pub fn to_text(&self) -> (s: String)
        ensures
            s@ == self@.message(),
    {
        match self {
            StatusError::Io(m) => m.clone(),
            StatusError::ParseNum(e) => e.describe().to_owned(),
            StatusError::ParseTz(m) => m.clone(),
            StatusError::NotPresent(p) => {
                let mut out: Vec<char> = Vec::new();
                push_text(&mut out, p.as_str());
                push_text(&mut out, " not present");
                string_of(&out)
            },
            StatusError::System(rc) => {
                let mut out: Vec<char> = Vec::new();
                push_text(&mut out, "System call returned ");
                if *rc < 0 {
                    out.push('-');
                    push_decimal(&mut out, (-(*rc as i64)) as u128);
                } else {
                    push_decimal(&mut out, *rc as u128);
                }
                string_of(&out)
            },
            StatusError::Format(f) => {
                let mut out: Vec<char> = Vec::new();
                push_text(&mut out, "cannot write the time as ");
                push_text(&mut out, f.as_str());
                string_of(&out)
            },
        }
    }

    /// The kind of error in a few words.
    pub fn description(&self) -> (s: &str)
        ensures
            s@ == self@.description(),
    {
        match self {
            StatusError::Io(m) => m.as_str(),
            StatusError::ParseNum(e) => e.describe(),
            StatusError::ParseTz(_) => "Invalid timezone",
            StatusError::NotPresent(_) => "Device not present",
            StatusError::System(_) => "System call returned error",
            StatusError::Format(_) => "Invalid time format",
        }
    }
}

} // verus!
