//! Why the stored timetable could not be read or written.

use vstd::prelude::*;

verus! {

/// A failure to read or write the stored timetable.
#[derive(Clone, Debug, PartialEq, Eq)]
pub enum TimetableError {
    /// The file could not be read or written; the text says why.
    File(String),
    /// The stored text is not a well-formed table; the text says why.
    Parse(String),
    /// The grid cannot be written as a table; the text says why.
    Write(String),
}

impl TimetableError {
    /// The explanation carried by the error.
    pub open spec fn explanation(&self) -> Seq<char> {
        match self {
            TimetableError::File(text) => text@,
            TimetableError::Parse(text) => text@,
            TimetableError::Write(text) => text@,
        }
    }

    /// The explanation, as shown to the user behind `Error: `.
    pub fn message(&self) -> (text: String)
        ensures
            text@ == self.explanation(),
    {
        match self {
            TimetableError::File(text) => text.clone(),
            TimetableError::Parse(text) => text.clone(),
            TimetableError::Write(text) => text.clone(),
        }
    }
}

} // verus!
