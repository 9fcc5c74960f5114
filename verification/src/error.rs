//! The failures that the library and its callers report.

use vstd::prelude::*;
use vstd::string::*;

verus! {

/// A failure, with the text that describes it where one was given.
#[derive(Debug)]
pub enum LyricFinderError {
    StdIoError(String),
    OsString(String),
    ParseError(String),
    EnvError(String),
    /// A rank outside the table was asked for.
    InvalidRankListPositionError,
    /// A ranking table was asked for that could hold no entry.
    ConfigurationError,
}

impl LyricFinderError {
    /// The text shown for this failure.
    pub open spec fn message_text(&self) -> Seq<char> {
        match self {
            LyricFinderError::StdIoError(text) => text@,
            LyricFinderError::OsString(text) => text@,
            LyricFinderError::ParseError(text) => text@,
            LyricFinderError::EnvError(text) => text@,
            LyricFinderError::InvalidRankListPositionError => "Invalid rank list position"@,
            LyricFinderError::ConfigurationError => "Invalid rank list capacity"@,
        }
    }

    /// The text shown for this failure, as an owned string.
    pub fn message(&self) -> (text: String)
        ensures
            text@ == self.message_text(),
    {
        match self {
            LyricFinderError::StdIoError(text) => text.clone(),
            LyricFinderError::OsString(text) => text.clone(),
            LyricFinderError::ParseError(text) => text.clone(),
            LyricFinderError::EnvError(text) => text.clone(),
            LyricFinderError::InvalidRankListPositionError => "Invalid rank list position".to_owned(),
            LyricFinderError::ConfigurationError => "Invalid rank list capacity".to_owned(),
        }
    }
}

} // verus!
