//! What can go wrong when the logger is configured.

use vstd::prelude::*;
use vstd::string::StringExecFns;
use crate::text::{decimal, decimal_string};

verus! {

/// Why a sink could not be configured.
#[derive(Debug, PartialEq, Eq)]
pub enum LoggerError {
    /// A number that stands for no level.
    UnrecognizedLevel(u64),
    /// The background log file could not be opened. The text is the
    /// system's own account of why.
    Io(String),
}

impl LoggerError {
    /// The message that a caller is shown.
    pub open spec fn text(self) -> Seq<char> {
        match self {
            LoggerError::UnrecognizedLevel(value) => "Unrecognized log level: "@ + decimal(
                value as nat,
            ),
            LoggerError::Io(cause) => "Error opening pantsd logfile: "@ + cause@,
        }
    }

    /// The message that a caller is shown.
    pub fn message(&self) -> (s: String)
        ensures
            s@ == self.text(),
    {
        match self {
            LoggerError::UnrecognizedLevel(value) => {
                let mut s = String::from_str("Unrecognized log level: ");
                let digits = decimal_string(*value as u128);
                s.append(digits.as_str());
                s
            },
            LoggerError::Io(cause) => {
                let mut s = String::from_str("Error opening pantsd logfile: ");
                s.append(cause.as_str());
                s
            },
        }
    }
}

} // verus!
