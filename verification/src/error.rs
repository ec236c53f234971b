//! The error type shared by every command.

use vstd::prelude::*;

verus! {

/// What can go wrong while a command parses its arguments or scans the
/// store's lines.  Each variant carries a short description for display.
#[derive(Debug)]
pub enum CommandError {
    /// A required argument (a flag, a line number, the task text) is absent.
    MissingArgument(String),
    /// A number was expected (a line number, a depth) but the token is not
    /// a base-ten integer in range.
    InvalidNumberFormat(String),
    /// A store line lacks the token a command needs (its mark or its depth).
    MalformedLine(String),
}

impl CommandError {
    /// Renders the error for display on the standard error stream.
    pub fn message(&self) -> (r: String)
        ensures
            r@ == match self {
                CommandError::MissingArgument(m) => "Missing argument: "@ + m@,
                CommandError::InvalidNumberFormat(m) => "Invalid number format: "@ + m@,
                CommandError::MalformedLine(m) => "Malformed line: "@ + m@,
            },
    {
        match self {
            CommandError::MissingArgument(m) => {
                let mut s = String::from_str("Missing argument: ");
                s.append(m.as_str());
                s
            },
            CommandError::InvalidNumberFormat(m) => {
                let mut s = String::from_str("Invalid number format: ");
                s.append(m.as_str());
                s
            },
            CommandError::MalformedLine(m) => {
                let mut s = String::from_str("Malformed line: ");
                s.append(m.as_str());
                s
            },
        }
    }
}

} // verus!
