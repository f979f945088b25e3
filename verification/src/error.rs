//! Error type for the prompts.

use vstd::prelude::*;
use vstd::string::StringExecFns;

verus! {

/// Error type for CLI prompts.
#[derive(Debug)]
pub enum CliError {
    /// I/O error, carrying the underlying error's message.
    Io(String),
    /// Error parsing a string to a target type; carries the rejected text.
    Parse(String),
    /// Validation error; carries the validator's message.
    Validate(String),
}

impl CliError {
    /// The error rendered as one line of text.
    pub fn message(&self) -> (r: String)
        ensures
            match self {
                CliError::Io(m) => r@ == "i/o error: "@ + m@,
                CliError::Parse(m) => r@ == "parse error: "@ + m@,
                CliError::Validate(m) => r@ == "validation error: "@ + m@,
            },
    {
        match self {
            CliError::Io(m) => {
                let mut r = "i/o error: ".to_owned();
                r.append(m.as_str());
                r
            },
            CliError::Parse(m) => {
                let mut r = "parse error: ".to_owned();
                r.append(m.as_str());
                r
            },
            CliError::Validate(m) => {
                let mut r = "validation error: ".to_owned();
                r.append(m.as_str());
                r
            },
        }
    }
}

} // verus!
