//! Errors produced by the parsers.

use vstd::prelude::*;
use crate::text::{append_chars, append_str, decimal, decimal_exec, string_of};

verus! {

/// An error produced by the Dockerfile parser.
#[derive(Debug, Clone, PartialEq)]
pub enum ParseError {
    /// A known instruction with malformed or missing arguments.
    InvalidInstruction { line: usize, message: String },
}

impl ParseError {
    /// The human-readable text: `line <n>: <message>`.
    pub open spec fn text(&self) -> Seq<char> {
        match self {
            ParseError::InvalidInstruction { line, message } => "line "@ + decimal(*line as nat)
                + ": "@ + message@,
        }
    }

    /// The human-readable text: `line <n>: <message>`.
    pub fn describe(&self) -> (r: String)
        ensures
            r@ == self.text(),
    {
        let mut v: Vec<char> = Vec::new();
        match self {
            ParseError::InvalidInstruction { line, message } => {
                append_str(&mut v, "line ");
                let d = decimal_exec(*line);
                append_chars(&mut v, &d);
                append_str(&mut v, ": ");
                append_str(&mut v, message.as_str());
            },
        }
        assert(v@ =~= self.text());
        string_of(&v)
    }
}

/// An error produced by the Compose parser.
#[derive(Debug, Clone, PartialEq)]
pub enum ComposeParseError {
    /// The YAML could not be parsed at all.
    InvalidYaml { message: String },
    /// The top-level `services:` key is absent.
    MissingServicesKey,
    /// A service definition is structurally invalid.
    InvalidService { name: String, message: String },
}

impl ComposeParseError {
    /// The human-readable text of the error.
    pub open spec fn text(&self) -> Seq<char> {
        match self {
            ComposeParseError::InvalidYaml { message } => "invalid YAML: "@ + message@,
            ComposeParseError::MissingServicesKey => "compose file is missing the 'services' key"@,
            ComposeParseError::InvalidService { name, message } => "invalid service '"@ + name@
                + "': "@ + message@,
        }
    }

    /// The human-readable text of the error.
    pub fn describe(&self) -> (r: String)
        ensures
            r@ == self.text(),
    {
        let mut v: Vec<char> = Vec::new();
        match self {
            ComposeParseError::InvalidYaml { message } => {
                append_str(&mut v, "invalid YAML: ");
                append_str(&mut v, message.as_str());
            },
            ComposeParseError::MissingServicesKey => {
                append_str(&mut v, "compose file is missing the 'services' key");
            },
            ComposeParseError::InvalidService { name, message } => {
                append_str(&mut v, "invalid service '");
                append_str(&mut v, name.as_str());
                append_str(&mut v, "': ");
                append_str(&mut v, message.as_str());
            },
        }
        assert(v@ =~= self.text());
        string_of(&v)
    }
}

} // verus!
