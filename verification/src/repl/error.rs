//! Errors of the shell's command handlers.

use vstd::prelude::*;
use crate::text::{append_str, string_of};

verus! {

/// An error a shell command reports; the shell prints it and goes on.
#[derive(Debug, Clone, PartialEq)]
pub enum ReplError {
    /// The path does not exist in the virtual filesystem.
    PathNotFound { path: String },
    /// The path is a file, not a directory (e.g. `cd` into a file).
    NotADirectory { path: String },
    /// The path is a directory, not a file (e.g. `cat` on a directory).
    NotAFile { path: String },
    /// The command was given invalid or missing arguments.
    InvalidArguments { command: String, message: String },
    /// The input matched no known command.
    UnknownCommand { input: String },
}

impl ReplError {
    /// The human-readable text of the error.
    pub open spec fn text(&self) -> Seq<char> {
        match self {
            ReplError::PathNotFound { path } => "no such file or directory: "@ + path@,
            ReplError::NotADirectory { path } => "not a directory: "@ + path@,
            ReplError::NotAFile { path } => "is a directory: "@ + path@,
            ReplError::InvalidArguments { command, message } => command@ + ": "@ + message@,
            ReplError::UnknownCommand { input } => "unknown command: '"@ + input@
                + "'. Type 'help' for available commands."@,
        }
    }

    /// The human-readable text of the error.
    pub fn describe(&self) -> (r: String)
        ensures
            r@ == self.text(),
    {
        let mut v: Vec<char> = Vec::new();
        match self {
            ReplError::PathNotFound { path } => {
                append_str(&mut v, "no such file or directory: ");
                append_str(&mut v, path.as_str());
            },
            ReplError::NotADirectory { path } => {
                append_str(&mut v, "not a directory: ");
                append_str(&mut v, path.as_str());
            },
            ReplError::NotAFile { path } => {
                append_str(&mut v, "is a directory: ");
                append_str(&mut v, path.as_str());
            },
            ReplError::InvalidArguments { command, message } => {
                append_str(&mut v, command.as_str());
                append_str(&mut v, ": ");
                append_str(&mut v, message.as_str());
            },
            ReplError::UnknownCommand { input } => {
                append_str(&mut v, "unknown command: '");
                append_str(&mut v, input.as_str());
                append_str(&mut v, "'. Type 'help' for available commands.");
            },
        }
        assert(v@ =~= self.text());
        string_of(&v)
    }
}

/// Maps a failed write of `command`'s output to an `InvalidArguments`
/// error naming the command and carrying the I/O error's message.
pub fn io_err_mapper(command: &str, message: String) -> (e: ReplError)
    ensures
        e matches ReplError::InvalidArguments { command: c, message: m } && c@ == command@ && m@ == message@,
{
    ReplError::InvalidArguments { command: command.to_string(), message }
}

} // verus!
