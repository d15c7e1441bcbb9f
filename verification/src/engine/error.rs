//! Errors the engine cannot turn into warnings.

use vstd::prelude::*;

verus! {

/// An error the engine cannot recover from by emitting a warning.
#[derive(Debug, Clone, PartialEq)]
pub enum EngineError {
    /// Reading a host file failed for a reason other than "not found".
    Io { path: String, message: String },
}

impl EngineError {
    /// The human-readable text of the error.
    pub open spec fn text(&self) -> Seq<char> {
        match self {
            EngineError::Io { path, message } => "I/O error reading '"@ + path@ + "': "@ + message@,
        }
    }

    /// The human-readable text of the error.
    pub fn describe(&self) -> (r: String)
        ensures
            r@ == self.text(),
    {
        match self {
            EngineError::Io { path, message } => {
                let mut v: Vec<char> = Vec::new();
                crate::text::append_str(&mut v, "I/O error reading '");
                crate::text::append_str(&mut v, path.as_str());
                crate::text::append_str(&mut v, "': ");
                crate::text::append_str(&mut v, message.as_str());
                assert(v@ =~= self.text());
                crate::text::string_of(&v)
            },
        }
    }
}

} // verus!
