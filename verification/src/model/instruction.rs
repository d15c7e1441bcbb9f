//! Typed Dockerfile instructions, produced by the parser and consumed by the
//! engine.

use vstd::prelude::*;

verus! {

/// Where a COPY instruction reads its source files from.
#[derive(Debug, Clone, PartialEq)]
pub enum CopySource {
    /// A path in the host build context.
    Host(String),
    /// A path inside a previous build stage (`COPY --from=<name>`).
    Stage {
        /// The stage alias or numeric index string.
        name: String,
        /// The path inside the source stage's filesystem.
        src_path: String,
    },
}

/// One Dockerfile instruction.
#[derive(Debug, Clone, PartialEq)]
pub enum Instruction {
    /// `FROM <image> [AS <alias>]`
    From { image: String, alias: Option<String> },
    /// `WORKDIR <path>`
    Workdir { path: String },
    /// `COPY <source> <dest>`
    Copy { source: CopySource, dest: String },
    /// `ENV <key>=<value>` or `ENV <key> <value>`
    Env { key: String, value: String },
    /// `RUN <command>`
    Run { command: String },
    /// Any instruction that is not modeled, kept verbatim.
    Unknown { raw: String },
}

} // verus!
