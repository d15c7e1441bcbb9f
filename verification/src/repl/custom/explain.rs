//! `:explain <path>`: the provenance report of a node.

use vstd::prelude::*;
use crate::explain::{explain_path, report, ExplainError};
use crate::model::fs::NodeV;
use crate::model::state::PreviewState;
use crate::path::{canon, resolve};
use crate::repl::error::ReplError;
use crate::repl::path::resolve_path;
use crate::text::{append_str, string_of};

verus! {

/// What `:explain path` answers in a state with filesystem `fs` and working
/// directory `cwd`.
pub open spec fn explain_outcome(fs: Map<Seq<char>, NodeV>, cwd: Seq<char>, path: Seq<char>, r: Result<String, ReplError>) -> bool {
    &&& path.len() == 0 ==> (r matches Err(ReplError::InvalidArguments { command, message }) && command@
        == ":explain"@ && message@ == "requires a path argument"@)
    &&& path.len() > 0 ==> ({
        let p = resolve(cwd, path);
        match r {
            Ok(s) => fs.contains_key(p) && s@ == report(fs[p].prov()).push('\n'),
            Err(ReplError::PathNotFound { path: q }) => q@ == p && !fs.contains_key(p),
            Err(_) => false,
        }
    })
}

/// Prints the provenance report of `path` (resolved against the working
/// directory).
pub fn execute(state: &PreviewState, path: &str) -> (r: Result<String, ReplError>)
    ensures
        explain_outcome(state.fs@, state.cwd@, path@, r),
{
    if path.unicode_len() == 0 {
        return Err(
            ReplError::InvalidArguments { command: ":explain".to_string(), message: "requires a path argument".to_string() },
        );
    }
    let resolved = resolve_path(state.cwd.as_str(), path);
    proof {
        crate::engine::run_sim::lemma_resolve(state.cwd@, path@);
    }
    match explain_path(state, resolved.as_str()) {
        Ok(rep) => {
            let mut v: Vec<char> = Vec::new();
            append_str(&mut v, rep.as_str());
            v.push('\n');
            Ok(string_of(&v))
        },
        Err(ExplainError::PathNotFound { path: p }) => Err(ReplError::PathNotFound { path: p }),
    }
}

} // verus!
