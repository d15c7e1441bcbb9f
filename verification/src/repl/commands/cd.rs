//! `cd <path>`: change the working directory.

use vstd::prelude::*;
use crate::model::fs::{FsNode, NodeV};
use crate::model::state::PreviewState;
use crate::path::{is_direct_child, resolve};
use crate::repl::error::ReplError;
use crate::repl::path::resolve_path;

verus! {

/// The directory `cd path` moves to, or why it cannot: `/` always works;
/// an existing directory works; a file or symlink is not a directory; a
/// path that does not exist works only when something lies directly below
/// it (an implicit directory).
pub open spec fn cd_target(fs: Map<Seq<char>, NodeV>, p: Seq<char>) -> Result<Seq<char>, ()> {
    if p == seq!['/'] {
        Ok(p)
    } else if fs.contains_key(p) {
        if fs[p] is Dir {
            Ok(p)
        } else {
            Err(())
        }
    } else if exists|k: Seq<char>| fs.contains_key(k) && is_direct_child(p, k) {
        Ok(p)
    } else {
        Err(())
    }
}

/// What `cd path` does: `after` is the state left behind, which differs
/// from `before` at most in its working directory.
pub open spec fn cd_outcome(before: PreviewState, after: PreviewState, path: Seq<char>, r: Result<(), ReplError>) -> bool {
    &&& ({
        let p = resolve(before.cwd@, path);
        match r {
            Ok(()) => cd_target(before.fs@, p) == Ok::<Seq<char>, ()>(p) && after.cwd@ == p,
            Err(ReplError::NotADirectory { path: q }) => q@ == p && after.cwd == before.cwd
                && before.fs@.contains_key(p) && !(before.fs@[p] is Dir) && p != seq!['/'],
            Err(ReplError::PathNotFound { path: q }) => q@ == p && after.cwd == before.cwd
                && cd_target(before.fs@, p) is Err && !before.fs@.contains_key(p),
            Err(_) => false,
        }
    })
    &&& after.fs == before.fs
    &&& after.env == before.env
    &&& after.installed == before.installed
    &&& after.history == before.history
    &&& after.layers == before.layers
    &&& after.warnings == before.warnings
    &&& after.active_stage == before.active_stage
    &&& after.mounts == before.mounts
}

/// Changes the working directory to `path` (resolved against it). On an
/// error the working directory is unchanged.
pub fn execute(state: &mut PreviewState, path: &str) -> (r: Result<(), ReplError>)
    ensures
        cd_outcome(*old(state), *final(state), path@, r),
{
    let resolved = resolve_path(state.cwd.as_str(), path);
    proof {
        crate::engine::run_sim::lemma_resolve(state.cwd@, path@);
    }
    let rc = crate::text::chars_of(resolved.as_str());
    if rc.len() == 1 && rc[0] == '/' {
        assert(resolved@ =~= seq!['/']);
        state.cwd = resolved;
        return Ok(());
    }
    assert(resolved@ != seq!['/']) by {
        if resolved@ == seq!['/'] {
            assert(rc@.len() == 1 && rc@[0] == '/');
        }
    }
    match state.fs.get(resolved.as_str()) {
        Some(FsNode::Directory(_)) => {
            state.cwd = resolved;
            Ok(())
        },
        Some(_) => Err(ReplError::NotADirectory { path: resolved }),
        None => {
            let children = state.fs.list_dir(resolved.as_str());
            if children.len() > 0 {
                assert(is_direct_child(resolved@, children@[0].0@));
                state.cwd = resolved;
                Ok(())
            } else {
                Err(ReplError::PathNotFound { path: resolved })
            }
        },
    }
}

} // verus!
