//! `cat <path>`: a file's contents.

use vstd::prelude::*;
use crate::model::fs::{FsNode, NodeV};
use crate::model::state::PreviewState;
use crate::path::{canon, dotdot, resolve, segs};
use crate::repl::error::ReplError;
use crate::repl::path::resolve_path;
use crate::text::{append_str, chars_of, decode_lossy, string_of, utf8_lossy};

verus! {

/// The note printed after a symlink's target.
pub open spec fn symlink_note(target: Seq<char>) -> Seq<char> {
    if segs(target).contains(dotdot()) {
        " (warning: target contains '..', may escape virtual root)"@
    } else {
        " (symlink, follow manually)"@
    }
}

/// What `cat` prints for a node: a file's bytes decoded as UTF-8 (lossily),
/// or where a symlink points.
pub open spec fn cat_output(n: NodeV) -> Seq<char> {
    match n {
        NodeV::File { content, .. } => utf8_lossy(content),
        NodeV::Link { target, .. } => "-> "@ + target + symlink_note(target) + "\n"@,
        NodeV::Dir { .. } => seq![],
    }
}

/// What `cat path` answers in a state with filesystem `fs` and working
/// directory `cwd`.
pub open spec fn cat_outcome(fs: Map<Seq<char>, NodeV>, cwd: Seq<char>, path: Seq<char>, r: Result<String, ReplError>) -> bool {
    &&& path.len() == 0 ==> (r matches Err(ReplError::InvalidArguments { command, message }) && command@
        == "cat"@ && message@ == "missing file path"@)
    &&& path.len() > 0 ==> ({
        let p = resolve(cwd, path);
        match r {
            Ok(s) => fs.contains_key(p) && !(fs[p] is Dir) && s@ == cat_output(fs[p]),
            Err(ReplError::NotAFile { path: q }) => q@ == p && fs.contains_key(p) && fs[p] is Dir,
            Err(ReplError::PathNotFound { path: q }) => q@ == p && !fs.contains_key(p),
            Err(_) => false,
        }
    })
}

/// Prints the file at `path` (resolved against the working directory).
/// A directory is an error, as are a missing path and a missing argument.
pub fn execute(state: &PreviewState, path: &str) -> (r: Result<String, ReplError>)
    ensures
        cat_outcome(state.fs@, state.cwd@, path@, r),
{
    if path.unicode_len() == 0 {
        return Err(ReplError::InvalidArguments { command: "cat".to_string(), message: "missing file path".to_string() });
    }
    let resolved = resolve_path(state.cwd.as_str(), path);
    proof {
        crate::engine::run_sim::lemma_resolve(state.cwd@, path@);
    }
    match state.fs.get(resolved.as_str()) {
        Some(FsNode::File(f)) => Ok(decode_lossy(&f.content)),
        Some(FsNode::Directory(_)) => Err(ReplError::NotAFile { path: resolved }),
        Some(FsNode::Symlink(s)) => {
            let t = chars_of(s.target.as_str());
            let ss = crate::path::segs_exec(&t);
            let mut has_up = false;
            let mut i: usize = 0;
            while i < ss.len()
                invariant
                    i <= ss@.len(),
                    has_up == crate::text::vviews(ss@).take(i as int).contains(dotdot()),
                decreases ss.len() - i,
            {
                let s_i = &ss[i];
                let up = s_i.len() == 2 && s_i[0] == '.' && s_i[1] == '.';
                proof {
                    let vs = crate::text::vviews(ss@);
                    assert(vs[i as int] == s_i@);
                    if up {
                        assert(s_i@ =~= dotdot());
                    } else {
                        assert(s_i@ != dotdot()) by {
                            if s_i@ == dotdot() {
                                assert(s_i@.len() == 2 && s_i@[0] == '.' && s_i@[1] == '.');
                            }
                        }
                    }
                    assert(vs.take(i + 1) =~= vs.take(i as int).push(vs[i as int]));
                    let t1 = vs.take(i + 1);
                    if t1.contains(dotdot()) && !up {
                        let j = choose|j: int| 0 <= j < t1.len() && #[trigger] t1[j] == dotdot();
                        assert(j < i);
                        assert(vs.take(i as int)[j] == dotdot());
                    }
                    if up {
                        assert(vs.take(i + 1)[i as int] == dotdot());
                    }
                }
                has_up = has_up || up;
                i = i + 1;
            }
            assert(crate::text::vviews(ss@).take(ss@.len() as int) =~= crate::text::vviews(ss@));
            let mut v: Vec<char> = Vec::new();
            append_str(&mut v, "-> ");
            append_str(&mut v, s.target.as_str());
            if has_up {
                append_str(&mut v, " (warning: target contains '..', may escape virtual root)");
            } else {
                append_str(&mut v, " (symlink, follow manually)");
            }
            append_str(&mut v, "\n");
            Ok(string_of(&v))
        },
        None => Err(ReplError::PathNotFound { path: resolved }),
    }
}

} // verus!
