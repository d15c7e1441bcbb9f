//! Session configuration of the shell: what `:reload` re-reads, and the
//! Compose context for the Compose-only commands.

use vstd::prelude::*;
use crate::model::compose::ComposeFile;
use crate::path::{abs_path, abs_path_exec, is_abs, join_slash_exec, segs, segs_exec};
use crate::text::{chars_of, join, lemma_vviews_drop_last, string_of, vviews};

verus! {

/// The Compose file and selected service of a Compose session.
pub struct ComposeContext {
    /// The parsed Compose file.
    pub compose_file: ComposeFile,
    /// The service selected with `--service`.
    pub selected_service: String,
}

/// Fixed session metadata of the shell.
pub struct ReplConfig {
    /// The Dockerfile (or Compose file) being previewed.
    pub dockerfile_path: String,
    /// The build context directory.
    pub context_dir: String,
    /// The stage selected with `--stage` (`None`: the final stage).
    pub selected_stage: Option<String>,
    /// Present in Compose mode.
    pub compose_context: Option<ComposeContext>,
}

/// `p` is relative and starts with a `.` segment (`./...`), which
/// `Path::parent` keeps.
pub open spec fn dot_led(p: Seq<char>) -> bool {
    p.len() >= 2 && p[0] == '.' && p[1] == '/'
}

/// The directory holding `p`: its segments but the last, as `Path::parent`
/// gives them (a leading `.` segment kept); `/` when no segment stands
/// before the file name (a bare file name, `/Dockerfile`, or a path with
/// no segment at all).
pub open spec fn parent_dir(p: Seq<char>) -> Seq<char> {
    if segs(p).len() == 0 {
        seq!['/']
    } else if is_abs(p) {
        abs_path(segs(p).drop_last())
    } else if dot_led(p) {
        join(seq![seq!['.']] + segs(p).drop_last(), seq!['/'])
    } else if segs(p).len() == 1 {
        seq!['/']
    } else {
        join(segs(p).drop_last(), seq!['/'])
    }
}

impl ReplConfig {
    /// A configuration whose build context is the Dockerfile's directory
    /// (see `parent_dir`).
    pub fn new(dockerfile_path: String) -> (c: Self)
        ensures
            c.dockerfile_path == dockerfile_path,
            c.context_dir@ == parent_dir(dockerfile_path@),
            c.selected_stage is None,
            c.compose_context is None,
    {
        let p = chars_of(dockerfile_path.as_str());
        let mut ss = segs_exec(&p);
        let ctx = if ss.len() == 0 {
            let r = vec!['/'];
            assert(r@ =~= seq!['/']);
            r
        } else if p.len() > 0 && p[0] == '/' {
            proof {
                lemma_vviews_drop_last(ss@);
            }
            ss.pop();
            abs_path_exec(&ss)
        } else if p.len() >= 2 && p[0] == '.' && p[1] == '/' {
            proof {
                lemma_vviews_drop_last(ss@);
            }
            ss.pop();
            let mut v: Vec<Vec<char>> = Vec::new();
            v.push(vec!['.']);
            let ghost v0 = v@;
            let ghost s0 = ss@;
            v.append(&mut ss);
            proof {
                assert(v@ == v0 + s0);
                assert(v0[0]@ =~= seq!['.']);
                assert(vviews(v@) =~= seq![seq!['.']] + vviews(s0));
            }
            join_slash_exec(&v)
        } else if ss.len() == 1 {
            let r = vec!['/'];
            assert(r@ =~= seq!['/']);
            r
        } else {
            proof {
                lemma_vviews_drop_last(ss@);
            }
            ss.pop();
            join_slash_exec(&ss)
        };
        ReplConfig { dockerfile_path, context_dir: string_of(&ctx), selected_stage: None, compose_context: None }
    }

    /// A configuration with an explicit build context directory.
    pub fn with_context(dockerfile_path: String, context_dir: String) -> (c: Self)
        ensures
            c.dockerfile_path == dockerfile_path,
            c.context_dir == context_dir,
            c.selected_stage is None,
            c.compose_context is None,
    {
        ReplConfig { dockerfile_path, context_dir, selected_stage: None, compose_context: None }
    }

    /// The same configuration with the given stage selection.
    pub fn with_selected_stage(self, stage: Option<String>) -> (c: Self)
        ensures
            c.selected_stage == stage,
            c.dockerfile_path == self.dockerfile_path,
            c.context_dir == self.context_dir,
            c.compose_context == self.compose_context,
    {
        ReplConfig { selected_stage: stage, ..self }
    }

    /// The same configuration with the given Compose context.
    pub fn with_compose_context(self, ctx: Option<ComposeContext>) -> (c: Self)
        ensures
            c.compose_context == ctx,
            c.dockerfile_path == self.dockerfile_path,
            c.context_dir == self.context_dir,
            c.selected_stage == self.selected_stage,
    {
        ReplConfig { compose_context: ctx, ..self }
    }
}

} // verus!
