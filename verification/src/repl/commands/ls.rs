//! `ls [-l] [path]`: the direct children of a directory.

use vstd::prelude::*;
use crate::engine::copy::file_name;
use crate::model::fs::{entries_view, FsNode, NodeV};
use crate::model::sorted::{in_order, lemma_in_order, strictly_sorted};
use crate::model::state::{PreviewState, StringSet};
use crate::path::{canon, canon_exec, is_direct_child, resolve};
use crate::repl::error::ReplError;
use crate::repl::path::resolve_path;
use crate::text::{append_chars, append_str, chars_of, concat_map, string_of, sviews};

verus! {

/// The name shown for the entry at `k`: its last segment, or `?`.
pub open spec fn ls_name(k: Seq<char>) -> Seq<char> {
    match file_name(k) {
        Some(n) => n,
        None => "?"@,
    }
}

/// One output line for an entry called `name`.  Directories get a trailing
/// `/`, symlinks show their target; the long form adds a type and mode column.
pub open spec fn ls_line(name: Seq<char>, node: NodeV, long: bool) -> Seq<char> {
    match node {
        NodeV::Dir { .. } => (if long { "drwxr-xr-x "@ } else { ""@ }) + name + "/\n"@,
        NodeV::File { .. } => (if long { "-rw-r--r-- "@ } else { ""@ }) + name + "\n"@,
        NodeV::Link { target, .. } => (if long { "lrwxrwxrwx "@ } else { ""@ }) + name + " -> "@
            + target + "\n"@,
    }
}

/// The line for the entry stored at `k`.
pub open spec fn ls_entry(fs: Map<Seq<char>, NodeV>, long: bool) -> spec_fn(Seq<char>) -> Seq<char> {
    |k: Seq<char>| ls_line(ls_name(k), fs[k], long)
}

/// The stored paths directly below `dir`.
pub open spec fn ls_children(fs: Map<Seq<char>, NodeV>, dir: Seq<char>) -> Set<Seq<char>> {
    Set::new(|k: Seq<char>| fs.contains_key(k) && is_direct_child(dir, k))
}

/// `dir` can be listed: it names the root, it is stored (under its
/// canonical spelling), or something is stored directly below it.
pub open spec fn ls_target_exists(fs: Map<Seq<char>, NodeV>, dir: Seq<char>) -> bool {
    canon(dir) == seq!['/'] || fs.contains_key(canon(dir)) || exists|k: Seq<char>|
        fs.contains_key(k) && is_direct_child(dir, k)
}

/// The directory `ls` lists: `path` resolved against the working directory,
/// or the working directory itself.
pub open spec fn ls_target(cwd: Seq<char>, path: Option<Seq<char>>) -> Seq<char> {
    match path {
        Some(p) => resolve(cwd, p),
        None => cwd,
    }
}

fn push_line(v: &mut Vec<char>, name: &Vec<char>, node: &FsNode, long: bool)
    ensures
        final(v)@ == old(v)@ + ls_line(name@, node@, long),
{
    match node {
        FsNode::Directory(_) => {
            if long {
                append_str(v, "drwxr-xr-x ");
            }
            append_chars(v, name);
            append_str(v, "/\n");
        },
        FsNode::File(_) => {
            if long {
                append_str(v, "-rw-r--r-- ");
            }
            append_chars(v, name);
            append_str(v, "\n");
        },
        FsNode::Symlink(s) => {
            if long {
                append_str(v, "lrwxrwxrwx ");
            }
            append_chars(v, name);
            append_str(v, " -> ");
            append_str(v, s.target.as_str());
            append_str(v, "\n");
        },
    }
    proof {
        reveal_strlit("drwxr-xr-x ");
        reveal_strlit("-rw-r--r-- ");
        reveal_strlit("lrwxrwxrwx ");
        reveal_strlit("");
    }
    assert(final(v)@ =~= old(v)@ + ls_line(name@, node@, long));
}

/// What `ls [-l] [path]` answers in a state with filesystem `fs` and working
/// directory `cwd`.
pub open spec fn ls_outcome(
    fs: Map<Seq<char>, NodeV>,
    cwd: Seq<char>,
    path: Option<Seq<char>>,
    long: bool,
    r: Result<String, ReplError>,
) -> bool {
    let dir = ls_target(cwd, path);
    match r {
        Ok(s) => ls_target_exists(fs, dir) && s@ == concat_map(in_order(ls_children(fs, dir)), ls_entry(fs, long)),
        Err(ReplError::PathNotFound { path: q }) => q@ == dir && !ls_target_exists(fs, dir),
        Err(_) => false,
    }
}

/// Lists the direct children of `path` (resolved against the working
/// directory; the working directory when absent), one line each, in
/// increasing order of their paths. The paths share the listed directory
/// as parent, so for stored paths this is the order of their names
/// (`law_listing_order_is_name_order`).
pub fn execute(state: &PreviewState, path: Option<&str>, long: bool) -> (r: Result<String, ReplError>)
    ensures
        ls_outcome(
            state.fs@,
            state.cwd@,
            match path {
                Some(p) => Some(p@),
                None => None,
            },
            long,
            r,
        ),
{
    let dir_s = match path {
        Some(p) => resolve_path(state.cwd.as_str(), p),
        None => state.cwd.clone(),
    };
    let dir = chars_of(dir_s.as_str());
    let es = state.fs.entries();
    let ghost ev = state.fs.ev();
    proof {
        crate::model::fs::lemma_es_map(ev);
        crate::model::fs::lemma_es_map_keys(ev);
    }
    let cd = canon_exec(&dir);
    let mut exists = (cd.len() == 1 && cd[0] == '/') || state.fs.contains_key(&cd);
    assert(cd.len() == 1 && cd[0] == '/' ==> cd@ == seq!['/']) by {
        if cd.len() == 1 && cd[0] == '/' {
            assert(cd@ =~= seq!['/']);
        }
    }
    let mut found = StringSet::new();
    let mut i: usize = 0;
    while i < es.len()
        invariant
            i <= es@.len(),
            entries_view(es@) == ev,
            ev == state.fs.ev(),
            forall|j: int| 0 <= j < ev.len() ==> state.fs@.contains_key(#[trigger] ev[j].0),
            forall|k: Seq<char>| #[trigger] state.fs@.contains_key(k) ==> exists|j: int| 0 <= j < ev.len() && ev[j].0 == k,
            exists ==> ls_target_exists(state.fs@, dir@),
            !exists ==> canon(dir@) != seq!['/'] && !state.fs@.contains_key(canon(dir@)) && forall|q: int| 0 <= q < i ==> !is_direct_child(dir@, ev[q].0),
            forall|x: Seq<char>| found@.contains(x) <==> exists|q: int| 0 <= q < i && ev[q].0 == x && is_direct_child(dir@, x),
        decreases es.len() - i,
    {
        let key = &es[i].0;
        assert(ev[i as int].0 == key@);
        let child = crate::path::is_direct_child_exec(&dir, key);
        if child {
            exists = true;
        }
        let ghost f0 = found@;
        if child {
            found.insert(string_of(key));
        }
        proof {
            assert forall|x: Seq<char>| found@.contains(x) <==> exists|q: int| 0 <= q < i + 1 && ev[q].0 == x && is_direct_child(dir@, x) by {
                if x == key@ {
                    assert(ev[i as int].0 == x);
                } else if exists|q: int| 0 <= q < i + 1 && ev[q].0 == x && is_direct_child(dir@, x) {
                    let q = choose|q: int| 0 <= q < i + 1 && ev[q].0 == x && is_direct_child(dir@, x);
                    assert(q != i);
                }
            }
        }
        i = i + 1;
    }
    if !exists {
        proof {
            assert forall|k: Seq<char>| !(state.fs@.contains_key(k) && is_direct_child(dir@, k)) by {
                if state.fs@.contains_key(k) && is_direct_child(dir@, k) {
                    let q = choose|q: int| 0 <= q < ev.len() && ev[q].0 == k;
                }
            }
        }
        return Err(ReplError::PathNotFound { path: dir_s });
    }
    let list = found.to_vec();
    let ghost q = sviews(list@);
    let ghost kids = ls_children(state.fs@, dir@);
    proof {
        assert(strictly_sorted(q)) by {
            assert forall|a: int, b: int| 0 <= a < b < q.len() implies crate::model::sorted::lex_lt(q[a], q[b]) by {
                assert(q[a] == list@[a]@ && q[b] == list@[b]@);
            }
        }
        assert forall|k: Seq<char>| kids.contains(k) <==> q.contains(k) by {
            if kids.contains(k) {
                let j = choose|j: int| 0 <= j < ev.len() && ev[j].0 == k;
                assert(found@.contains(k));
            }
            if q.contains(k) {
                assert(found@.contains(k));
                let j = choose|j: int| 0 <= j < es@.len() && ev[j].0 == k && is_direct_child(dir@, k);
            }
        }
        lemma_in_order(kids, q);
    }
    let mut v: Vec<char> = Vec::new();
    let mut j: usize = 0;
    while j < list.len()
        invariant
            j <= list@.len(),
            q == sviews(list@),
            forall|k: Seq<char>| kids.contains(k) <==> q.contains(k),
            kids == ls_children(state.fs@, dir@),
            v@ == concat_map(q.take(j as int), ls_entry(state.fs@, long)),
        decreases list.len() - j,
    {
        let key = chars_of(list[j].as_str());
        assert(q[j as int] == key@);
        assert(q.contains(key@));
        assert(kids.contains(key@));
        let name = match crate::engine::copy::file_name_of(&key) {
            Some(n) => n,
            None => {
                proof {
                    reveal_strlit("?");
                }
                chars_of("?")
            },
        };
        assert(name@ == ls_name(key@));
        match state.fs.get_key(&key) {
            Some(node) => {
                push_line(&mut v, &name, node, long);
            },
            None => {
                assert(false);
            },
        }
        assert(q.take(j + 1).drop_last() =~= q.take(j as int));
        assert(q.take(j + 1).last() == key@);
        assert(v@ =~= concat_map(q.take(j + 1), ls_entry(state.fs@, long)));
        j = j + 1;
    }
    assert(q.take(list@.len() as int) =~= q);
    Ok(string_of(&v))
}

} // verus!
