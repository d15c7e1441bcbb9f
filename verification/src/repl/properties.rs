//! Properties of the shell that relate several commands.

use vstd::prelude::*;
use crate::model::fs::NodeV;
use crate::model::state::{index_key, reg_insert, StateV};
use crate::path::resolve;
use crate::repl::commands::cd::cd_outcome;
use crate::repl::commands::find::{find_line, find_matches, find_outcome, glob};
use crate::model::sorted::{in_order, lemma_in_order_finite};
use crate::text::{concat_map, lemma_concat_map_holds};
use crate::repl::commands::ls::ls_children;
use crate::model::state::PreviewState;
use crate::model::sorted::lex_lt;
use crate::path::{
    abs_path, canon, dotdot, is_abs, is_direct_child, is_under, joined_segs, lemma_norm_fixed, lemma_norm_wf,
    lemma_segs_abs_path, lemma_segs_append_wf, lemma_segs_wf, norm, segs,
};
use crate::repl::commands::ls::ls_name;
use crate::text::join;

verus! {

/// Every entry `ls` lists for a directory is also reported by `find` on
/// that directory (without a name pattern).
pub proof fn law_listed_entries_are_found(fs: Map<Seq<char>, NodeV>, dir: Seq<char>, k: Seq<char>)
    requires
        ls_children(fs, dir).contains(k),
    ensures
        find_matches(fs, dir, None).contains(k),
{
    let ps = crate::path::segs(dir);
    let cs = crate::path::segs(k);
    assert(ps.is_prefix_of(cs));
}

/// A glob pattern without `*` or `?` matches exactly the name spelled
/// like it.
pub proof fn law_glob_literal(pattern: Seq<char>, name: Seq<char>)
    requires
        forall|i: int| 0 <= i < pattern.len() ==> pattern[i] != '*' && pattern[i] != '?',
    ensures
        glob(pattern, name) <==> pattern == name,
    decreases pattern.len(),
{
    if pattern.len() == 0 {
        if name.len() > 0 {
            assert(pattern != name);
        } else {
            assert(pattern =~= name);
        }
    } else {
        let p = pattern.drop_last();
        assert(pattern[pattern.len() - 1] != '*' && pattern[pattern.len() - 1] != '?');
        assert(glob(pattern, name) == (name.len() > 0 && pattern.last() == name.last() && glob(p, name.drop_last())));
        assert forall|i: int| 0 <= i < p.len() implies p[i] != '*' && p[i] != '?' by {
            assert(p[i] == pattern[i]);
        }
        if name.len() > 0 {
            law_glob_literal(p, name.drop_last());
            if pattern == name {
                assert(p =~= name.drop_last());
            }
            if glob(pattern, name) {
                assert(pattern =~= name.drop_last().push(pattern.last()));
                assert(name =~= name.drop_last().push(name.last()));
            }
        } else {
            assert(pattern != name);
        }
    }
}

/// The pattern `*` matches every name.
pub proof fn law_glob_star_matches_everything(name: Seq<char>)
    ensures
        glob(seq!['*'], name),
    decreases name.len(),
{
    let star = seq!['*'];
    assert(star.drop_last() =~= Seq::<char>::empty());
    assert(star.last() == '*');
    assert(glob(star, name) == (glob(Seq::<char>::empty(), name) || (name.len() > 0 && glob(star, name.drop_last()))));
    if name.len() > 0 {
        law_glob_star_matches_everything(name.drop_last());
    } else {
        assert(glob(Seq::<char>::empty(), name));
    }
}

/// A resolved path is absolute and holds no `.` or `..` segment; resolving
/// it again, against any working directory, gives it back; and an absolute
/// input resolves to the same path whatever the working directory.
pub proof fn law_resolve_is_canonical(cwd: Seq<char>, input: Seq<char>, other_cwd: Seq<char>)
    ensures
        is_abs(resolve(cwd, input)),
        forall|i: int|
            0 <= i < segs(resolve(cwd, input)).len() ==> #[trigger] segs(resolve(cwd, input))[i] != seq!['.']
                && segs(resolve(cwd, input))[i] != dotdot(),
        resolve(other_cwd, resolve(cwd, input)) == resolve(cwd, input),
        is_abs(input) ==> resolve(other_cwd, input) == resolve(cwd, input),
{
    let j = joined_segs(cwd, input);
    lemma_segs_wf(cwd);
    lemma_segs_wf(input);
    lemma_segs_append_wf(segs(cwd), segs(input));
    lemma_norm_wf(j);
    let n = norm(j);
    lemma_segs_abs_path(n);
    lemma_norm_fixed(n);
    let r = resolve(cwd, input);
    assert(r == abs_path(n));
    assert(is_abs(r)) by {
        assert(r[0] == '/');
    }
    assert(joined_segs(other_cwd, r) == n);
}

/// After a successful `cd path`, the working directory (what `pwd`
/// prints, before its newline) is `path` resolved against the old one.
pub proof fn law_cd_then_pwd(before: PreviewState, after: PreviewState, path: Seq<char>)
    requires
        cd_outcome(before, after, path, Ok(())),
    ensures
        after.cwd@.push('\n') == resolve(before.cwd@, path).push('\n'),
{
}

/// A stage filed under its index and a different alias can be looked up by
/// either, with the same result.
pub proof fn law_stage_alias_and_index_agree(
    reg: Map<Seq<char>, StateV>,
    index: nat,
    alias: Seq<char>,
    st: StateV,
)
    requires
        index <= usize::MAX,
    ensures
        reg_insert(reg, index, Some(alias), st)[alias] == st,
        reg_insert(reg, index, Some(alias), st)[index_key(index as usize)] == st,
{
}


/// Comparing two sequences that start alike is comparing what follows.
proof fn lemma_lex_common_prefix(c: Seq<char>, a: Seq<char>, b: Seq<char>)
    ensures
        lex_lt(c + a, c + b) == lex_lt(a, b),
    decreases c.len(),
{
    if c.len() > 0 {
        assert((c + a).drop_first() =~= c.drop_first() + a);
        assert((c + b).drop_first() =~= c.drop_first() + b);
        lemma_lex_common_prefix(c.drop_first(), a, b);
    } else {
        assert(c + a =~= a);
        assert(c + b =~= b);
    }
}

/// The text before the last segment of a canonical path with segments
/// `ss.push(n)`.
spec fn canon_head(abs: bool, ss: Seq<Seq<char>>) -> Seq<char> {
    (if abs { seq!['/'] } else { seq![] }) + (if ss.len() == 0 { seq![] } else { join(ss, seq!['/']) + seq!['/'] })
}

proof fn lemma_canon_split(k: Seq<char>)
    requires
        canon(k) == k,
        segs(k).len() > 0,
    ensures
        k == canon_head(is_abs(k), segs(k).drop_last()) + segs(k).last(),
{
    let ss = segs(k);
    let s0 = ss.drop_last();
    assert(ss =~= s0.push(ss.last()));
    if s0.len() == 0 {
        assert(join(ss, seq!['/']) == ss[0]);
    } else {
        assert(ss.drop_last() == s0);
        assert(join(ss, seq!['/']) == join(s0, seq!['/']) + seq!['/'] + ss.last());
    }
    if is_abs(k) {
        assert(k =~= canon_head(true, s0) + ss.last());
    } else {
        assert(k =~= canon_head(false, s0) + ss.last());
    }
}

/// Two entries `ls` lists for one directory come in the order of their
/// names: for stored (canonical) paths whose last segment is a proper name,
/// ordering by path and ordering by name agree.
pub proof fn law_listing_order_is_name_order(dir: Seq<char>, k1: Seq<char>, k2: Seq<char>)
    requires
        canon(k1) == k1,
        canon(k2) == k2,
        is_direct_child(dir, k1),
        is_direct_child(dir, k2),
        crate::engine::copy::file_name(k1) is Some,
        crate::engine::copy::file_name(k2) is Some,
    ensures
        lex_lt(k1, k2) <==> lex_lt(ls_name(k1), ls_name(k2)),
{
    let d = segs(dir);
    lemma_canon_split(k1);
    lemma_canon_split(k2);
    assert(segs(k1).drop_last() =~= d);
    assert(segs(k2).drop_last() =~= d);
    let h = canon_head(is_abs(dir), d);
    lemma_lex_common_prefix(h, segs(k1).last(), segs(k2).last());
}

/// `find path -name p` reports every stored path at or below the searched
/// directory whose last segment matches `p`, whatever the node there is
/// (a directory as well as a file): its line stands in the output.
pub proof fn law_find_name_reports_every_match(
    fs: Map<Seq<char>, NodeV>,
    cwd: Seq<char>,
    path: Seq<char>,
    p: Seq<char>,
    out: String,
    k: Seq<char>,
)
    requires
        find_outcome(fs, cwd, path, Some(p), Ok(out)),
        fs.dom().finite(),
        fs.contains_key(k),
        is_under(resolve(cwd, path), k),
        segs(k).len() > 0,
        segs(k).last() != dotdot(),
        glob(p, segs(k).last()),
    ensures
        exists|i: int|
            0 <= i && i + k.len() + 1 <= out@.len() && #[trigger] out@.subrange(i, i + k.len() + 1) == k + "\n"@,
{
    let base = resolve(cwd, path);
    let m = find_matches(fs, base, Some(p));
    assert(m.contains(k));
    assert(m.subset_of(fs.dom()));
    vstd::set_lib::lemma_set_subset_finite(fs.dom(), m);
    lemma_in_order_finite(m);
    let q = in_order(m);
    assert(q.contains(k));
    let j = choose|j: int| 0 <= j < q.len() && q[j] == k;
    lemma_concat_map_holds(q, find_line(), j);
    assert(find_line()(q[j]) == k + "\n"@);
    assert(out@ == concat_map(q, find_line()));
    reveal_strlit("\n");
    let line = k + "\n"@;
    assert(line.len() == k.len() + 1);
    let i = choose|i: int|
        0 <= i && i + find_line()(q[j]).len() <= concat_map(q, find_line()).len() && #[trigger] concat_map(
            q,
            find_line(),
        ).subrange(i, i + find_line()(q[j]).len()) == find_line()(q[j]);
    assert(out@.subrange(i, i + k.len() + 1) == line);
}

} // verus!
