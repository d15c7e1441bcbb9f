//! RUN simulation: a safe subset of shell commands (`mkdir`, `touch`, `rm`,
//! `mv`, `cp`) applied to the virtual filesystem.
//!
//! A RUN command is split on `&&` and `;` into sub-commands, each handled on
//! its own; commands outside the modeled subset are recorded as
//! `UnmodeledRunCommand` warnings. Shell quoting is not modeled.

use vstd::prelude::*;
use crate::engine::copy::{ensure_anc, ensure_ancestors};
use crate::model::fs::{
    empty_file, empty_file_v, entries_view, es_del, es_filter, es_get, es_has, es_put, fresh_dir,
    fresh_dir_v, outside_pred, under_pred, DirNode, FileNode, FsNode, NodeV, SymlinkNode, VirtualFs,
};
use crate::model::provenance::{fresh_prov, Provenance, ProvenanceSource, SrcV};
use crate::model::state::{LayerSummary, PreviewState};
use crate::model::warning::{lemma_wviews_push, ReasonV, UnmodeledReason, WarnV, Warning, wviews};
use crate::path::{
    abs_path, abs_path_exec, canon, is_abs, joined_segs, lemma_canon_abs_path, lemma_norm_wf,
    lemma_segs_abs_path, lemma_segs_append_wf, lemma_segs_wf, norm, resolve, resolve_exec, segs,
    segs_exec, wf_segs,
};
use crate::text::{
    append_chars, append_str, chars_eq_str, chars_of, copy_chars, lemma_sviews_push,
    lemma_vviews_drop_last, lemma_vviews_push, split_exec, split_on, string_of, sviews, trim,
    trim_chars, vviews, words, words_of,
};

verus! {

// ───────────────────────── the model ─────────────────────────

/// What a RUN simulation acts on: the filesystem entries, the warnings so
/// far, and the paths changed so far.
#[verifier::ext_equal]
pub struct SimV {
    pub es: Seq<(Seq<char>, NodeV)>,
    pub warns: Seq<WarnV>,
    pub files: Seq<Seq<char>>,
}

/// The simulation state held by a filesystem, a warning list and a list of
/// changed paths.
pub open spec fn sim_of(fs: VirtualFs, warns: Seq<Warning>, files: Seq<String>) -> SimV {
    SimV { es: fs.ev(), warns: wviews(warns), files: sviews(files) }
}

/// `s` with an `UnmodeledRunCommand` warning for `cmd` appended.
pub open spec fn warn(s: SimV, cmd: Seq<char>, r: ReasonV) -> SimV {
    SimV { warns: s.warns.push(WarnV::Unmodeled(cmd, r)), ..s }
}

/// The provenance source of nodes made by the sub-command `cmd`.
pub open spec fn run_src(cmd: Seq<char>) -> SrcV {
    SrcV::RunCommand(cmd)
}

/// A word that starts with `-`.
pub open spec fn is_flag(w: Seq<char>) -> bool {
    w.len() > 0 && w[0] == '-'
}

/// A word that starts with `--`.
pub open spec fn is_long_flag(w: Seq<char>) -> bool {
    w.len() > 1 && w[0] == '-' && w[1] == '-'
}

/// A short flag cluster (single leading dash) holding the letter `c`.
pub open spec fn short_flag_has(w: Seq<char>, c: char) -> bool {
    is_flag(w) && !is_long_flag(w) && w.contains(c)
}

/// A flag asking for recursion: `-a`, or a short cluster with `r` or `R`.
pub open spec fn is_recursive_flag(w: Seq<char>) -> bool {
    w == seq!['-', 'a'] || short_flag_has(w, 'r') || short_flag_has(w, 'R')
}

/// Some word of `ws` asks for recursion.
pub open spec fn any_recursive(ws: Seq<Seq<char>>) -> bool {
    exists|i: int| 0 <= i < ws.len() && is_recursive_flag(#[trigger] ws[i])
}

/// Some word of `ws` is a short flag cluster holding `p`.
pub open spec fn any_parents_flag(ws: Seq<Seq<char>>) -> bool {
    exists|i: int| 0 <= i < ws.len() && short_flag_has(#[trigger] ws[i], 'p')
}

/// The words of `ws` that are not flags, in order.
pub open spec fn operands(ws: Seq<Seq<char>>) -> Seq<Seq<char>>
    decreases ws.len(),
{
    if ws.len() == 0 {
        seq![]
    } else {
        let r = operands(ws.drop_last());
        if is_flag(ws.last()) {
            r
        } else {
            r.push(ws.last())
        }
    }
}

/// The directory holding `p` (`/` for the root and its children).
pub open spec fn parent_path(p: Seq<char>) -> Seq<char> {
    if segs(p).len() == 0 {
        seq!['/']
    } else {
        abs_path(segs(p).drop_last())
    }
}

/// One `mkdir` operand.
pub open spec fn mkdir_one(s: SimV, cwd: Seq<char>, raw: Seq<char>, parents: bool, cmd: Seq<char>) -> SimV {
    let path = resolve(cwd, raw);
    let src = run_src(cmd);
    if parents {
        let e = ensure_anc(s.es, path, src);
        if es_has(e, path) {
            SimV { es: e, ..s }
        } else {
            SimV { es: es_put(e, path, fresh_dir_v(src)), files: s.files.push(path), ..s }
        }
    } else if !es_has(s.es, parent_path(path)) && parent_path(path) != seq!['/'] {
        warn(s, cmd, ReasonV::Usage)
    } else if es_has(s.es, path) {
        s
    } else {
        SimV { es: es_put(s.es, path, fresh_dir_v(src)), files: s.files.push(path), ..s }
    }
}

/// `mkdir` over its operands, in order.
pub open spec fn mkdir_all(s: SimV, cwd: Seq<char>, paths: Seq<Seq<char>>, parents: bool, cmd: Seq<char>) -> SimV
    decreases paths.len(),
{
    if paths.len() == 0 {
        s
    } else {
        mkdir_one(mkdir_all(s, cwd, paths.drop_last(), parents, cmd), cwd, paths.last(), parents, cmd)
    }
}

/// One `touch` operand: an empty file, ancestors created, an existing node
/// left alone.
pub open spec fn touch_one(s: SimV, cwd: Seq<char>, raw: Seq<char>, cmd: Seq<char>) -> SimV {
    let path = resolve(cwd, raw);
    let e = ensure_anc(s.es, path, run_src(cmd));
    if es_has(e, path) {
        SimV { es: e, ..s }
    } else {
        SimV { es: es_put(e, path, empty_file_v(run_src(cmd))), files: s.files.push(path), ..s }
    }
}

/// `touch` over its operands, in order.
pub open spec fn touch_all(s: SimV, cwd: Seq<char>, paths: Seq<Seq<char>>, cmd: Seq<char>) -> SimV
    decreases paths.len(),
{
    if paths.len() == 0 {
        s
    } else {
        touch_one(touch_all(s, cwd, paths.drop_last(), cmd), cwd, paths.last(), cmd)
    }
}

/// The keys of `es`, in order.
pub open spec fn es_keys(es: Seq<(Seq<char>, NodeV)>) -> Seq<Seq<char>> {
    Seq::new(es.len(), |i: int| es[i].0)
}

/// One `rm` operand. Recursive removal of `/` is refused with a warning.
pub open spec fn rm_one(s: SimV, cwd: Seq<char>, raw: Seq<char>, recursive: bool) -> SimV {
    let path = resolve(cwd, raw);
    if recursive && path == seq!['/'] {
        warn(s, seq!['r', 'm', ' '] + raw + seq![' ', '/'], ReasonV::Usage)
    } else if recursive {
        SimV {
            es: es_filter(s.es, outside_pred(path)),
            files: s.files + es_keys(es_filter(s.es, under_pred(path))),
            ..s
        }
    } else if es_has(s.es, path) {
        SimV { es: es_del(s.es, path), files: s.files.push(path), ..s }
    } else {
        s
    }
}

/// `rm` over its operands, in order.
pub open spec fn rm_all(s: SimV, cwd: Seq<char>, paths: Seq<Seq<char>>, recursive: bool) -> SimV
    decreases paths.len(),
{
    if paths.len() == 0 {
        s
    } else {
        rm_one(rm_all(s, cwd, paths.drop_last(), recursive), cwd, paths.last(), recursive)
    }
}

/// A node as re-created by `mv` or `cp -r`: files keep content and
/// permissions, links keep their target, directories start afresh; all get
/// a fresh provenance from `src`.
pub open spec fn relocated_node(n: NodeV, src: SrcV) -> NodeV {
    match n {
        NodeV::File { content, permissions, .. } => NodeV::File {
            content,
            prov: fresh_prov(src),
            permissions,
        },
        NodeV::Dir { .. } => fresh_dir_v(src),
        NodeV::Link { target, .. } => NodeV::Link { target, prov: fresh_prov(src) },
    }
}

/// A node as copied by a single-file `cp`: a file gets a fresh provenance,
/// anything else is copied as it is.
pub open spec fn copied_node(n: NodeV, src: SrcV) -> NodeV {
    match n {
        NodeV::File { content, permissions, .. } => NodeV::File {
            content,
            prov: fresh_prov(src),
            permissions,
        },
        _ => n,
    }
}

/// Where an entry below the segments `from` lands when moved to `to`.
pub open spec fn relocated_path(key: Seq<char>, from: Seq<Seq<char>>, to: Seq<Seq<char>>) -> Seq<char> {
    abs_path(to + segs(key).skip(from.len() as int))
}

/// Re-creates `items` (entries below `from`) below `to`, in order, with
/// their ancestors.
pub open spec fn relocate(
    s: SimV,
    items: Seq<(Seq<char>, NodeV)>,
    from: Seq<Seq<char>>,
    to: Seq<Seq<char>>,
    src: SrcV,
) -> SimV
    decreases items.len(),
{
    if items.len() == 0 {
        s
    } else {
        let t = relocate(s, items.drop_last(), from, to, src);
        let np = relocated_path(items.last().0, from, to);
        let e = ensure_anc(t.es, np, src);
        SimV { es: es_put(e, np, relocated_node(items.last().1, src)), files: t.files.push(np), ..t }
    }
}

/// `mv src dst`: anything but exactly two operands, or a missing source, is
/// refused with a warning.
pub open spec fn mv_spec(s: SimV, cwd: Seq<char>, args: Seq<Seq<char>>, cmd: Seq<char>) -> SimV {
    if args.len() != 2 {
        warn(s, cmd, ReasonV::Usage)
    } else {
        let src = resolve(cwd, args[0]);
        let dst = resolve(cwd, args[1]);
        if !es_has(s.es, src) {
            warn(s, cmd, ReasonV::Usage)
        } else {
            relocate(
                SimV { es: es_filter(s.es, outside_pred(src)), ..s },
                es_filter(s.es, under_pred(src)),
                segs(src),
                segs(dst),
                run_src(cmd),
            )
        }
    }
}

/// `cp src dst`: a directory needs a recursive flag; anything but exactly
/// two operands, or a missing source, is refused with a warning.
pub open spec fn cp_spec(s: SimV, cwd: Seq<char>, args: Seq<Seq<char>>, recursive: bool, cmd: Seq<char>) -> SimV {
    if args.len() != 2 {
        warn(s, cmd, ReasonV::Usage)
    } else {
        let src = resolve(cwd, args[0]);
        let dst = resolve(cwd, args[1]);
        if !es_has(s.es, src) {
            warn(s, cmd, ReasonV::Usage)
        } else if es_get(s.es, src) is Dir && !recursive {
            warn(s, cmd, ReasonV::Usage)
        } else if es_get(s.es, src) is Dir {
            relocate(s, es_filter(s.es, under_pred(src)), segs(src), segs(dst), run_src(cmd))
        } else {
            let e = ensure_anc(s.es, dst, run_src(cmd));
            SimV {
                es: es_put(e, dst, copied_node(es_get(s.es, src), run_src(cmd))),
                files: s.files.push(dst),
                ..s
            }
        }
    }
}

/// The first word of `ws`, or nothing.
pub open spec fn head_word(ws: Seq<Seq<char>>) -> Seq<char> {
    if ws.len() > 0 {
        ws[0]
    } else {
        seq![]
    }
}

/// The words of `ws` after the first.
pub open spec fn tail_words(ws: Seq<Seq<char>>) -> Seq<Seq<char>> {
    if ws.len() > 0 {
        ws.skip(1)
    } else {
        seq![]
    }
}

/// One sub-command, dispatched on its first word.
pub open spec fn dispatch(s: SimV, cwd: Seq<char>, cmd: Seq<char>) -> SimV {
    let name = head_word(words(cmd));
    let rest = tail_words(words(cmd));
    if name == "mkdir"@ {
        mkdir_all(s, cwd, operands(rest), any_parents_flag(rest), cmd)
    } else if name == "touch"@ {
        touch_all(s, cwd, operands(rest), cmd)
    } else if name == "rm"@ {
        rm_all(s, cwd, operands(rest), any_recursive(rest))
    } else if name == "mv"@ {
        mv_spec(s, cwd, operands(rest), cmd)
    } else if name == "cp"@ {
        cp_spec(s, cwd, operands(rest), any_recursive(rest), cmd)
    } else {
        warn(s, cmd, ReasonV::Unrecognised)
    }
}

/// The sub-commands, in order.
pub open spec fn run_all(s: SimV, cwd: Seq<char>, cmds: Seq<Seq<char>>) -> SimV
    decreases cmds.len(),
{
    if cmds.len() == 0 {
        s
    } else {
        dispatch(run_all(s, cwd, cmds.drop_last()), cwd, cmds.last())
    }
}

/// The trimmed, non-empty pieces of `ps`.
pub open spec fn trimmed_pieces(ps: Seq<Seq<char>>) -> Seq<Seq<char>>
    decreases ps.len(),
{
    if ps.len() == 0 {
        seq![]
    } else {
        let r = trimmed_pieces(ps.drop_last());
        if trim(ps.last()).len() > 0 {
            r.push(trim(ps.last()))
        } else {
            r
        }
    }
}

/// The `;`-separated pieces of each `&&`-separated segment, trimmed, empty
/// ones dropped.
pub open spec fn chain_pieces(segments: Seq<Seq<char>>) -> Seq<Seq<char>>
    decreases segments.len(),
{
    if segments.len() == 0 {
        seq![]
    } else {
        chain_pieces(segments.drop_last()) + trimmed_pieces(split_on(segments.last(), seq![';']))
    }
}

/// The sub-commands of a RUN command line.
pub open spec fn sub_commands(raw: Seq<char>) -> Seq<Seq<char>> {
    chain_pieces(split_on(raw, seq!['&', '&']))
}


// ───────────────────────── proof helpers ─────────────────────────

/// A resolved path is absolute, canonical, and made of its normalized
/// segments.
pub proof fn lemma_resolve(cwd: Seq<char>, raw: Seq<char>)
    ensures
        is_abs(resolve(cwd, raw)),
        canon(resolve(cwd, raw)) == resolve(cwd, raw),
        segs(resolve(cwd, raw)) == norm(joined_segs(cwd, raw)),
        wf_segs(segs(resolve(cwd, raw))),
{
    lemma_segs_wf(cwd);
    lemma_segs_wf(raw);
    lemma_segs_append_wf(segs(cwd), segs(raw));
    lemma_norm_wf(joined_segs(cwd, raw));
    lemma_canon_abs_path(norm(joined_segs(cwd, raw)));
    lemma_segs_abs_path(norm(joined_segs(cwd, raw)));
}

// ───────────────────────── words and flags ─────────────────────────

/// Splits a sub-command into whitespace-separated words.
pub fn parse_argv(sub_cmd: &str) -> (r: Vec<String>)
    ensures
        sviews(r@) == words(sub_cmd@),
{
    let v = chars_of(sub_cmd);
    let ws = words_of(&v);
    crate::text::strings_of(&ws)
}

/// Resolves `raw` against `cwd`: relative paths are joined to `cwd`, then
/// `.` is dropped and `..` pops a segment (never above `/`).
pub fn resolve_path(cwd: &str, raw: &str) -> (r: String)
    ensures
        r@ == resolve(cwd@, raw@),
{
    let c = chars_of(cwd);
    let p = chars_of(raw);
    let r = resolve_exec(&c, &p);
    string_of(&r)
}

fn is_flag_exec(w: &Vec<char>) -> (b: bool)
    ensures
        b == is_flag(w@),
{
    w.len() > 0 && w[0] == '-'
}

fn short_flag_has_exec(w: &Vec<char>, c: char) -> (b: bool)
    ensures
        b == short_flag_has(w@, c),
{
    is_flag_exec(w) && !(w.len() > 1 && w[1] == '-') && crate::text::contains_char(w, c)
}

fn is_recursive_flag_exec(w: &Vec<char>) -> (b: bool)
    ensures
        b == is_recursive_flag(w@),
{
    let dash_a = w.len() == 2 && w[0] == '-' && w[1] == 'a';
    assert(dash_a == (w@ == seq!['-', 'a'])) by {
        if w@ == seq!['-', 'a'] {
            assert(w@.len() == 2 && w@[0] == '-' && w@[1] == 'a');
        }
        if dash_a {
            assert(w@ =~= seq!['-', 'a']);
        }
    }
    dash_a || short_flag_has_exec(w, 'r') || short_flag_has_exec(w, 'R')
}

/// The views of a slice of string slices.
pub open spec fn str_views(v: Seq<&str>) -> Seq<Seq<char>> {
    Seq::new(v.len(), |i: int| v[i]@)
}

/// Whether any of `flags` asks for recursion: `-a`, or a short flag cluster
/// (single dash) holding `r` or `R`. Long flags never do.
pub fn has_recursive_flag(flags: &[&str]) -> (b: bool)
    ensures
        b == any_recursive(str_views(flags@)),
{
    let ghost ws = str_views(flags@);
    let mut i: usize = 0;
    while i < flags.len()
        invariant
            i <= flags@.len(),
            ws == str_views(flags@),
            forall|j: int| 0 <= j < i ==> !is_recursive_flag(#[trigger] ws[j]),
        decreases flags.len() - i,
    {
        let w = chars_of(flags[i]);
        if is_recursive_flag_exec(&w) {
            assert(ws[i as int] == w@);
            return true;
        }
        i = i + 1;
    }
    false
}

fn any_recursive_exec(ws: &Vec<Vec<char>>) -> (b: bool)
    ensures
        b == any_recursive(vviews(ws@)),
{
    let mut i: usize = 0;
    while i < ws.len()
        invariant
            i <= ws@.len(),
            forall|j: int| 0 <= j < i ==> !is_recursive_flag(#[trigger] vviews(ws@)[j]),
        decreases ws.len() - i,
    {
        if is_recursive_flag_exec(&ws[i]) {
            assert(vviews(ws@)[i as int] == ws@[i as int]@);
            return true;
        }
        i = i + 1;
    }
    false
}

fn any_parents_flag_exec(ws: &Vec<Vec<char>>) -> (b: bool)
    ensures
        b == any_parents_flag(vviews(ws@)),
{
    let mut i: usize = 0;
    while i < ws.len()
        invariant
            i <= ws@.len(),
            forall|j: int| 0 <= j < i ==> !short_flag_has(#[trigger] vviews(ws@)[j], 'p'),
        decreases ws.len() - i,
    {
        if short_flag_has_exec(&ws[i], 'p') {
            assert(vviews(ws@)[i as int] == ws@[i as int]@);
            return true;
        }
        i = i + 1;
    }
    false
}

fn operands_exec(ws: &Vec<Vec<char>>) -> (r: Vec<Vec<char>>)
    ensures
        vviews(r@) == operands(vviews(ws@)),
{
    let mut r: Vec<Vec<char>> = Vec::new();
    let mut i: usize = 0;
    while i < ws.len()
        invariant
            i <= ws@.len(),
            vviews(r@) == operands(vviews(ws@).take(i as int)),
        decreases ws.len() - i,
    {
        let ghost r0 = r@;
        assert(vviews(ws@).take(i + 1).drop_last() =~= vviews(ws@).take(i as int));
        assert(vviews(ws@).take(i + 1).last() == ws@[i as int]@);
        if !is_flag_exec(&ws[i]) {
            let c = copy_chars(&ws[i]);
            r.push(c);
            proof {
                lemma_vviews_push(r0, c);
            }
        }
        i = i + 1;
    }
    assert(vviews(ws@).take(ws@.len() as int) =~= vviews(ws@));
    r
}

fn tail_exec(ws: &Vec<Vec<char>>) -> (r: Vec<Vec<char>>)
    ensures
        vviews(r@) == tail_words(vviews(ws@)),
{
    let mut r: Vec<Vec<char>> = Vec::new();
    if ws.len() == 0 {
        assert(vviews(r@) =~= tail_words(vviews(ws@)));
        return r;
    }
    let mut i: usize = 1;
    while i < ws.len()
        invariant
            1 <= i <= ws@.len(),
            vviews(r@) == vviews(ws@).subrange(1, i as int),
        decreases ws.len() - i,
    {
        let ghost r0 = r@;
        let c = copy_chars(&ws[i]);
        r.push(c);
        proof {
            lemma_vviews_push(r0, c);
            assert(vviews(ws@).subrange(1, i + 1) =~= vviews(ws@).subrange(1, i as int).push(ws@[i as int]@));
        }
        i = i + 1;
    }
    assert(vviews(ws@).subrange(1, ws@.len() as int) =~= vviews(ws@).skip(1));
    r
}

/// Splits a RUN command line into sub-commands: on `&&`, then on `;`;
/// each piece trimmed, empty pieces dropped. `||` is not a separator.
pub fn split_commands(raw: &str) -> (r: Vec<String>)
    ensures
        sviews(r@) == sub_commands(raw@),
{
    let v = chars_of(raw);
    let amp = vec!['&', '&'];
    let semi = vec![';'];
    assert(amp@ =~= seq!['&', '&']);
    assert(semi@ =~= seq![';']);
    let segments = split_exec(&v, &amp);
    let ghost sv = vviews(segments@);
    let mut r: Vec<String> = Vec::new();
    let mut i: usize = 0;
    while i < segments.len()
        invariant
            i <= segments@.len(),
            sv == vviews(segments@),
            semi@ == seq![';'],
            sviews(r@) == chain_pieces(sv.take(i as int)),
        decreases segments.len() - i,
    {
        let pieces = split_exec(&segments[i], &semi);
        let ghost pv = vviews(pieces@);
        let ghost before = sviews(r@);
        let mut j: usize = 0;
        while j < pieces.len()
            invariant
                j <= pieces@.len(),
                pv == vviews(pieces@),
                sviews(r@) == before + trimmed_pieces(pv.take(j as int)),
            decreases pieces.len() - j,
        {
            let t = trim_chars(&pieces[j]);
            let ghost r0 = r@;
            assert(pv.take(j + 1).drop_last() =~= pv.take(j as int));
            assert(pv.take(j + 1).last() == pieces@[j as int]@);
            if t.len() > 0 {
                let s = string_of(&t);
                r.push(s);
                proof {
                    lemma_sviews_push(r0, s);
                    assert(before + trimmed_pieces(pv.take(j as int)).push(t@) =~= (before
                        + trimmed_pieces(pv.take(j as int))).push(t@));
                }
            }
            j = j + 1;
        }
        assert(pv.take(pieces@.len() as int) =~= pv);
        assert(sv.take(i + 1).drop_last() =~= sv.take(i as int));
        assert(sv.take(i + 1).last() == segments@[i as int]@);
        i = i + 1;
    }
    assert(sv.take(segments@.len() as int) =~= sv);
    r
}

// ───────────────────────── handlers ─────────────────────────

fn warn_exec(warns: &mut Vec<Warning>, cmd: &Vec<char>, reason: UnmodeledReason)
    ensures
        wviews(final(warns)@) == wviews(old(warns)@).push(WarnV::Unmodeled(cmd@, reason@)),
{
    let w = Warning::UnmodeledRunCommand { command: string_of(cmd), reason };
    proof {
        lemma_wviews_push(warns@, w);
    }
    warns.push(w);
}

fn push_path(files: &mut Vec<String>, p: &Vec<char>)
    ensures
        sviews(final(files)@) == sviews(old(files)@).push(p@),
{
    let s = string_of(p);
    proof {
        lemma_sviews_push(files@, s);
    }
    files.push(s);
}

fn parent_of(path: &Vec<char>) -> (r: Vec<char>)
    ensures
        r@ == parent_path(path@),
{
    let mut ss = segs_exec(path);
    if ss.len() == 0 {
        let r = vec!['/'];
        assert(r@ =~= seq!['/']);
        return r;
    }
    proof {
        lemma_vviews_drop_last(ss@);
    }
    ss.pop();
    abs_path_exec(&ss)
}

fn mkdir_one_exec(
    fs: &mut VirtualFs,
    warns: &mut Vec<Warning>,
    files: &mut Vec<String>,
    cwd: &Vec<char>,
    raw: &Vec<char>,
    parents: bool,
    cmd: &Vec<char>,
)
    ensures
        sim_of(*final(fs), final(warns)@, final(files)@) == mkdir_one(
            sim_of(*old(fs), old(warns)@, old(files)@),
            cwd@,
            raw@,
            parents,
            cmd@,
        ),
{
    let path = resolve_exec(cwd, raw);
    proof {
        lemma_resolve(cwd@, raw@);
    }
    let src = ProvenanceSource::RunCommand { command: string_of(cmd) };
    if parents {
        ensure_ancestors(fs, &path, &src);
        if !fs.contains_key(&path) {
            let key = copy_chars(&path);
            fs.insert_key(key, fresh_dir(src));
            push_path(files, &path);
        }
    } else {
        let parent = parent_of(&path);
        let root = vec!['/'];
        assert(root@ =~= seq!['/']);
        if !fs.contains_key(&parent) && !crate::text::chars_eq(&parent, &root) {
            warn_exec(warns, cmd, UnmodeledReason::UnsupportedUsage);
        } else if !fs.contains_key(&path) {
            let key = copy_chars(&path);
            fs.insert_key(key, fresh_dir(src));
            push_path(files, &path);
        }
    }
}

fn mkdir_all_exec(
    fs: &mut VirtualFs,
    warns: &mut Vec<Warning>,
    files: &mut Vec<String>,
    cwd: &Vec<char>,
    paths: &Vec<Vec<char>>,
    parents: bool,
    cmd: &Vec<char>,
)
    ensures
        sim_of(*final(fs), final(warns)@, final(files)@) == mkdir_all(
            sim_of(*old(fs), old(warns)@, old(files)@),
            cwd@,
            vviews(paths@),
            parents,
            cmd@,
        ),
{
    let ghost s0 = sim_of(*fs, warns@, files@);
    let ghost pv = vviews(paths@);
    let mut i: usize = 0;
    while i < paths.len()
        invariant
            i <= paths@.len(),
            pv == vviews(paths@),
            sim_of(*fs, warns@, files@) == mkdir_all(s0, cwd@, pv.take(i as int), parents, cmd@),
        decreases paths.len() - i,
    {
        mkdir_one_exec(fs, warns, files, cwd, &paths[i], parents, cmd);
        assert(pv.take(i + 1).drop_last() =~= pv.take(i as int));
        assert(pv.take(i + 1).last() == paths@[i as int]@);
        i = i + 1;
    }
    assert(pv.take(paths@.len() as int) =~= pv);
}

fn touch_one_exec(
    fs: &mut VirtualFs,
    warns: &Vec<Warning>,
    files: &mut Vec<String>,
    cwd: &Vec<char>,
    raw: &Vec<char>,
    cmd: &Vec<char>,
)
    ensures
        sim_of(*final(fs), warns@, final(files)@) == touch_one(
            sim_of(*old(fs), warns@, old(files)@),
            cwd@,
            raw@,
            cmd@,
        ),
{
    let path = resolve_exec(cwd, raw);
    proof {
        lemma_resolve(cwd@, raw@);
    }
    let src = ProvenanceSource::RunCommand { command: string_of(cmd) };
    ensure_ancestors(fs, &path, &src);
    if !fs.contains_key(&path) {
        let key = copy_chars(&path);
        fs.insert_key(key, empty_file(src));
        push_path(files, &path);
    }
}

fn touch_all_exec(
    fs: &mut VirtualFs,
    warns: &Vec<Warning>,
    files: &mut Vec<String>,
    cwd: &Vec<char>,
    paths: &Vec<Vec<char>>,
    cmd: &Vec<char>,
)
    ensures
        sim_of(*final(fs), warns@, final(files)@) == touch_all(
            sim_of(*old(fs), warns@, old(files)@),
            cwd@,
            vviews(paths@),
            cmd@,
        ),
{
    let ghost s0 = sim_of(*fs, warns@, files@);
    let ghost pv = vviews(paths@);
    let mut i: usize = 0;
    while i < paths.len()
        invariant
            i <= paths@.len(),
            pv == vviews(paths@),
            sim_of(*fs, warns@, files@) == touch_all(s0, cwd@, pv.take(i as int), cmd@),
        decreases paths.len() - i,
    {
        touch_one_exec(fs, warns, files, cwd, &paths[i], cmd);
        assert(pv.take(i + 1).drop_last() =~= pv.take(i as int));
        assert(pv.take(i + 1).last() == paths@[i as int]@);
        i = i + 1;
    }
    assert(pv.take(paths@.len() as int) =~= pv);
}

fn rm_one_exec(
    fs: &mut VirtualFs,
    warns: &mut Vec<Warning>,
    files: &mut Vec<String>,
    cwd: &Vec<char>,
    raw: &Vec<char>,
    recursive: bool,
)
    ensures
        sim_of(*final(fs), final(warns)@, final(files)@) == rm_one(
            sim_of(*old(fs), old(warns)@, old(files)@),
            cwd@,
            raw@,
            recursive,
        ),
{
    let path = resolve_exec(cwd, raw);
    proof {
        lemma_resolve(cwd@, raw@);
    }
    let is_root = path.len() == 1 && path[0] == '/';
    assert(is_root == (path@ == seq!['/'])) by {
        if is_root {
            assert(path@ =~= seq!['/']);
        }
    }
    if recursive && is_root {
        let mut c: Vec<char> = vec!['r', 'm', ' '];
        append_chars(&mut c, raw);
        c.push(' ');
        c.push('/');
        assert(c@ =~= seq!['r', 'm', ' '] + raw@ + seq![' ', '/']);
        warn_exec(warns, &c, UnmodeledReason::UnsupportedUsage);
    } else if recursive {
        let ghost f0 = sviews(files@);
        let taken = fs.take_under(&path);
        let ghost keys = es_keys(entries_view(taken@));
        let mut j: usize = 0;
        while j < taken.len()
            invariant
                j <= taken@.len(),
                keys == es_keys(entries_view(taken@)),
                sviews(files@) == f0 + keys.take(j as int),
            decreases taken.len() - j,
        {
            push_path(files, &taken[j].0);
            assert(keys.take(j + 1) =~= keys.take(j as int).push(taken@[j as int].0@));
            assert(f0 + keys.take(j + 1) =~= (f0 + keys.take(j as int)).push(taken@[j as int].0@));
            j = j + 1;
        }
        assert(keys.take(taken@.len() as int) =~= keys);
    } else {
        match fs.remove_key(&path) {
            Some(_) => {
                push_path(files, &path);
            },
            None => {},
        }
    }
}

fn rm_all_exec(
    fs: &mut VirtualFs,
    warns: &mut Vec<Warning>,
    files: &mut Vec<String>,
    cwd: &Vec<char>,
    paths: &Vec<Vec<char>>,
    recursive: bool,
)
    ensures
        sim_of(*final(fs), final(warns)@, final(files)@) == rm_all(
            sim_of(*old(fs), old(warns)@, old(files)@),
            cwd@,
            vviews(paths@),
            recursive,
        ),
{
    let ghost s0 = sim_of(*fs, warns@, files@);
    let ghost pv = vviews(paths@);
    let mut i: usize = 0;
    while i < paths.len()
        invariant
            i <= paths@.len(),
            pv == vviews(paths@),
            sim_of(*fs, warns@, files@) == rm_all(s0, cwd@, pv.take(i as int), recursive),
        decreases paths.len() - i,
    {
        rm_one_exec(fs, warns, files, cwd, &paths[i], recursive);
        assert(pv.take(i + 1).drop_last() =~= pv.take(i as int));
        assert(pv.take(i + 1).last() == paths@[i as int]@);
        i = i + 1;
    }
    assert(pv.take(paths@.len() as int) =~= pv);
}

fn relocated(n: &FsNode, src: &ProvenanceSource) -> (r: FsNode)
    ensures
        r@ == relocated_node(n@, src@),
{
    match n {
        FsNode::File(f) => {
            let c = f.content.clone();
            assert(c@ =~= f.content@);
            FsNode::File(FileNode { content: c, provenance: Provenance::new(src.dup()), permissions: f.permissions })
        },
        FsNode::Directory(_) => fresh_dir(src.dup()),
        FsNode::Symlink(l) => FsNode::Symlink(
            SymlinkNode { target: l.target.clone(), provenance: Provenance::new(src.dup()) },
        ),
    }
}

fn copied(n: &FsNode, src: &ProvenanceSource) -> (r: FsNode)
    ensures
        r@ == copied_node(n@, src@),
{
    match n {
        FsNode::File(f) => {
            let c = f.content.clone();
            assert(c@ =~= f.content@);
            FsNode::File(FileNode { content: c, provenance: Provenance::new(src.dup()), permissions: f.permissions })
        },
        _ => n.dup(),
    }
}

pub fn relocate_exec(
    fs: &mut VirtualFs,
    warns: &Vec<Warning>,
    files: &mut Vec<String>,
    items: &Vec<(Vec<char>, FsNode)>,
    from: &Vec<Vec<char>>,
    to: &Vec<Vec<char>>,
    src: &ProvenanceSource,
)
    requires
        wf_segs(vviews(to@)),
        forall|j: int| 0 <= j < items@.len() ==> from@.len() <= segs((#[trigger] items@[j]).0@).len(),
    ensures
        sim_of(*final(fs), warns@, final(files)@) == relocate(
            sim_of(*old(fs), warns@, old(files)@),
            entries_view(items@),
            vviews(from@),
            vviews(to@),
            src@,
        ),
{
    let ghost s0 = sim_of(*fs, warns@, files@);
    let ghost iv = entries_view(items@);
    let mut i: usize = 0;
    while i < items.len()
        invariant
            i <= items@.len(),
            iv == entries_view(items@),
            wf_segs(vviews(to@)),
            forall|j: int| 0 <= j < items@.len() ==> from@.len() <= segs((#[trigger] items@[j]).0@).len(),
            sim_of(*fs, warns@, files@) == relocate(s0, iv.take(i as int), vviews(from@), vviews(to@), src@),
        decreases items.len() - i,
    {
        let ks = segs_exec(&items[i].0);
        let mut nss = crate::text::copy_all(to);
        let ghost base = vviews(nss@);
        let mut j: usize = from.len();
        assert(from@.len() <= segs(items@[i as int].0@).len());
        while j < ks.len()
            invariant
                from@.len() <= j <= ks@.len(),
                vviews(nss@) == base + vviews(ks@).subrange(from@.len() as int, j as int),
            decreases ks.len() - j,
        {
            let ghost n0 = nss@;
            let c = copy_chars(&ks[j]);
            nss.push(c);
            proof {
                lemma_vviews_push(n0, c);
                assert(vviews(ks@).subrange(from@.len() as int, j + 1) =~= vviews(ks@).subrange(
                    from@.len() as int,
                    j as int,
                ).push(ks@[j as int]@));
                assert(base + vviews(ks@).subrange(from@.len() as int, j + 1) =~= (base + vviews(
                    ks@,
                ).subrange(from@.len() as int, j as int)).push(ks@[j as int]@));
            }
            j = j + 1;
        }
        proof {
            let key = items@[i as int].0@;
            assert(vviews(ks@).subrange(from@.len() as int, ks@.len() as int) =~= segs(key).skip(
                from@.len() as int,
            ));
            lemma_segs_wf(key);
            assert(wf_segs(segs(key).skip(from@.len() as int))) by {
                assert forall|q: int| 0 <= q < segs(key).skip(from@.len() as int).len() implies (
                #[trigger] segs(key).skip(from@.len() as int)[q]).len() > 0 && segs(key).skip(
                    from@.len() as int,
                )[q] != seq!['.'] && !segs(key).skip(from@.len() as int)[q].contains('/') by {
                    assert(segs(key).skip(from@.len() as int)[q] == segs(key)[q + from@.len()]);
                }
            }
            lemma_segs_append_wf(vviews(to@), segs(key).skip(from@.len() as int));
            lemma_canon_abs_path(vviews(nss@));
        }
        let np = abs_path_exec(&nss);
        ensure_ancestors(fs, &np, src);
        let node = relocated(&items[i].1, src);
        let key = copy_chars(&np);
        fs.insert_key(key, node);
        push_path(files, &np);
        assert(iv.take(i + 1).drop_last() =~= iv.take(i as int));
        assert(iv.take(i + 1).last() == (items@[i as int].0@, items@[i as int].1@));
        i = i + 1;
    }
    assert(iv.take(items@.len() as int) =~= iv);
}

fn mv_exec(
    fs: &mut VirtualFs,
    warns: &mut Vec<Warning>,
    files: &mut Vec<String>,
    cwd: &Vec<char>,
    args: &Vec<Vec<char>>,
    cmd: &Vec<char>,
)
    ensures
        sim_of(*final(fs), final(warns)@, final(files)@) == mv_spec(
            sim_of(*old(fs), old(warns)@, old(files)@),
            cwd@,
            vviews(args@),
            cmd@,
        ),
{
    if args.len() != 2 {
        warn_exec(warns, cmd, UnmodeledReason::UnsupportedUsage);
        return;
    }
    let src = resolve_exec(cwd, &args[0]);
    let dst = resolve_exec(cwd, &args[1]);
    assert(vviews(args@)[0] == args@[0]@ && vviews(args@)[1] == args@[1]@);
    if !fs.contains_key(&src) {
        warn_exec(warns, cmd, UnmodeledReason::UnsupportedUsage);
        return;
    }
    let ghost es0 = fs.ev();
    let items = fs.take_under(&src);
    let from = segs_exec(&src);
    let to = segs_exec(&dst);
    proof {
        lemma_segs_wf(dst@);
        crate::model::fs::lemma_es_filter(es0, under_pred(src@));
        assert forall|j: int| 0 <= j < items@.len() implies from@.len() <= segs(
            (#[trigger] items@[j]).0@,
        ).len() by {
            assert(entries_view(items@)[j].0 == items@[j].0@);
            assert(under_pred(src@)(entries_view(items@)[j].0));
        }
    }
    let how = ProvenanceSource::RunCommand { command: string_of(cmd) };
    relocate_exec(fs, warns, files, &items, &from, &to, &how);
}

fn cp_exec(
    fs: &mut VirtualFs,
    warns: &mut Vec<Warning>,
    files: &mut Vec<String>,
    cwd: &Vec<char>,
    args: &Vec<Vec<char>>,
    recursive: bool,
    cmd: &Vec<char>,
)
    ensures
        sim_of(*final(fs), final(warns)@, final(files)@) == cp_spec(
            sim_of(*old(fs), old(warns)@, old(files)@),
            cwd@,
            vviews(args@),
            recursive,
            cmd@,
        ),
{
    if args.len() != 2 {
        warn_exec(warns, cmd, UnmodeledReason::UnsupportedUsage);
        return;
    }
    let src = resolve_exec(cwd, &args[0]);
    let dst = resolve_exec(cwd, &args[1]);
    assert(vviews(args@)[0] == args@[0]@ && vviews(args@)[1] == args@[1]@);
    proof {
        lemma_resolve(cwd@, args@[1]@);
    }
    if !fs.contains_key(&src) {
        warn_exec(warns, cmd, UnmodeledReason::UnsupportedUsage);
        return;
    }
    let is_dir = match fs.get_key(&src) {
        Some(FsNode::Directory(_)) => true,
        _ => false,
    };
    if is_dir && !recursive {
        warn_exec(warns, cmd, UnmodeledReason::UnsupportedUsage);
        return;
    }
    let how = ProvenanceSource::RunCommand { command: string_of(cmd) };
    if is_dir {
        let ghost es0 = fs.ev();
        let items = fs.clone_under(&src);
        let from = segs_exec(&src);
        let to = segs_exec(&dst);
        proof {
            lemma_segs_wf(dst@);
            crate::model::fs::lemma_es_filter(es0, under_pred(src@));
            assert forall|j: int| 0 <= j < items@.len() implies from@.len() <= segs(
                (#[trigger] items@[j]).0@,
            ).len() by {
                assert(entries_view(items@)[j].0 == items@[j].0@);
                assert(under_pred(src@)(entries_view(items@)[j].0));
            }
        }
        relocate_exec(fs, warns, files, &items, &from, &to, &how);
    } else {
        let node = copied(fs.get_key(&src).unwrap(), &how);
        ensure_ancestors(fs, &dst, &how);
        let key = copy_chars(&dst);
        fs.insert_key(key, node);
        push_path(files, &dst);
    }
}

fn dispatch_exec(
    fs: &mut VirtualFs,
    warns: &mut Vec<Warning>,
    files: &mut Vec<String>,
    cwd: &Vec<char>,
    cmd: &Vec<char>,
)
    ensures
        sim_of(*final(fs), final(warns)@, final(files)@) == dispatch(
            sim_of(*old(fs), old(warns)@, old(files)@),
            cwd@,
            cmd@,
        ),
{
    let ws = words_of(cmd);
    let rest = tail_exec(&ws);
    let name = if ws.len() > 0 {
        copy_chars(&ws[0])
    } else {
        Vec::new()
    };
    assert(name@ == head_word(words(cmd@))) by {
        if ws@.len() > 0 {
            assert(vviews(ws@)[0] == ws@[0]@);
        } else {
            assert(name@ =~= Seq::<char>::empty());
        }
    }
    if chars_eq_str(&name, "mkdir") {
        let paths = operands_exec(&rest);
        let parents = any_parents_flag_exec(&rest);
        mkdir_all_exec(fs, warns, files, cwd, &paths, parents, cmd);
    } else if chars_eq_str(&name, "touch") {
        let paths = operands_exec(&rest);
        touch_all_exec(fs, warns, files, cwd, &paths, cmd);
    } else if chars_eq_str(&name, "rm") {
        let paths = operands_exec(&rest);
        let recursive = any_recursive_exec(&rest);
        rm_all_exec(fs, warns, files, cwd, &paths, recursive);
    } else if chars_eq_str(&name, "mv") {
        let args = operands_exec(&rest);
        mv_exec(fs, warns, files, cwd, &args, cmd);
    } else if chars_eq_str(&name, "cp") {
        let args = operands_exec(&rest);
        let recursive = any_recursive_exec(&rest);
        cp_exec(fs, warns, files, cwd, &args, recursive, cmd);
    } else {
        warn_exec(warns, cmd, UnmodeledReason::UnrecognisedCommand);
    }
}

/// Simulates a RUN command: each sub-command (see `split_commands`) is
/// applied in turn, and every changed path is listed, in order, in one
/// `RUN` layer summary. Nothing is executed for real.
pub fn handle_run(state: &mut PreviewState, command: &str, line: usize) -> (layer: LayerSummary)
    ensures
        sim_of(final(state).fs, final(state).warnings@, layer.files_changed@) == run_all(
            sim_of(old(state).fs, old(state).warnings@, seq![]),
            old(state).cwd@,
            sub_commands(command@),
        ),
        old(state).same_except_fs_warnings(&*final(state)),
        layer.instruction_type@ == "RUN"@,
        layer.env_changed@.len() == 0,
{
    let cwd = chars_of(state.cwd.as_str());
    let cmds = split_commands(command);
    let ghost cv = sviews(cmds@);
    let mut files: Vec<String> = Vec::new();
    let ghost s0 = sim_of(state.fs, state.warnings@, files@);
    assert(s0 == sim_of(old(state).fs, old(state).warnings@, seq![])) by {
        assert(sviews(files@) =~= sviews(Seq::<String>::empty()));
    }
    let mut i: usize = 0;
    while i < cmds.len()
        invariant
            i <= cmds@.len(),
            cv == sviews(cmds@),
            cwd@ == old(state).cwd@,
            old(state).same_except_fs_warnings(&*state),
            sim_of(state.fs, state.warnings@, files@) == run_all(s0, cwd@, cv.take(i as int)),
        decreases cmds.len() - i,
    {
        let c = chars_of(cmds[i].as_str());
        dispatch_exec(&mut state.fs, &mut state.warnings, &mut files, &cwd, &c);
        assert(cv.take(i + 1).drop_last() =~= cv.take(i as int));
        assert(cv.take(i + 1).last() == cmds@[i as int]@);
        i = i + 1;
    }
    assert(cv.take(cmds@.len() as int) =~= cv);
    LayerSummary { instruction_type: String::from_str("RUN"), files_changed: files, env_changed: Vec::new() }
}

} // verus!
