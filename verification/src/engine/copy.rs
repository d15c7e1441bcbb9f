//! COPY support: placing files into the virtual filesystem.

use vstd::prelude::*;
use crate::engine::error::EngineError;
use crate::engine::run_sim::{relocate, relocate_exec, sim_of, SimV};
use crate::model::fs::{
    empty_file, empty_file_v, entries_view, es_filter, es_get, es_has, es_put, fresh_dir, fresh_dir_v,
    under_pred, FileNode, FsNode, NodeV, VirtualFs,
};
use crate::model::instruction::CopySource;
use crate::model::provenance::{fresh_prov, Provenance, ProvenanceSource, SrcV};
use crate::model::state::{LayerSummary, PreviewState, StageRegistry, StateV};
use crate::model::warning::{lemma_wviews_push, WarnV, Warning, wviews};
use crate::path::{
    abs_path, abs_path_exec, canon, canon_exec, dotdot, is_abs, join_path, join_path_exec,
    joined_segs, lemma_canon_abs_path, lemma_canon_idempotent, lemma_segs_append_wf, lemma_segs_wf,
    lemma_segs_slash, seg_keep, segs, segs_exec, wf_segs,
};
use crate::text::{
    append_chars, chars_of, copy_chars, ends_with, lemma_sviews_push, lemma_vviews_push, string_of,
    sviews, vviews,
};

verus! {

/// `es` after adding a fresh directory (created by `src`) at each of the
/// first `n - 1` proper prefixes of the segments `ss` that is missing,
/// shortest first.
pub open spec fn put_dirs(es: Seq<(Seq<char>, NodeV)>, ss: Seq<Seq<char>>, src: SrcV, n: int) -> Seq<
    (Seq<char>, NodeV),
>
    decreases n,
{
    if n <= 1 {
        es
    } else {
        let e = put_dirs(es, ss, src, n - 1);
        let p = abs_path(ss.take(n - 1));
        if es_has(e, p) {
            e
        } else {
            es_put(e, p, fresh_dir_v(src))
        }
    }
}

/// `es` after creating every missing ancestor directory of `path`, from the
/// root down (the root itself is implicit and never stored).
pub open spec fn ensure_anc(es: Seq<(Seq<char>, NodeV)>, path: Seq<char>, src: SrcV) -> Seq<
    (Seq<char>, NodeV),
> {
    put_dirs(es, segs(path), src, segs(path).len() as int)
}

/// Creating missing ancestors keeps every existing entry and leaves each
/// of the first `n - 1` prefixes of `ss` present.
pub proof fn lemma_put_dirs(es: Seq<(Seq<char>, NodeV)>, ss: Seq<Seq<char>>, src: SrcV, n: int)
    ensures
        forall|x: Seq<char>|
            es_has(es, x) ==> #[trigger] es_has(put_dirs(es, ss, src, n), x) && es_get(
                put_dirs(es, ss, src, n),
                x,
            ) == es_get(es, x),
        forall|k: int| 1 <= k < n ==> #[trigger] es_has(put_dirs(es, ss, src, n), abs_path(ss.take(k))),
    decreases n,
{
    if n > 1 {
        lemma_put_dirs(es, ss, src, n - 1);
        let e = put_dirs(es, ss, src, n - 1);
        let p = abs_path(ss.take(n - 1));
        assert forall|x: Seq<char>| es_has(es, x) implies #[trigger] es_has(put_dirs(es, ss, src, n), x)
            && es_get(put_dirs(es, ss, src, n), x) == es_get(es, x) by {
            assert(es_has(put_dirs(es, ss, src, n - 1), x));
            if !es_has(e, p) {
                crate::model::fs::lemma_es_put(e, p, fresh_dir_v(src));
                assert(x != p);
            }
        }
        if !es_has(e, p) {
            crate::model::fs::lemma_es_put(e, p, fresh_dir_v(src));
            assert forall|k: int| 1 <= k < n implies #[trigger] es_has(put_dirs(es, ss, src, n), abs_path(ss.take(k))) by {
                if k < n - 1 {
                    assert(es_has(e, abs_path(ss.take(k))));
                }
            }
        }
    }
}

/// After creating the ancestors of `path`, every proper ancestor is present
/// and every existing entry is unchanged.
pub proof fn lemma_ensure_anc(es: Seq<(Seq<char>, NodeV)>, path: Seq<char>, src: SrcV)
    ensures
        forall|x: Seq<char>| es_has(es, x) ==> #[trigger] es_has(ensure_anc(es, path, src), x),
        forall|x: Seq<char>| es_has(es, x) ==> #[trigger] es_get(ensure_anc(es, path, src), x) == es_get(es, x),
        forall|k: int|
            1 <= k < segs(path).len() ==> #[trigger] es_has(ensure_anc(es, path, src), abs_path(segs(path).take(k))),
{
    lemma_put_dirs(es, segs(path), src, segs(path).len() as int);
    let e = ensure_anc(es, path, src);
    assert(e == put_dirs(es, segs(path), src, segs(path).len() as int));
    assert forall|x: Seq<char>| es_has(es, x) implies #[trigger] es_has(e, x) by {
        assert(es_has(put_dirs(es, segs(path), src, segs(path).len() as int), x));
    }
    assert forall|x: Seq<char>| es_has(es, x) implies #[trigger] es_get(e, x) == es_get(es, x) by {
        assert(es_has(put_dirs(es, segs(path), src, segs(path).len() as int), x));
    }
    assert forall|k: int| 1 <= k < segs(path).len() implies #[trigger] es_has(
        ensure_anc(es, path, src),
        abs_path(segs(path).take(k)),
    ) by {
        assert(es_has(put_dirs(es, segs(path), src, segs(path).len() as int), abs_path(segs(path).take(k))));
    }
}

/// A prefix of well-formed segments is well formed.
pub proof fn lemma_take_wf(ss: Seq<Seq<char>>, k: int)
    requires
        wf_segs(ss),
        0 <= k <= ss.len(),
    ensures
        wf_segs(ss.take(k)),
{
    assert forall|i: int| 0 <= i < ss.take(k).len() implies (#[trigger] ss.take(k)[i]).len() > 0
        && ss.take(k)[i] != seq!['.'] && !ss.take(k)[i].contains('/') by {
        assert(ss.take(k)[i] == ss[i]);
    }
}

/// Creates, root first, a fresh directory at each missing ancestor of
/// `path`.
pub fn ensure_ancestors(fs: &mut VirtualFs, path: &Vec<char>, src: &ProvenanceSource)
    ensures
        final(fs).ev() == ensure_anc(old(fs).ev(), path@, src@),
{
    let ghost es0 = fs.ev();
    let ghost ssv = segs(path@);
    let ss = segs_exec(path);
    proof {
        lemma_segs_wf(path@);
    }
    let mut prefix: Vec<Vec<char>> = Vec::new();
    let mut k: usize = 1;
    while k < ss.len()
        invariant
            vviews(ss@) == ssv,
            wf_segs(ssv),
            1 <= k,
            k <= ss@.len() || (ss@.len() == 0 && k == 1),
            vviews(prefix@) == ssv.take(k - 1),
            fs.ev() == put_dirs(es0, ssv, src@, k as int),
        decreases ss.len() - k,
    {
        let ghost pre = prefix@;
        let seg = copy_chars(&ss[k - 1]);
        prefix.push(seg);
        proof {
            lemma_vviews_push(pre, seg);
            assert(ssv.take(k as int) =~= ssv.take(k - 1).push(ssv[k - 1]));
            lemma_take_wf(ssv, k as int);
            lemma_canon_abs_path(ssv.take(k as int));
        }
        let p = abs_path_exec(&prefix);
        if !fs.contains_key(&p) {
            fs.insert_key(p, fresh_dir(src.dup()));
        }
        k = k + 1;
    }
    proof {
        assert(ssv.len() == ss@.len());
        if ss@.len() == 0 {
            assert(put_dirs(es0, ssv, src@, 0) == es0);
            assert(put_dirs(es0, ssv, src@, 1) == es0);
        }
    }
}

// ───────────────────────── host snapshots ─────────────────────────

/// One entry of a host directory copied by COPY.
#[derive(Debug, Clone, PartialEq)]
pub struct HostEntry {
    /// The entry's path relative to the copied directory.
    pub rel_path: String,
    /// The entry's full host path, recorded as its provenance.
    pub host_path: String,
    /// Whether the entry is a directory (otherwise a regular file).
    pub is_dir: bool,
    /// The file's bytes (empty for a directory).
    pub content: Vec<u8>,
}

/// What the host build context holds at a COPY source path.
#[derive(Debug, Clone, PartialEq)]
pub enum HostSource {
    /// Nothing exists there.
    Missing,
    /// A regular file with these bytes.
    File { content: Vec<u8> },
    /// A directory, with its entries in walk order (each directory before
    /// what it holds).
    Dir { entries: Vec<HostEntry> },
    /// Something that is neither a file nor a directory.
    Other,
    /// Reading failed at `path` for a reason other than "not found".
    Unreadable { path: String, message: String },
}

/// `rel` appended to `base` as `PathBuf::join` does: an absolute `rel`
/// replaces `base`; otherwise a `/` is put between them when `base` is
/// non-empty and does not already end with one.
pub open spec fn host_join(base: Seq<char>, rel: Seq<char>) -> Seq<char> {
    if is_abs(rel) || base.len() == 0 {
        rel
    } else if base.last() == '/' {
        base + rel
    } else {
        base + seq!['/'] + rel
    }
}

/// Joining as `PathBuf::join` does and then splitting gives the segments
/// of the base followed by those of a relative path (those of an absolute
/// one alone).
pub proof fn lemma_segs_host_join(base: Seq<char>, rel: Seq<char>)
    ensures
        segs(host_join(base, rel)) == joined_segs(base, rel),
{
    let e = Seq::<char>::empty();
    assert(segs(e) =~= Seq::<Seq<char>>::empty()) by {
        assert(!seg_keep()(e));
    }
    if is_abs(rel) {
    } else if base.len() == 0 {
        assert(segs(base) + segs(rel) =~= segs(rel));
    } else if base.last() == '/' {
        let b0 = base.drop_last();
        assert(base =~= b0 + seq!['/'] + e);
        assert(base + rel =~= b0 + seq!['/'] + rel);
        lemma_segs_slash(b0, e);
        lemma_segs_slash(b0, rel);
        assert(segs(b0) + segs(e) =~= segs(b0));
    } else {
        lemma_segs_slash(base, rel);
    }
}

/// The last segment of `p`, unless `p` has none or ends in `..`.
pub open spec fn file_name(p: Seq<char>) -> Option<Seq<char>> {
    if segs(p).len() == 0 || segs(p).last() == dotdot() {
        None
    } else {
        Some(segs(p).last())
    }
}

/// Where a single file copied from `src` lands under `dest`: inside it
/// (under the file's own name) when `dest` was written with a trailing
/// slash, at `dest` itself otherwise.
pub open spec fn file_target(dest: Seq<char>, src: Seq<char>, trailing: bool) -> Option<Seq<char>> {
    if trailing {
        match file_name(src) {
            Some(n) => Some(host_join(dest, n)),
            None => None,
        }
    } else {
        Some(dest)
    }
}

/// `node` stored at `key` after the missing ancestors of `key` are created
/// with `src`; `key` is recorded as changed.
pub open spec fn place(s: SimV, key: Seq<char>, node: NodeV, src: SrcV) -> SimV {
    SimV { es: es_put(ensure_anc(s.es, key, src), key, node), files: s.files.push(key), ..s }
}

/// A file read from the host path `hp`.
pub open spec fn host_file_v(content: Seq<u8>, hp: Seq<char>) -> NodeV {
    NodeV::File { content, prov: fresh_prov(SrcV::CopyFromHost(hp)), permissions: None }
}

/// One entry of a copied host directory, placed below `rd`: a directory is
/// created when missing, a file is written; either is recorded as changed.
pub open spec fn host_entry_step(s: SimV, rd: Seq<char>, e: HostEntry) -> SimV {
    let key = canon(host_join(rd, e.rel_path@));
    let src = SrcV::CopyFromHost(e.host_path@);
    if e.is_dir {
        let es1 = ensure_anc(s.es, key, src);
        SimV {
            es: if es_has(es1, key) {
                es1
            } else {
                es_put(es1, key, fresh_dir_v(src))
            },
            files: s.files.push(key),
            ..s
        }
    } else {
        place(s, key, host_file_v(e.content@, e.host_path@), src)
    }
}

/// The entries of a copied host directory, in order.
pub open spec fn host_entries(s: SimV, rd: Seq<char>, entries: Seq<HostEntry>) -> SimV
    decreases entries.len(),
{
    if entries.len() == 0 {
        s
    } else {
        host_entry_step(host_entries(s, rd, entries.drop_last()), rd, entries.last())
    }
}

/// COPY from the host path `hp` (the build context joined with `src_rel`)
/// to `dest`, given what the host holds there. A missing source is a
/// warning and leaves an empty placeholder file.
pub open spec fn copy_host(
    s: SimV,
    cwd: Seq<char>,
    src_rel: Seq<char>,
    dest: Seq<char>,
    hp: Seq<char>,
    snap: HostSource,
) -> SimV {
    let rd = join_path(cwd, dest);
    let t = file_target(rd, src_rel, ends_with(dest, seq!['/']));
    let src = SrcV::CopyFromHost(hp);
    match snap {
        HostSource::Missing => {
            let w = SimV { warns: s.warns.push(WarnV::MissingCopySource(hp)), ..s };
            match t {
                Some(p) => place(w, canon(p), empty_file_v(src), src),
                None => w,
            }
        },
        HostSource::File { content } => match t {
            Some(p) => place(s, canon(p), host_file_v(content@, hp), src),
            None => s,
        },
        HostSource::Dir { entries } => host_entries(s, rd, entries@),
        _ => s,
    }
}

/// COPY `--from` a stage, given that stage's state (`None` when no stage
/// has that name): the node at `src_path` in the stage, and everything
/// below it, is re-created at the destination.
pub open spec fn copy_stage(
    s: SimV,
    cwd: Seq<char>,
    name: Seq<char>,
    src_path: Seq<char>,
    dest: Seq<char>,
    line: nat,
    stage: Option<StateV>,
) -> SimV {
    match stage {
        None => SimV { warns: s.warns.push(WarnV::MissingCopyStage(name, line)), ..s },
        Some(st) => {
            let sp = join_path(seq!['/'], src_path);
            if !es_has(st.es, sp) {
                SimV { warns: s.warns.push(WarnV::MissingCopySource(src_path)), ..s }
            } else {
                let rd = join_path(cwd, dest);
                let t = if es_get(st.es, sp) is Dir {
                    Some(rd)
                } else {
                    file_target(rd, src_path, ends_with(dest, seq!['/']))
                };
                match t {
                    Some(p) => relocate(
                        s,
                        es_filter(st.es, under_pred(sp)),
                        segs(sp),
                        segs(canon(p)),
                        SrcV::CopyFromStage(name),
                    ),
                    None => s,
                }
            }
        },
    }
}

/// The stage recorded under `name`, by its view.
pub open spec fn stage_view(reg: Map<Seq<char>, PreviewState>, name: Seq<char>) -> Option<StateV> {
    if reg.contains_key(name) {
        Some(reg[name]@)
    } else {
        None
    }
}

fn host_join_exec(base: &Vec<char>, rel: &Vec<char>) -> (r: Vec<char>)
    ensures
        r@ == host_join(base@, rel@),
{
    if (rel.len() > 0 && rel[0] == '/') || base.len() == 0 {
        return copy_chars(rel);
    }
    let mut r = copy_chars(base);
    if base[base.len() - 1] != '/' {
        r.push('/');
    }
    append_chars(&mut r, rel);
    proof {
        if base@.last() != '/' {
            assert(r@ =~= base@ + seq!['/'] + rel@);
        }
    }
    r
}

/// `rel` joined onto `base` as `PathBuf::join` does.
pub fn join_host_path(base: &str, rel: &str) -> (r: String)
    ensures
        r@ == host_join(base@, rel@),
{
    let b = chars_of(base);
    let p = chars_of(rel);
    let r = host_join_exec(&b, &p);
    string_of(&r)
}

pub(crate) fn file_name_of(p: &Vec<char>) -> (r: Option<Vec<char>>)
    ensures
        match r {
            Some(n) => file_name(p@) == Some(n@),
            None => file_name(p@) is None,
        },
{
    let ss = segs_exec(p);
    if ss.len() == 0 {
        return None;
    }
    let last = &ss[ss.len() - 1];
    assert(vviews(ss@).last() == last@);
    if last.len() == 2 && last[0] == '.' && last[1] == '.' {
        assert(last@ =~= dotdot());
        return None;
    }
    assert(last@ != dotdot()) by {
        if last@ == dotdot() {
            assert(last@.len() == 2 && last@[0] == '.' && last@[1] == '.');
        }
    }
    Some(copy_chars(last))
}

fn file_target_exec(dest: &Vec<char>, src: &Vec<char>, trailing: bool) -> (r: Option<Vec<char>>)
    ensures
        match r {
            Some(t) => file_target(dest@, src@, trailing) == Some(t@),
            None => file_target(dest@, src@, trailing) is None,
        },
{
    if trailing {
        match file_name_of(src) {
            Some(n) => Some(host_join_exec(dest, &n)),
            None => None,
        }
    } else {
        Some(copy_chars(dest))
    }
}

/// The destination of a single-file COPY: `dest` joined with the source's
/// file name when `dest` was written with a trailing slash (`None` when the
/// source has no file name, such as `..`), `dest` itself otherwise.
pub fn resolve_file_dest(dest: &str, src_rel: &str, had_trailing_slash: bool) -> (r: Option<String>)
    ensures
        match r {
            Some(t) => file_target(dest@, src_rel@, had_trailing_slash) == Some(t@),
            None => file_target(dest@, src_rel@, had_trailing_slash) is None,
        },
{
    let d = chars_of(dest);
    let s = chars_of(src_rel);
    match file_target_exec(&d, &s, had_trailing_slash) {
        Some(t) => Some(string_of(&t)),
        None => None,
    }
}

fn place_exec(fs: &mut VirtualFs, files: &mut Vec<String>, key: &Vec<char>, node: FsNode, src: &ProvenanceSource)
    requires
        canon(key@) == key@,
    ensures
        final(fs).ev() == es_put(ensure_anc(old(fs).ev(), key@, src@), key@, node@),
        sviews(final(files)@) == sviews(old(files)@).push(key@),
{
    ensure_ancestors(fs, key, src);
    fs.insert_key(copy_chars(key), node);
    let s = string_of(key);
    proof {
        lemma_sviews_push(files@, s);
    }
    files.push(s);
}

fn canon_of(p: &Vec<char>) -> (r: Vec<char>)
    ensures
        r@ == canon(p@),
        canon(r@) == r@,
{
    proof {
        lemma_canon_idempotent(p@);
    }
    canon_exec(p)
}

fn host_entries_exec(
    fs: &mut VirtualFs,
    warns: &Vec<Warning>,
    files: &mut Vec<String>,
    rd: &Vec<char>,
    entries: &Vec<HostEntry>,
)
    ensures
        sim_of(*final(fs), warns@, final(files)@) == host_entries(sim_of(*old(fs), warns@, old(files)@), rd@, entries@),
{
    let ghost s0 = sim_of(*fs, warns@, files@);
    let mut i: usize = 0;
    while i < entries.len()
        invariant
            i <= entries@.len(),
            sim_of(*fs, warns@, files@) == host_entries(s0, rd@, entries@.take(i as int)),
        decreases entries.len() - i,
    {
        let e = &entries[i];
        let rel = chars_of(e.rel_path.as_str());
        let joined = host_join_exec(rd, &rel);
        let key = canon_of(&joined);
        let src = ProvenanceSource::CopyFromHost { host_path: e.host_path.clone() };
        if e.is_dir {
            ensure_ancestors(fs, &key, &src);
            if !fs.contains_key(&key) {
                fs.insert_key(copy_chars(&key), fresh_dir(src));
            }
            let s = string_of(&key);
            proof {
                lemma_sviews_push(files@, s);
            }
            files.push(s);
        } else {
            let c = e.content.clone();
            assert(c@ =~= e.content@);
            let node = FsNode::File(FileNode { content: c, provenance: Provenance::new(src.dup()), permissions: None });
            place_exec(fs, files, &key, node, &src);
        }
        assert(entries@.take(i + 1).drop_last() =~= entries@.take(i as int));
        assert(entries@.take(i + 1).last() == entries@[i as int]);
        i = i + 1;
    }
    assert(entries@.take(entries@.len() as int) =~= entries@);
}

/// The result of a COPY: on success, the layer summary that lists every
/// changed path; otherwise the error a host read reported.
pub open spec fn copy_result_ok(
    old_state: PreviewState,
    new_state: PreviewState,
    layer: LayerSummary,
    expected: SimV,
) -> bool {
    &&& sim_of(new_state.fs, new_state.warnings@, layer.files_changed@) == expected
    &&& old_state.same_except_fs_warnings(&new_state)
    &&& layer.instruction_type@ == "COPY"@
    &&& layer.env_changed@.len() == 0
}

/// Applies a COPY to the state. A host source is described by `host`, what
/// the build context (`context_dir`) holds at the source path; a stage
/// source is looked up in `registry`. Relative destinations are joined to
/// the working directory.
pub fn handle_copy(
    state: &mut PreviewState,
    source: &CopySource,
    dest: &str,
    host: &HostSource,
    context_dir: &str,
    line: usize,
    registry: &StageRegistry,
) -> (r: Result<LayerSummary, EngineError>)
    ensures
        match source {
            CopySource::Host(src_rel) => match host {
                HostSource::Unreadable { path, message } => match r {
                    Err(EngineError::Io { path: p, message: m }) => p@ == path@ && m@ == message@,
                    Ok(_) => false,
                },
                _ => match r {
                    Ok(layer) => copy_result_ok(
                        *old(state),
                        *final(state),
                        layer,
                        copy_host(
                            sim_of(old(state).fs, old(state).warnings@, seq![]),
                            old(state).cwd@,
                            src_rel@,
                            dest@,
                            host_join(context_dir@, src_rel@),
                            *host,
                        ),
                    ),
                    Err(_) => false,
                },
            },
            CopySource::Stage { name, src_path } => match r {
                Ok(layer) => copy_result_ok(
                    *old(state),
                    *final(state),
                    layer,
                    copy_stage(
                        sim_of(old(state).fs, old(state).warnings@, seq![]),
                        old(state).cwd@,
                        name@,
                        src_path@,
                        dest@,
                        line as nat,
                        stage_view(registry@, name@),
                    ),
                ),
                Err(_) => false,
            },
        },
{
    let cwd = chars_of(state.cwd.as_str());
    let d = chars_of(dest);
    let rd = join_path_exec(&cwd, &d);
    proof {
        lemma_segs_wf(cwd@);
        lemma_segs_wf(d@);
        lemma_segs_append_wf(segs(cwd@), segs(d@));
        lemma_canon_abs_path(joined_segs(cwd@, d@));
    }
    let trailing = d.len() > 0 && d[d.len() - 1] == '/';
    assert(trailing == ends_with(d@, seq!['/'])) by {
        if d@.len() > 0 {
            assert(d@.skip(d@.len() - 1) =~= seq![d@[d@.len() - 1]]);
        }
    }
    let mut files: Vec<String> = Vec::new();
    assert(sim_of(state.fs, state.warnings@, files@) == sim_of(old(state).fs, old(state).warnings@, seq![])) by {
        assert(sviews(files@) =~= sviews(Seq::<String>::empty()));
    }
    match source {
        CopySource::Host(src_rel) => {
            let sr = chars_of(src_rel.as_str());
            let ctx = chars_of(context_dir);
            let hp = host_join_exec(&ctx, &sr);
            let how = ProvenanceSource::CopyFromHost { host_path: string_of(&hp) };
            match host {
                HostSource::Unreadable { path, message } => {
                    return Err(EngineError::Io { path: path.clone(), message: message.clone() });
                },
                HostSource::Missing => {
                    let w = Warning::MissingCopySource { path: string_of(&hp) };
                    proof {
                        lemma_wviews_push(state.warnings@, w);
                    }
                    state.warnings.push(w);
                    match file_target_exec(&rd, &sr, trailing) {
                        Some(t) => {
                            let key = canon_of(&t);
                            place_exec(&mut state.fs, &mut files, &key, empty_file(how.dup()), &how);
                        },
                        None => {},
                    }
                },
                HostSource::File { content } => {
                    match file_target_exec(&rd, &sr, trailing) {
                        Some(t) => {
                            let key = canon_of(&t);
                            let c = content.clone();
                            assert(c@ =~= content@);
                            let node = FsNode::File(
                                FileNode { content: c, provenance: Provenance::new(how.dup()), permissions: None },
                            );
                            place_exec(&mut state.fs, &mut files, &key, node, &how);
                        },
                        None => {},
                    }
                },
                HostSource::Dir { entries } => {
                    host_entries_exec(&mut state.fs, &state.warnings, &mut files, &rd, entries);
                },
                HostSource::Other => {},
            }
        },
        CopySource::Stage { name, src_path } => {
            match registry.get(name.as_str()) {
                None => {
                    let w = Warning::MissingCopyStage { stage: name.clone(), line };
                    proof {
                        lemma_wviews_push(state.warnings@, w);
                    }
                    state.warnings.push(w);
                },
                Some(stage) => {
                    let root = vec!['/'];
                    let spv = chars_of(src_path.as_str());
                    let sp = join_path_exec(&root, &spv);
                    proof {
                        assert(root@ =~= seq!['/']);
                    }
                    match stage.fs.get_key(&sp) {
                        None => {
                            let w = Warning::MissingCopySource { path: src_path.clone() };
                            proof {
                                lemma_wviews_push(state.warnings@, w);
                            }
                            state.warnings.push(w);
                        },
                        Some(node) => {
                            let is_dir = match node {
                                FsNode::Directory(_) => true,
                                _ => false,
                            };
                            let t = if is_dir {
                                Some(copy_chars(&rd))
                            } else {
                                file_target_exec(&rd, &spv, trailing)
                            };
                            match t {
                                Some(t) => {
                                    let key = canon_of(&t);
                                    let ghost es0 = stage.fs.ev();
                                    let items = stage.fs.clone_under(&sp);
                                    let from = segs_exec(&sp);
                                    let to = segs_exec(&key);
                                    proof {
                                        lemma_segs_wf(key@);
                                        crate::model::fs::lemma_es_filter(es0, under_pred(sp@));
                                        assert forall|j: int| 0 <= j < items@.len() implies from@.len() <= segs(
                                            (#[trigger] items@[j]).0@,
                                        ).len() by {
                                            assert(entries_view(items@)[j].0 == items@[j].0@);
                                            assert(under_pred(sp@)(entries_view(items@)[j].0));
                                        }
                                    }
                                    let how = ProvenanceSource::CopyFromStage { stage: name.clone() };
                                    relocate_exec(&mut state.fs, &state.warnings, &mut files, &items, &from, &to, &how);
                                },
                                None => {},
                            }
                        },
                    }
                },
            }
        },
    }
    Ok(LayerSummary { instruction_type: String::from_str("COPY"), files_changed: files, env_changed: Vec::new() })
}

} // verus!
