//! Properties of the simulation engine, stated over its models.

use vstd::prelude::*;
use crate::engine::copy::{ensure_anc, host_join, lemma_ensure_anc, lemma_segs_host_join};
use crate::engine::run_sim::{
    chain_pieces, dispatch, head_word, lemma_resolve, mkdir_one, rm_one, sub_commands, touch_one,
    trimmed_pieces, warn, SimV,
};
use crate::engine::runner::{
    copy_step, env_step, from_step, keyword_of, record, run_step, run_step_cmd, run_upto, unknown_step,
    workdir_step, RunV,
};
use crate::engine::copy::{host_entries, host_entry_step, HostEntry, HostSource};
use crate::model::instruction::CopySource;
use crate::model::fs::{
    es_filter, es_get, es_has, es_map, es_put, es_unique, lemma_es_filter, lemma_es_map, lemma_es_put,
    outside_pred, NodeV,
};
use crate::model::instruction::Instruction;
use crate::model::state::{index_key, index_keys, lemma_index_key, parses_as_usize, reg_insert, StateV};
use crate::model::warning::ReasonV;
use crate::path::{
    abs_path, canon, dotdot, is_abs, is_under, join_path, joined_segs, lemma_norm_fixed, lemma_norm_wf,
    lemma_segs_abs_path, lemma_segs_append_wf, lemma_segs_wf, norm, resolve, segs,
};
use crate::text::{find_from, is_ws, matches_at, trim, trim_end, trim_start, words};
use crate::engine::compose::{apply_env_lines, comment_from, comment_stripped, env_line, quoted, quotes_stripped};

verus! {

/// `mkdir -p` leaves the directory and every one of its ancestors present.
pub proof fn law_mkdir_parents_creates_ancestors(s: SimV, cwd: Seq<char>, raw: Seq<char>, cmd: Seq<char>)
    ensures
        es_has(mkdir_one(s, cwd, raw, true, cmd).es, resolve(cwd, raw)),
        forall|k: int|
            1 <= k <= segs(resolve(cwd, raw)).len() ==> #[trigger] es_has(
                mkdir_one(s, cwd, raw, true, cmd).es,
                abs_path(segs(resolve(cwd, raw)).take(k)),
            ),
{
    let path = resolve(cwd, raw);
    let src = crate::engine::run_sim::run_src(cmd);
    lemma_resolve(cwd, raw);
    lemma_ensure_anc(s.es, path, src);
    let e = ensure_anc(s.es, path, src);
    lemma_es_put(e, path, crate::model::fs::fresh_dir_v(src));
    let r = mkdir_one(s, cwd, raw, true, cmd).es;
    assert(segs(path).take(segs(path).len() as int) =~= segs(path));
    assert(abs_path(segs(path)) == path);
    assert forall|k: int| 1 <= k <= segs(path).len() implies #[trigger] es_has(r, abs_path(segs(path).take(k))) by {
        if k < segs(path).len() {
            assert(es_has(e, abs_path(segs(path).take(k))));
        }
    }
}

/// `touch` on a path that already holds a node leaves that node unchanged.
pub proof fn law_touch_keeps_existing_node(s: SimV, cwd: Seq<char>, raw: Seq<char>, cmd: Seq<char>)
    requires
        es_has(s.es, resolve(cwd, raw)),
    ensures
        es_has(touch_one(s, cwd, raw, cmd).es, resolve(cwd, raw)),
        es_get(touch_one(s, cwd, raw, cmd).es, resolve(cwd, raw)) == es_get(s.es, resolve(cwd, raw)),
        touch_one(s, cwd, raw, cmd).files == s.files,
{
    let path = resolve(cwd, raw);
    lemma_ensure_anc(s.es, path, crate::engine::run_sim::run_src(cmd));
}

/// `rm -r` of the root is refused: the filesystem is unchanged and exactly
/// one warning is added.
pub proof fn law_rm_recursive_root_keeps_fs(s: SimV, cwd: Seq<char>, raw: Seq<char>)
    requires
        resolve(cwd, raw) == seq!['/'],
    ensures
        rm_one(s, cwd, raw, true).es == s.es,
        rm_one(s, cwd, raw, true).files == s.files,
        rm_one(s, cwd, raw, true).warns.len() == s.warns.len() + 1,
{
}

/// `rm -r` of any other path removes exactly that path and everything below
/// it (a sibling that merely shares a name prefix stays).
pub proof fn law_rm_recursive_removes_subtree(s: SimV, cwd: Seq<char>, raw: Seq<char>, k: Seq<char>)
    requires
        resolve(cwd, raw) != seq!['/'],
        es_unique(s.es),
    ensures
        es_has(rm_one(s, cwd, raw, true).es, k) <==> (es_has(s.es, k) && !is_under(resolve(cwd, raw), k)),
{
    let path = resolve(cwd, raw);
    lemma_es_filter(s.es, outside_pred(path));
    lemma_es_map(s.es);
    lemma_es_map(es_filter(s.es, outside_pred(path)));
    assert(es_map(es_filter(s.es, outside_pred(path))).contains_key(k) <==> (es_map(s.es).contains_key(k)
        && outside_pred(path)(k)));
}

/// A sub-command outside the modeled set only adds an "unrecognised"
/// warning: the filesystem and the changed paths are untouched.
pub proof fn law_unmodeled_command_only_warns(s: SimV, cwd: Seq<char>, cmd: Seq<char>)
    requires
        head_word(words(cmd)) != "mkdir"@,
        head_word(words(cmd)) != "touch"@,
        head_word(words(cmd)) != "rm"@,
        head_word(words(cmd)) != "mv"@,
        head_word(words(cmd)) != "cp"@,
    ensures
        dispatch(s, cwd, cmd) == warn(s, cmd, ReasonV::Unrecognised),
        dispatch(s, cwd, cmd).es == s.es,
        dispatch(s, cwd, cmd).files == s.files,
{
}

proof fn lemma_trimmed_pieces_nonempty(ps: Seq<Seq<char>>)
    ensures
        forall|i: int| 0 <= i < trimmed_pieces(ps).len() ==> #[trigger] trimmed_pieces(ps)[i].len() > 0,
    decreases ps.len(),
{
    if ps.len() > 0 {
        lemma_trimmed_pieces_nonempty(ps.drop_last());
        let r = trimmed_pieces(ps.drop_last());
        assert forall|i: int| 0 <= i < trimmed_pieces(ps).len() implies #[trigger] trimmed_pieces(ps)[i].len() > 0 by {
            if i < r.len() {
                assert(trimmed_pieces(ps)[i] == r[i]);
            }
        }
    }
}

proof fn lemma_chain_pieces_nonempty(segments: Seq<Seq<char>>)
    ensures
        forall|i: int| 0 <= i < chain_pieces(segments).len() ==> #[trigger] chain_pieces(segments)[i].len() > 0,
    decreases segments.len(),
{
    if segments.len() > 0 {
        lemma_chain_pieces_nonempty(segments.drop_last());
        let a = chain_pieces(segments.drop_last());
        let b = trimmed_pieces(crate::text::split_on(segments.last(), seq![';']));
        lemma_trimmed_pieces_nonempty(crate::text::split_on(segments.last(), seq![';']));
        assert forall|i: int| 0 <= i < chain_pieces(segments).len() implies #[trigger] chain_pieces(segments)[i].len() > 0 by {
            if i < a.len() {
                assert(chain_pieces(segments)[i] == a[i]);
            } else {
                assert(chain_pieces(segments)[i] == b[i - a.len()]);
            }
        }
    }
}

/// A RUN command line never yields an empty sub-command.
pub proof fn law_sub_commands_nonempty(raw: Seq<char>)
    ensures
        forall|i: int| 0 <= i < sub_commands(raw).len() ==> #[trigger] sub_commands(raw)[i].len() > 0,
{
    lemma_chain_pieces_nonempty(crate::text::split_on(raw, seq!['&', '&']));
}

/// WORKDIR makes the path joined to the working directory (spelled as
/// `PathBuf::join` spells it) the new working directory; it names the
/// joined segments, and the directory at those segments exists afterwards.
pub proof fn law_workdir_creates_cwd(st: crate::model::state::StateV, path: Seq<char>, line: nat)
    ensures
        workdir_step(st, path, line).cwd == host_join(st.cwd, path),
        segs(workdir_step(st, path, line).cwd) == joined_segs(st.cwd, path),
        es_has(workdir_step(st, path, line).es, join_path(st.cwd, path)),
{
    let nc = join_path(st.cwd, path);
    let es1 = ensure_anc(st.es, nc, crate::model::provenance::SrcV::Workdir);
    lemma_es_put(es1, nc, crate::model::fs::fresh_dir_v(crate::model::provenance::SrcV::Workdir));
    lemma_segs_host_join(st.cwd, path);
}

/// ENV sets the variable to the value, leaving every other variable alone.
pub proof fn law_env_sets_variable(
    st: crate::model::state::StateV,
    key: Seq<char>,
    value: Seq<char>,
    line: nat,
    other: Seq<char>,
)
    requires
        other != key,
    ensures
        env_step(st, key, value, line).env.contains_key(key),
        env_step(st, key, value, line).env[key] == value,
        env_step(st, key, value, line).env.contains_key(other) == st.env.contains_key(other),
        env_step(st, key, value, line).env[other] == st.env[other],
{
}

/// RUN never changes the working directory or the environment.
pub proof fn law_run_keeps_cwd_and_env(st: crate::model::state::StateV, command: Seq<char>, line: nat)
    ensures
        run_step_cmd(st, command, line).cwd == st.cwd,
        run_step_cmd(st, command, line).env == st.env,
{
}

/// Every instruction adds exactly one history entry and one layer to the
/// current stage, so the two always have the same length.
pub proof fn law_history_matches_layers(
    ins: Seq<Instruction>,
    hosts: Seq<HostSource>,
    ctx: Seq<char>,
    n: nat,
)
    ensures
        run_upto(ins, hosts, ctx, n).st.history.len() == run_upto(ins, hosts, ctx, n).st.layers.len(),
        run_upto(ins, hosts, ctx, n).index <= n,
    decreases n,
{
    if n > 0 {
        law_history_matches_layers(ins, hosts, ctx, (n - 1) as nat);
    }
}

/// How many of `ins` are FROM instructions.
pub open spec fn from_count(ins: Seq<Instruction>) -> nat
    decreases ins.len(),
{
    if ins.len() == 0 {
        0
    } else {
        from_count(ins.drop_last()) + if ins.last() is From {
            1nat
        } else {
            0nat
        }
    }
}

/// No FROM of `ins` names its stage with an alias that reads as a number.
pub open spec fn aliases_not_numeric(ins: Seq<Instruction>) -> bool {
    forall|i: int|
        0 <= i < ins.len() ==> match #[trigger] ins[i] {
            Instruction::From { alias: Some(a), .. } => !parses_as_usize(a@),
            _ => true,
        }
}

/// The keys of the first `m` stage indices.
pub open spec fn first_index_keys(m: nat) -> Set<Seq<char>> {
    Set::new(|k: Seq<char>| exists|j: nat| j < m && k == #[trigger] index_key(j as usize))
}

proof fn lemma_first_index_keys(m: nat)
    requires
        m <= usize::MAX + 1,
    ensures
        first_index_keys(m).finite(),
        first_index_keys(m).len() == m,
    decreases m,
{
    if m == 0 {
        assert(first_index_keys(0) =~= Set::<Seq<char>>::empty());
    } else {
        let p = (m - 1) as nat;
        lemma_first_index_keys(p);
        let k = index_key(p as usize);
        assert(first_index_keys(m) =~= first_index_keys(p).insert(k)) by {
            assert forall|x: Seq<char>| first_index_keys(m).contains(x) implies #[trigger] first_index_keys(p).insert(k).contains(x) by {
                let j = choose|j: nat| j < m && x == #[trigger] index_key(j as usize);
                if j < p {
                    assert(first_index_keys(p).contains(x));
                }
            }
            assert(first_index_keys(m).contains(k));
        }
        if first_index_keys(p).contains(k) {
            let j = choose|j: nat| j < p && k == #[trigger] index_key(j as usize);
            lemma_index_key(j, p);
        }
    }
}

/// What the first `n` instructions leave behind, when the first is a FROM:
/// one filed stage per FROM but the last, under the indices `0..index`.
proof fn lemma_run_stages(ins: Seq<Instruction>, hosts: Seq<HostSource>, ctx: Seq<char>, n: nat)
    requires
        1 <= n <= ins.len(),
        ins.len() <= usize::MAX,
        ins[0] is From,
        aliases_not_numeric(ins),
    ensures
        run_upto(ins, hosts, ctx, n).index + 1 == from_count(ins.take(n as int)),
        run_upto(ins, hosts, ctx, n).st.history.len() > 0,
        run_upto(ins, hosts, ctx, n).alias matches Some(a) ==> !parses_as_usize(a),
        index_keys(run_upto(ins, hosts, ctx, n).reg.dom()) == first_index_keys(run_upto(ins, hosts, ctx, n).index),
    decreases n,
{
    let f = run_upto(ins, hosts, ctx, n);
    let t = ins.take(n as int);
    assert(t.drop_last() =~= ins.take(n - 1));
    assert(t.last() == ins[n - 1]);
    assert(from_count(t) == from_count(ins.take(n - 1)) + if ins[n - 1] is From {
        1nat
    } else {
        0nat
    });
    assert(aliases_not_numeric(ins) ==> match ins[n - 1] {
        Instruction::From { alias: Some(a), .. } => !parses_as_usize(a@),
        _ => true,
    });
    if n == 1 {
        assert(ins.take(0).len() == 0);
        assert(from_count(ins.take(0)) == 0);
        assert(f.reg =~= Map::<Seq<char>, StateV>::empty());
        assert(index_keys(f.reg.dom()) =~= first_index_keys(0)) by {
            assert forall|x: Seq<char>| !first_index_keys(0).contains(x) by {}
        }
    } else {
        let q = (n - 1) as nat;
        lemma_run_stages(ins, hosts, ctx, q);
        let r = run_upto(ins, hosts, ctx, q);
        assert(from_count(ins.take(q as int)) <= q) by {
            lemma_from_count_bound(ins.take(q as int));
        }
        if ins[n - 1] is From {
            let old_keys = first_index_keys(r.index);
            let new_key = index_key(r.index as usize);
            let mid = match r.alias {
                Some(a) => r.reg.insert(a, r.st),
                None => r.reg,
            };
            assert(f.reg == mid.insert(new_key, r.st));
            lemma_index_key(r.index, r.index);
            assert(index_keys(f.reg.dom()) =~= first_index_keys(f.index)) by {
                assert forall|x: Seq<char>| #[trigger] index_keys(f.reg.dom()).contains(x) <==> first_index_keys(f.index).contains(x) by {
                    if first_index_keys(f.index).contains(x) {
                        let j = choose|j: nat| j < f.index && x == #[trigger] index_key(j as usize);
                        if j < r.index {
                            assert(old_keys.contains(x));
                            assert(index_keys(r.reg.dom()).contains(x));
                        }
                    }
                    if index_keys(f.reg.dom()).contains(x) && x != new_key {
                        assert(index_keys(r.reg.dom()).contains(x));
                        let j = choose|j: nat| j < r.index && x == #[trigger] index_key(j as usize);
                        assert(j < f.index);
                    }
                    if x == new_key {
                        assert(f.index == r.index + 1);
                    }
                }
            }
        } else {
            assert(f.reg == r.reg && f.index == r.index && f.alias == r.alias);
        }
    }
}

proof fn lemma_from_count_bound(ins: Seq<Instruction>)
    ensures
        from_count(ins) <= ins.len(),
    decreases ins.len(),
{
    if ins.len() > 0 {
        lemma_from_count_bound(ins.drop_last());
    }
}

/// A Dockerfile that starts with FROM leaves one stage per FROM in the
/// registry (counted by index; no alias may read as a number, since such
/// an alias would be counted as one more index).
pub proof fn law_one_stage_per_from(ins: Seq<Instruction>, hosts: Seq<HostSource>, ctx: Seq<char>)
    requires
        ins.len() > 0,
        ins.len() <= usize::MAX,
        ins[0] is From,
        aliases_not_numeric(ins),
    ensures
        ({
            let f = run_upto(ins, hosts, ctx, ins.len());
            &&& index_keys(reg_insert(f.reg, f.index, f.alias, f.st).dom()).finite()
            &&& index_keys(reg_insert(f.reg, f.index, f.alias, f.st).dom()).len() == from_count(ins)
        }),
{
    let f = run_upto(ins, hosts, ctx, ins.len());
    lemma_run_stages(ins, hosts, ctx, ins.len());
    lemma_from_count_bound(ins);
    assert(ins.take(ins.len() as int) =~= ins);
    let m = f.index + 1;
    lemma_first_index_keys(m);
    lemma_index_key(f.index, f.index);
    let g = reg_insert(f.reg, f.index, f.alias, f.st);
    assert(index_keys(g.dom()) =~= first_index_keys(m)) by {
        assert forall|x: Seq<char>| #[trigger] index_keys(g.dom()).contains(x) <==> first_index_keys(m).contains(x) by {
            if first_index_keys(m).contains(x) {
                let j = choose|j: nat| j < m && x == #[trigger] index_key(j as usize);
                if j < f.index {
                    assert(first_index_keys(f.index).contains(x));
                    assert(index_keys(f.reg.dom()).contains(x));
                }
            }
            if index_keys(g.dom()).contains(x) && x != index_key(f.index as usize) {
                assert(index_keys(f.reg.dom()).contains(x));
                let j = choose|j: nat| j < f.index && x == #[trigger] index_key(j as usize);
                assert(j < m);
            }
        }
    }
}

/// Where the current stage starts among the first `n` instructions: at the
/// last FROM, or at the first instruction when there is none.
pub open spec fn stage_start(ins: Seq<Instruction>, n: nat) -> nat
    decreases n,
{
    if n == 0 {
        0
    } else if ins[n - 1] is From {
        (n - 1) as nat
    } else {
        stage_start(ins, (n - 1) as nat)
    }
}

/// The layer kind an instruction records: its keyword, upper-cased (for an
/// unknown instruction, its first word upper-cased).
pub open spec fn instruction_kind(i: Instruction) -> Seq<char> {
    match i {
        Instruction::From { .. } => "FROM"@,
        Instruction::Workdir { .. } => "WORKDIR"@,
        Instruction::Copy { .. } => "COPY"@,
        Instruction::Env { .. } => "ENV"@,
        Instruction::Run { .. } => "RUN"@,
        Instruction::Unknown { raw } => keyword_of(raw@),
    }
}

/// The current stage's history and layers hold one entry per instruction
/// from where the stage starts (its FROM) on, in order, each with its
/// 1-based line and the kind of its instruction.
pub proof fn law_stage_history_covers_its_instructions(
    ins: Seq<Instruction>,
    hosts: Seq<HostSource>,
    ctx: Seq<char>,
    n: nat,
)
    requires
        n <= ins.len(),
    ensures
        stage_start(ins, n) <= n,
        run_upto(ins, hosts, ctx, n).st.history.len() == n - stage_start(ins, n),
        run_upto(ins, hosts, ctx, n).st.layers.len() == n - stage_start(ins, n),
        forall|i: int|
            0 <= i < n - stage_start(ins, n) ==> {
                &&& (#[trigger] run_upto(ins, hosts, ctx, n).st.history[i]).line == stage_start(ins, n) + i + 1
                &&& run_upto(ins, hosts, ctx, n).st.layers[i].kind == instruction_kind(ins[stage_start(ins, n) + i])
            },
    decreases n,
{
    if n > 0 {
        let q = (n - 1) as nat;
        law_stage_history_covers_its_instructions(ins, hosts, ctx, q);
        let r = run_upto(ins, hosts, ctx, q);
        let f = run_upto(ins, hosts, ctx, n);
        let k = stage_start(ins, n);
        if ins[n - 1] is From {
            assert(f.st.history.len() == 1);
            assert(f.st.layers.len() == 1);
        } else {
            assert(k == stage_start(ins, q));
            assert(f.st.history == r.st.history.push(f.st.history.last()));
            assert(f.st.layers == r.st.layers.push(f.st.layers.last()));
            assert forall|i: int| 0 <= i < n - k implies {
                &&& (#[trigger] f.st.history[i]).line == k + i + 1
                &&& f.st.layers[i].kind == instruction_kind(ins[k + i])
            } by {
                if i < q - k {
                    assert(f.st.history[i] == r.st.history[i]);
                    assert(f.st.layers[i] == r.st.layers[i]);
                }
            }
        }
    }
}

/// Among a service's `environment` entries, the last one that sets a key
/// decides its value, whatever the env files or the Dockerfile set.
pub proof fn law_environment_last_entry_wins(
    st: crate::model::state::StateV,
    service: crate::model::compose::Service,
    reads: Seq<Option<String>>,
    i: int,
)
    requires
        0 <= i < service.environment@.len(),
        service.environment@[i] is KeyValue,
        forall|j: int|
            i < j < service.environment@.len() ==> !(#[trigger] service.environment@[j] matches crate::model::compose::EnvEntry::KeyValue { key, .. }
                && key@ == service.environment@[i]->KeyValue_key@),
    ensures
        crate::engine::compose::compose_overrides(st, service, reads).env.contains_key(
            service.environment@[i]->KeyValue_key@,
        ),
        crate::engine::compose::compose_overrides(st, service, reads).env[service.environment@[i]->KeyValue_key@]
            == service.environment@[i]->KeyValue_value@,
{
    let w1 = crate::engine::compose::apply_env_files(
        crate::engine::compose::EnvW { env: st.env, warns: st.warns },
        service.env_file@,
        reads,
    );
    lemma_environment_last_wins(w1, service.environment@, i);
}

proof fn lemma_environment_last_wins(
    w: crate::engine::compose::EnvW,
    entries: Seq<crate::model::compose::EnvEntry>,
    i: int,
)
    requires
        0 <= i < entries.len(),
        entries[i] is KeyValue,
        forall|j: int|
            i < j < entries.len() ==> !(#[trigger] entries[j] matches crate::model::compose::EnvEntry::KeyValue { key, .. }
                && key@ == entries[i]->KeyValue_key@),
    ensures
        crate::engine::compose::apply_environment(w, entries).env.contains_key(entries[i]->KeyValue_key@),
        crate::engine::compose::apply_environment(w, entries).env[entries[i]->KeyValue_key@]
            == entries[i]->KeyValue_value@,
    decreases entries.len(),
{
    if i < entries.len() - 1 {
        let t = entries.drop_last();
        assert(t[i] == entries[i]);
        assert forall|j: int| i < j < t.len() implies !(#[trigger] t[j] matches crate::model::compose::EnvEntry::KeyValue { key, .. }
            && key@ == t[i]->KeyValue_key@) by {
            assert(t[j] == entries[j]);
        }
        lemma_environment_last_wins(w, t, i);
        assert(!(entries[entries.len() - 1] matches crate::model::compose::EnvEntry::KeyValue { key, .. } && key@
            == entries[i]->KeyValue_key@));
    }
}


/// COPY of a host file puts the file's bytes, attributed to the host path,
/// at the destination (the destination itself, or the file's name inside it
/// when it ends with `/`).
pub proof fn law_copy_host_file_lands_at_dest(
    s: SimV,
    cwd: Seq<char>,
    src_rel: Seq<char>,
    dest: Seq<char>,
    hp: Seq<char>,
    content: Vec<u8>,
)
    requires
        crate::engine::copy::file_target(join_path(cwd, dest), src_rel, crate::text::ends_with(dest, seq!['/'])) is Some,
    ensures
        ({
            let p = canon(
                crate::engine::copy::file_target(join_path(cwd, dest), src_rel, crate::text::ends_with(dest, seq!['/']))->Some_0,
            );
            let r = crate::engine::copy::copy_host(s, cwd, src_rel, dest, hp, HostSource::File { content });
            &&& es_has(r.es, p)
            &&& es_get(r.es, p) == crate::engine::copy::host_file_v(content@, hp)
            &&& r.warns == s.warns
        }),
{
    let t = crate::engine::copy::file_target(join_path(cwd, dest), src_rel, crate::text::ends_with(dest, seq!['/']))->Some_0;
    let p = canon(t);
    let src = crate::model::provenance::SrcV::CopyFromHost(hp);
    lemma_es_put(ensure_anc(s.es, p, src), p, crate::engine::copy::host_file_v(content@, hp));
}


/// Relocating entries: an entry whose new path no other entry shares ends up
/// there, as its relocated node.
proof fn lemma_relocate_lands(
    s: SimV,
    items: Seq<(Seq<char>, NodeV)>,
    from: Seq<Seq<char>>,
    to: Seq<Seq<char>>,
    src: crate::model::provenance::SrcV,
    j: int,
)
    requires
        0 <= j < items.len(),
        forall|i: int|
            0 <= i < items.len() && i != j ==> crate::engine::run_sim::relocated_path(items[i].0, from, to)
                != crate::engine::run_sim::relocated_path(items[j].0, from, to),
    ensures
        es_has(
            crate::engine::run_sim::relocate(s, items, from, to, src).es,
            crate::engine::run_sim::relocated_path(items[j].0, from, to),
        ),
        es_get(
            crate::engine::run_sim::relocate(s, items, from, to, src).es,
            crate::engine::run_sim::relocated_path(items[j].0, from, to),
        ) == crate::engine::run_sim::relocated_node(items[j].1, src),
    decreases items.len(),
{
    let n = items.len();
    let pj = crate::engine::run_sim::relocated_path(items[j].0, from, to);
    let init = items.drop_last();
    let t = crate::engine::run_sim::relocate(s, init, from, to, src);
    let np = crate::engine::run_sim::relocated_path(items.last().0, from, to);
    let e = ensure_anc(t.es, np, src);
    let node = crate::engine::run_sim::relocated_node(items.last().1, src);
    assert(crate::engine::run_sim::relocate(s, items, from, to, src).es == es_put(e, np, node));
    lemma_es_put(e, np, node);
    if j == n - 1 {
        assert(items[j] == items.last());
    } else {
        assert forall|i: int| 0 <= i < init.len() && i != j implies crate::engine::run_sim::relocated_path(init[i].0, from, to)
            != crate::engine::run_sim::relocated_path(init[j].0, from, to) by {
            assert(init[i] == items[i]);
            assert(init[j] == items[j]);
        }
        lemma_relocate_lands(s, init, from, to, src, j);
        assert(init[j] == items[j]);
        lemma_ensure_anc(t.es, np, src);
        assert(np != pj) by {
            assert(items[n - 1] == items.last());
        }
        assert(es_has(t.es, pj));
        assert(es_has(e, pj));
        assert(es_get(e, pj) == es_get(t.es, pj));
        assert(es_has(es_put(e, np, node), pj));
        assert(es_get(es_put(e, np, node), pj) == es_get(e, pj));
    }
}

/// The segments of a path are those of its canonical spelling.
proof fn lemma_segs_canon(p: Seq<char>)
    ensures
        segs(canon(p)) == segs(p),
{
    crate::path::lemma_segs_wf(p);
    if crate::path::is_abs(p) {
        lemma_segs_abs_path(segs(p));
    } else {
        crate::path::lemma_segs_join(segs(p));
    }
}

/// Relocating the subtree at `root` (a stored, canonical, absolute path)
/// to the segments `to` puts `root`'s own node at `to`.
proof fn lemma_relocate_root_lands(
    s: SimV,
    es: Seq<(Seq<char>, NodeV)>,
    root: Seq<char>,
    to: Seq<Seq<char>>,
    src: crate::model::provenance::SrcV,
)
    requires
        es_unique(es),
        crate::model::fs::es_canon(es),
        es_has(es, root),
        canon(root) == root,
        crate::path::is_abs(root),
        crate::path::wf_segs(to),
    ensures
        ({
            let r = crate::engine::run_sim::relocate(s, es_filter(es, crate::model::fs::under_pred(root)), segs(root), to, src);
            &&& es_has(r.es, abs_path(to))
            &&& es_get(r.es, abs_path(to)) == crate::engine::run_sim::relocated_node(es_get(es, root), src)
        }),
{
    let items = es_filter(es, crate::model::fs::under_pred(root));
    let from = segs(root);
    lemma_es_filter(es, crate::model::fs::under_pred(root));
    lemma_es_map(es);
    lemma_es_map(items);
    assert(is_under(root, root));
    assert(es_map(items).contains_key(root));
    crate::model::fs::lemma_es_find(items, root);
    let j = crate::model::fs::es_find(items, root)->Some_0;
    assert(items[j].0 == root);
    assert(items[j].1 == es_get(es, root)) by {
        assert(es_map(items)[root] == es_map(es)[root]);
    }
    assert(segs(root).skip(from.len() as int) =~= Seq::<Seq<char>>::empty());
    assert(to + segs(root).skip(from.len() as int) =~= to);
    assert forall|i: int| 0 <= i < items.len() && i != j implies crate::engine::run_sim::relocated_path(items[i].0, from, to)
        != crate::engine::run_sim::relocated_path(items[j].0, from, to) by {
        let k = items[i].0;
        assert(is_under(root, k));
        assert(canon(k) == k);
        assert(k != root);
        let x = segs(k).skip(from.len() as int);
        crate::path::lemma_segs_wf(k);
        assert(crate::path::wf_segs(x)) by {
            assert forall|a: int| 0 <= a < x.len() implies (#[trigger] x[a]).len() > 0 && x[a] != seq!['.'] && !x[a].contains('/') by {
                assert(x[a] == segs(k)[a + from.len()]);
            }
        }
        crate::path::lemma_segs_append_wf(to, x);
        lemma_segs_abs_path(to + x);
        lemma_segs_abs_path(to);
        if crate::engine::run_sim::relocated_path(k, from, to) == abs_path(to) {
            assert((to + x).len() == to.len());
            assert(segs(k) =~= from);
        }
    }
    lemma_relocate_lands(s, items, from, to, src, j);
}

/// COPY `--from` a stage of a single file puts that file's bytes (with the
/// stage as provenance) at the destination: the destination itself, or
/// the file's name inside it when it ends with `/`.
pub proof fn law_copy_from_stage_file_lands(
    s: SimV,
    cwd: Seq<char>,
    name: Seq<char>,
    src_path: Seq<char>,
    dest: Seq<char>,
    line: nat,
    st: crate::model::state::StateV,
)
    requires
        es_unique(st.es),
        crate::model::fs::es_canon(st.es),
        es_has(st.es, join_path(seq!['/'], src_path)),
        !(es_get(st.es, join_path(seq!['/'], src_path)) is Dir),
        crate::engine::copy::file_target(join_path(cwd, dest), src_path, crate::text::ends_with(dest, seq!['/'])) is Some,
    ensures
        ({
            let sp = join_path(seq!['/'], src_path);
            let t = crate::engine::copy::file_target(join_path(cwd, dest), src_path, crate::text::ends_with(dest, seq!['/']))->Some_0;
            let r = crate::engine::copy::copy_stage(s, cwd, name, src_path, dest, line, Some(st));
            &&& es_has(r.es, abs_path(segs(t)))
            &&& es_get(r.es, abs_path(segs(t))) == crate::engine::run_sim::relocated_node(
                es_get(st.es, sp),
                crate::model::provenance::SrcV::CopyFromStage(name),
            )
        }),
{
    let sp = join_path(seq!['/'], src_path);
    let t = crate::engine::copy::file_target(join_path(cwd, dest), src_path, crate::text::ends_with(dest, seq!['/']))->Some_0;
    let js = crate::path::joined_segs(seq!['/'], src_path);
    crate::path::lemma_segs_wf(src_path);
    crate::path::lemma_segs_wf(seq!['/']);
    crate::path::lemma_segs_append_wf(segs(seq!['/']), segs(src_path));
    crate::path::lemma_canon_abs_path(js);
    lemma_segs_abs_path(js);
    lemma_segs_canon(t);
    crate::path::lemma_segs_wf(t);
    lemma_relocate_root_lands(s, st.es, sp, segs(canon(t)), crate::model::provenance::SrcV::CopyFromStage(name));
}

/// `mv src dst` of an existing path puts the moved node at `dst`
/// (attributed to the command); only its provenance changes.
pub proof fn law_mv_moves_node_to_destination(s: SimV, cwd: Seq<char>, args: Seq<Seq<char>>, cmd: Seq<char>)
    requires
        es_unique(s.es),
        crate::model::fs::es_canon(s.es),
        args.len() == 2,
        es_has(s.es, resolve(cwd, args[0])),
    ensures
        ({
            let r = crate::engine::run_sim::mv_spec(s, cwd, args, cmd);
            let dst = resolve(cwd, args[1]);
            &&& es_has(r.es, dst)
            &&& es_get(r.es, dst) == crate::engine::run_sim::relocated_node(
                es_get(s.es, resolve(cwd, args[0])),
                crate::engine::run_sim::run_src(cmd),
            )
        }),
{
    let src = resolve(cwd, args[0]);
    let dst = resolve(cwd, args[1]);
    lemma_resolve(cwd, args[0]);
    lemma_resolve(cwd, args[1]);
    let s1 = SimV { es: es_filter(s.es, outside_pred(src)), ..s };
    lemma_relocate_root_lands(s1, s.es, src, segs(dst), crate::engine::run_sim::run_src(cmd));
}

// ───────────────────────── env files ─────────────────────────

/// A character that can stand in a plain `KEY=value` env-file line:
/// no whitespace, `=`, `#` or quote.
pub open spec fn plain_env_char(c: char) -> bool {
    !is_ws(c) && c != '=' && c != '#' && c != '"' && c != '\''
}

pub open spec fn plain_env_text(t: Seq<char>) -> bool {
    forall|j: int| 0 <= j < t.len() ==> plain_env_char(#[trigger] t[j])
}

proof fn lemma_find_eq_at_key(l: Seq<char>, k: Seq<char>, v: Seq<char>, j: int)
    requires
        l == k + seq!['='] + v,
        plain_env_text(k),
        0 <= j <= k.len(),
    ensures
        find_from(l, seq!['='], j) == Some(k.len() as int),
    decreases k.len() - j,
{
    if j < k.len() {
        assert(l[j] == k[j]);
        assert(plain_env_char(k[j]));
        assert(!matches_at(l, seq!['='], j)) by {
            if matches_at(l, seq!['='], j) {
                assert(l.subrange(j, j + 1)[0] == l[j]);
            }
        }
        lemma_find_eq_at_key(l, k, v, j + 1);
    } else {
        assert(l.subrange(j, j + 1) =~= seq!['=']);
    }
}

proof fn lemma_no_comment(v: Seq<char>, i: int)
    requires
        plain_env_text(v),
    ensures
        comment_from(v, i) is None,
    decreases v.len() - i,
{
    if 1 <= i < v.len() {
        assert(plain_env_char(v[i]));
        lemma_no_comment(v, i + 1);
    }
}

/// A plain line `KEY=value` sets `KEY` to `value`.
pub proof fn law_plain_env_line(k: Seq<char>, v: Seq<char>)
    requires
        k.len() > 0,
        plain_env_text(k),
        plain_env_text(v),
    ensures
        env_line(k + seq!['='] + v) == Some((k, v)),
{
    let l = k + seq!['='] + v;
    assert(l[0] == k[0]);
    assert(plain_env_char(k[0]));
    assert(trim_start(l) == l);
    assert(l.last() != '=' ==> v.len() > 0 && l.last() == v.last());
    if v.len() > 0 {
        assert(l.last() == v[v.len() - 1]);
        assert(plain_env_char(v[v.len() - 1]));
        assert(v[0] == v[0]);
        assert(plain_env_char(v[0]));
    }
    assert(trim_end(l) == l);
    assert(trim(l) == l);
    lemma_find_eq_at_key(l, k, v, 0);
    assert(l.take(k.len() as int) =~= k);
    assert(l.skip(k.len() as int + 1) =~= v);
    assert(trim_start(v) == v);
    assert(trim_end(v) == v);
    assert(trim(v) == v);
    assert(!quoted(v));
    lemma_no_comment(v, 1);
    assert(comment_stripped(v) == v);
    assert(quotes_stripped(v) == v);
}

/// In an env file, the last line that sets a key decides its value, whatever
/// the environment held before (an env file overrides the Dockerfile's ENV).
pub proof fn law_env_file_last_line_wins(
    env: Map<Seq<char>, Seq<char>>,
    ls: Seq<Seq<char>>,
    i: int,
    k: Seq<char>,
    v: Seq<char>,
)
    requires
        0 <= i < ls.len(),
        ls[i] == k + seq!['='] + v,
        k.len() > 0,
        plain_env_text(k),
        plain_env_text(v),
        forall|j: int| i < j < ls.len() ==> !(#[trigger] env_line(ls[j]) matches Some(kv) && kv.0 == k),
    ensures
        apply_env_lines(env, ls).contains_key(k),
        apply_env_lines(env, ls)[k] == v,
    decreases ls.len(),
{
    if i == ls.len() - 1 {
        law_plain_env_line(k, v);
    } else {
        let t = ls.drop_last();
        assert(t[i] == ls[i]);
        assert forall|j: int| i < j < t.len() implies !(#[trigger] env_line(t[j]) matches Some(kv) && kv.0 == k) by {
            assert(t[j] == ls[j]);
        }
        law_env_file_last_line_wins(env, t, i, k, v);
        assert(ls.last() == ls[ls.len() - 1]);
        assert(!(env_line(ls[ls.len() - 1]) matches Some(kv) && kv.0 == k));
    }
}

// ───────────────────────── compose working_dir ─────────────────────────

/// A Compose `working_dir` is taken relative to the working directory the
/// Dockerfile left: the new working directory is it resolved there, and
/// when neither holds a `..` it is that directory with the segments of
/// `working_dir` appended.
pub proof fn law_compose_working_dir_joins_image_cwd(
    st: StateV,
    service: crate::model::compose::Service,
    reads: Seq<Option<String>>,
)
    requires
        service.working_dir is Some,
    ensures
        ({
            let wd = service.working_dir->Some_0@;
            let r = crate::engine::compose::compose_overrides(st, service, reads);
            &&& r.cwd == resolve(st.cwd, wd)
            &&& is_abs(r.cwd)
            &&& (!is_abs(wd) && (forall|i: int| 0 <= i < segs(st.cwd).len() ==> #[trigger] segs(st.cwd)[i] != dotdot())
                && (forall|i: int| 0 <= i < segs(wd).len() ==> #[trigger] segs(wd)[i] != dotdot())
                ==> segs(r.cwd) == segs(st.cwd) + segs(wd))
        }),
{
    let wd = service.working_dir->Some_0@;
    let j = joined_segs(st.cwd, wd);
    lemma_segs_wf(st.cwd);
    lemma_segs_wf(wd);
    lemma_segs_append_wf(segs(st.cwd), segs(wd));
    lemma_norm_wf(j);
    lemma_segs_abs_path(norm(j));
    let r = resolve(st.cwd, wd);
    assert(r[0] == '/');
    if !is_abs(wd) && (forall|i: int| 0 <= i < segs(st.cwd).len() ==> #[trigger] segs(st.cwd)[i] != dotdot())
        && (forall|i: int| 0 <= i < segs(wd).len() ==> #[trigger] segs(wd)[i] != dotdot()) {
        assert forall|i: int| 0 <= i < j.len() implies #[trigger] j[i] != dotdot() by {
            if i < segs(st.cwd).len() {
                assert(j[i] == segs(st.cwd)[i]);
            } else {
                assert(j[i] == segs(wd)[i - segs(st.cwd).len()]);
            }
        }
        lemma_norm_fixed(j);
    }
}

// ───────────────────────── RUN cp ─────────────────────────

/// `cp src dst` of a regular file writes, at `dst`, a file with the source's
/// bytes and permissions, created by the RUN command; the source stays as it
/// was and no warning is added.
pub proof fn law_cp_copies_file_bytes(
    s: SimV,
    cwd: Seq<char>,
    a: Seq<char>,
    b: Seq<char>,
    recursive: bool,
    cmd: Seq<char>,
)
    requires
        es_has(s.es, resolve(cwd, a)),
        es_get(s.es, resolve(cwd, a)) is File,
    ensures
        ({
            let src = resolve(cwd, a);
            let dst = resolve(cwd, b);
            let r = crate::engine::run_sim::cp_spec(s, cwd, seq![a, b], recursive, cmd);
            &&& es_has(r.es, dst)
            &&& es_get(r.es, dst) is File
            &&& es_get(r.es, dst)->File_content == es_get(s.es, src)->File_content
            &&& es_get(r.es, dst)->File_permissions == es_get(s.es, src)->File_permissions
            &&& es_get(r.es, dst)->File_prov.created_by == crate::model::provenance::SrcV::RunCommand(cmd)
            &&& (src != dst ==> es_has(r.es, src) && es_get(r.es, src) == es_get(s.es, src))
            &&& r.warns == s.warns
        }),
{
    let src = resolve(cwd, a);
    let dst = resolve(cwd, b);
    let args = seq![a, b];
    assert(args[0] == a && args[1] == b);
    let how = crate::engine::run_sim::run_src(cmd);
    lemma_ensure_anc(s.es, dst, how);
    let e = ensure_anc(s.es, dst, how);
    let n = crate::engine::run_sim::copied_node(es_get(s.es, src), how);
    lemma_es_put(e, dst, n);
    let r = crate::engine::run_sim::cp_spec(s, cwd, args, recursive, cmd);
    assert(args.len() == 2);
    assert(!(es_get(s.es, src) is Dir));
    assert(r.es == es_put(e, dst, n));
    assert(r.warns == s.warns);
    assert(n is File);
    assert(n->File_content == es_get(s.es, src)->File_content);
    assert(n->File_prov.created_by == crate::model::provenance::SrcV::RunCommand(cmd));
    assert(es_has(r.es, dst));
    assert(es_get(r.es, dst) == n);
    assert(es_has(e, src) && es_get(e, src) == es_get(s.es, src));
    assert(src != dst ==> es_has(r.es, src));
    assert(src != dst ==> es_get(r.es, src) == es_get(s.es, src));
}

// ───────────────────────── COPY of a host directory ─────────────────────────

/// Where a copied directory entry with the relative path `rel` lands: below
/// the destination, itself joined to the working directory.
proof fn lemma_dir_entry_key(cwd: Seq<char>, dest: Seq<char>, rel: Seq<char>)
    requires
        !is_abs(rel),
    ensures
        canon(host_join(join_path(cwd, dest), rel)) == abs_path(joined_segs(cwd, dest) + segs(rel)),
{
    let j = joined_segs(cwd, dest);
    lemma_segs_wf(cwd);
    lemma_segs_wf(dest);
    lemma_segs_append_wf(segs(cwd), segs(dest));
    lemma_segs_abs_path(j);
    let rd = join_path(cwd, dest);
    assert(rd[0] == '/');
    let h = host_join(rd, rel);
    assert(h[0] == '/');
    lemma_segs_host_join(rd, rel);
}

proof fn lemma_entry_step_keeps(s: SimV, rd: Seq<char>, e: HostEntry, x: Seq<char>)
    requires
        es_has(s.es, x),
    ensures
        es_has(host_entry_step(s, rd, e).es, x),
{
    let key = canon(host_join(rd, e.rel_path@));
    let src = crate::model::provenance::SrcV::CopyFromHost(e.host_path@);
    lemma_ensure_anc(s.es, key, src);
    let es1 = ensure_anc(s.es, key, src);
    assert(es_has(es1, x));
    if e.is_dir {
        lemma_es_put(es1, key, crate::model::fs::fresh_dir_v(src));
    } else {
        lemma_es_put(es1, key, crate::engine::copy::host_file_v(e.content@, e.host_path@));
    }
}

proof fn lemma_entries_keep(s: SimV, rd: Seq<char>, entries: Seq<HostEntry>, x: Seq<char>)
    requires
        es_has(s.es, x),
    ensures
        es_has(host_entries(s, rd, entries).es, x),
    decreases entries.len(),
{
    if entries.len() > 0 {
        lemma_entries_keep(s, rd, entries.drop_last(), x);
        lemma_entry_step_keeps(host_entries(s, rd, entries.drop_last()), rd, entries.last(), x);
    }
}

proof fn lemma_entry_placed(s: SimV, rd: Seq<char>, entries: Seq<HostEntry>, i: int)
    requires
        0 <= i < entries.len(),
    ensures
        es_has(host_entries(s, rd, entries).es, canon(host_join(rd, entries[i].rel_path@))),
        i == entries.len() - 1 && !entries[i].is_dir ==> es_get(
            host_entries(s, rd, entries).es,
            canon(host_join(rd, entries[i].rel_path@)),
        ) == crate::engine::copy::host_file_v(entries[i].content@, entries[i].host_path@),
    decreases entries.len(),
{
    let t = entries.drop_last();
    let p = host_entries(s, rd, t);
    let e = entries.last();
    let key = canon(host_join(rd, e.rel_path@));
    let src = crate::model::provenance::SrcV::CopyFromHost(e.host_path@);
    let es1 = ensure_anc(p.es, key, src);
    if i == entries.len() - 1 {
        assert(entries[i] == e);
        if e.is_dir {
            lemma_es_put(es1, key, crate::model::fs::fresh_dir_v(src));
        } else {
            lemma_es_put(es1, key, crate::engine::copy::host_file_v(e.content@, e.host_path@));
        }
    } else {
        assert(t[i] == entries[i]);
        lemma_entry_placed(s, rd, t, i);
        lemma_entry_step_keeps(p, rd, e, canon(host_join(rd, entries[i].rel_path@)));
    }
}

/// COPY of a host directory places every entry below the destination, the
/// destination being joined to the working directory as for a single file:
/// an entry with the relative path `rel` is at the working directory's
/// segments, then the destination's, then `rel`'s. The last entry, when it
/// is a file, holds its bytes there.
pub proof fn law_copy_host_dir_lands_under_dest(
    st: StateV,
    src_rel: String,
    dest: Seq<char>,
    entries: Vec<HostEntry>,
    ctx: Seq<char>,
    line: nat,
    reg: Map<Seq<char>, StateV>,
    i: int,
)
    requires
        0 <= i < entries@.len(),
        !is_abs(entries@[i].rel_path@),
    ensures
        ({
            let r = copy_step(st, CopySource::Host(src_rel), dest, HostSource::Dir { entries }, ctx, line, reg);
            let k = abs_path(joined_segs(st.cwd, dest) + segs(entries@[i].rel_path@));
            &&& es_has(r.es, k)
            &&& (!is_abs(dest) ==> k == abs_path(segs(st.cwd) + segs(dest) + segs(entries@[i].rel_path@)))
            &&& (i == entries@.len() - 1 && !entries@[i].is_dir ==> es_get(r.es, k) is File && es_get(
                r.es,
                k,
            )->File_content == entries@[i].content@)
        }),
{
    let rd = join_path(st.cwd, dest);
    lemma_dir_entry_key(st.cwd, dest, entries@[i].rel_path@);
    lemma_entry_placed(crate::engine::runner::sim_start(st), rd, entries@, i);
}

} // verus!
