//! The engine runner: applies a Dockerfile's instructions, in order, to a
//! fresh preview state, keeping every completed build stage.
//!
//! Multi-stage builds: each `FROM` after the first (or after any recorded
//! instruction) files the current stage in the registry under its index
//! and alias, then starts a new, empty stage. The final stage is filed too
//! and also returned directly.

use vstd::prelude::*;
use crate::engine::copy::{
    copy_host, copy_stage, ensure_anc, ensure_ancestors, handle_copy, host_join, join_host_path, stage_view,
    HostSource,
};
use crate::engine::error::EngineError;
use crate::engine::properties::{aliases_not_numeric, from_count, law_one_stage_per_from};
use crate::engine::run_sim::{handle_run, run_all, sim_of, sub_commands, SimV};
use crate::model::fs::{es_has, es_put, fresh_dir, fresh_dir_v, NodeV};
use crate::model::instruction::{CopySource, Instruction};
use crate::model::provenance::{ProvenanceSource, SrcV};
use crate::model::state::{
    env_view, hviews, index_keys, lviews, opt_str_view, opt_view, reg_insert, reg_view, HistV, HistoryEntry,
    InstalledV, LayerSummary, LayerV, PreviewState, StageRegistry, StateV,
};
use crate::model::warning::{lemma_wviews_push, WarnV, Warning, wviews};
use crate::path::{
    join_path, join_path_exec, joined_segs, lemma_canon_abs_path, lemma_segs_append_wf, lemma_segs_wf,
    segs,
};
use crate::text::{
    append_chars, append_str, chars_of, copy_chars, debug_quoted, debug_str, decimal, decimal_exec,
    lemma_sviews_push, string_of, sviews, to_uppercase, unicode_upper, words, words_of,
};

verus! {

/// The result of a full engine run.
pub struct EngineOutput {
    /// The final stage's state, ready for the shell.
    pub state: PreviewState,
    /// Every stage, under its numeric index and its alias.
    pub stages: StageRegistry,
}

// ───────────────────────── the model ─────────────────────────

/// Where a run stands: the current stage, the stages filed so far, and the
/// current stage's index and alias.
#[verifier::ext_equal]
pub struct RunV {
    pub st: StateV,
    pub reg: Map<Seq<char>, StateV>,
    pub index: nat,
    pub alias: Option<Seq<char>>,
}

/// The view of a run's working variables.
pub open spec fn runv(state: PreviewState, reg: StageRegistry, index: usize, alias: Option<String>) -> RunV {
    RunV { st: state@, reg: reg_view(reg@), index: index as nat, alias: opt_view(alias) }
}

/// The state of an empty container.
pub open spec fn empty_state_v() -> StateV {
    StateV {
        cwd: seq!['/'],
        env: Map::empty(),
        es: seq![],
        installed: InstalledV {
            apt: Set::empty(),
            pip: Set::empty(),
            npm: Set::empty(),
            go_pkgs: Set::empty(),
            apk: Set::empty(),
        },
        history: seq![],
        layers: seq![],
        warns: seq![],
        active: None,
        mounts: seq![],
    }
}

/// The filesystem and warnings of `st`, with no changed paths yet.
pub open spec fn sim_start(st: StateV) -> SimV {
    SimV { es: st.es, warns: st.warns, files: seq![] }
}

/// `st` with the filesystem and warnings of `s`.
pub open spec fn with_sim(st: StateV, s: SimV) -> StateV {
    StateV { es: s.es, warns: s.warns, ..st }
}

/// `st` with a history entry and a layer appended.
pub open spec fn record(st: StateV, line: nat, raw: Seq<char>, effect: Seq<char>, layer: LayerV) -> StateV {
    StateV {
        history: st.history.push(HistV { line, instruction: raw, effect }),
        layers: st.layers.push(layer),
        ..st
    }
}

/// A layer that changed nothing.
pub open spec fn bare_layer(kind: Seq<char>) -> LayerV {
    LayerV { kind, files: seq![], env: seq![] }
}

/// The history text of a FROM.
pub open spec fn from_text(image: Seq<char>, alias: Option<Seq<char>>) -> Seq<char> {
    match alias {
        Some(a) => "FROM "@ + image + " AS "@ + a,
        None => "FROM "@ + image,
    }
}

/// The history text of a COPY source, as `Debug` prints it.
pub open spec fn source_text(src: CopySource) -> Seq<char> {
    match src {
        CopySource::Host(p) => "Host("@ + debug_str(p@) + ")"@,
        CopySource::Stage { name, src_path } => "Stage { name: "@ + debug_str(name@) + ", src_path: "@
            + debug_str(src_path@) + " }"@,
    }
}

/// The keyword of an unknown instruction: its first word, upper-cased.
pub open spec fn keyword_of(raw: Seq<char>) -> Seq<char> {
    unicode_upper(
        if words(raw).len() > 0 {
            words(raw)[0]
        } else {
            "UNKNOWN"@
        },
    )
}

/// The registry's stage named `name`, if any.
pub open spec fn lookup(reg: Map<Seq<char>, StateV>, name: Seq<char>) -> Option<StateV> {
    if reg.contains_key(name) {
        Some(reg[name])
    } else {
        None
    }
}

/// FROM: files the current stage when one is in progress, then starts
/// the new stage with an empty-base-image warning.
pub open spec fn from_step(r: RunV, image: Seq<char>, alias: Option<Seq<char>>, line: nat) -> RunV {
    let rolled = r.index > 0 || r.st.history.len() > 0;
    let base = if rolled {
        empty_state_v()
    } else {
        r.st
    };
    let st = StateV { warns: base.warns.push(WarnV::EmptyBaseImage(image)), active: alias, ..base };
    RunV {
        st: record(
            st,
            line,
            from_text(image, alias),
            "base image '"@ + image + "' (empty — not modeled)"@,
            bare_layer("FROM"@),
        ),
        reg: if rolled {
            reg_insert(r.reg, r.index, r.alias, r.st)
        } else {
            r.reg
        },
        index: if rolled {
            r.index + 1
        } else {
            r.index
        },
        alias,
    }
}

/// WORKDIR: the path joined to the working directory (spelled as
/// `PathBuf::join` spells it) becomes the working directory; the directory
/// it names and that directory's ancestors are created when missing.
pub open spec fn workdir_step(st: StateV, path: Seq<char>, line: nat) -> StateV {
    let t = host_join(st.cwd, path);
    let nc = join_path(st.cwd, path);
    let es1 = ensure_anc(st.es, nc, SrcV::Workdir);
    let es2 = if es_has(es1, nc) {
        es1
    } else {
        es_put(es1, nc, fresh_dir_v(SrcV::Workdir))
    };
    record(
        StateV { cwd: t, es: es2, ..st },
        line,
        "WORKDIR "@ + path,
        "set cwd to "@ + t,
        LayerV { kind: "WORKDIR"@, files: seq![t], env: seq![] },
    )
}

/// COPY, from the host or from a stage of `reg`.
pub open spec fn copy_step(
    st: StateV,
    source: CopySource,
    dest: Seq<char>,
    host: HostSource,
    ctx: Seq<char>,
    line: nat,
    reg: Map<Seq<char>, StateV>,
) -> StateV {
    let s = match source {
        CopySource::Host(src_rel) => copy_host(
            sim_start(st),
            st.cwd,
            src_rel@,
            dest,
            host_join(ctx, src_rel@),
            host,
        ),
        CopySource::Stage { name, src_path } => copy_stage(
            sim_start(st),
            st.cwd,
            name@,
            src_path@,
            dest,
            line,
            lookup(reg, name@),
        ),
    };
    record(
        with_sim(st, s),
        line,
        "COPY "@ + source_text(source) + " "@ + dest,
        decimal(s.files.len()) + " file(s) copied"@,
        LayerV { kind: "COPY"@, files: s.files, env: seq![] },
    )
}

/// ENV: the variable is set.
pub open spec fn env_step(st: StateV, key: Seq<char>, value: Seq<char>, line: nat) -> StateV {
    record(
        StateV { env: st.env.insert(key, value), ..st },
        line,
        "ENV "@ + key + "="@ + value,
        "set "@ + key + "="@ + value,
        LayerV { kind: "ENV"@, files: seq![], env: seq![(key, value)] },
    )
}

/// RUN: the sub-commands are simulated.
pub open spec fn run_step_cmd(st: StateV, command: Seq<char>, line: nat) -> StateV {
    let s = run_all(sim_start(st), st.cwd, sub_commands(command));
    record(
        with_sim(st, s),
        line,
        "RUN "@ + command,
        "RUN (unmodeled): "@ + command,
        LayerV { kind: "RUN"@, files: s.files, env: seq![] },
    )
}

/// An unknown instruction: a warning, nothing else.
pub open spec fn unknown_step(st: StateV, raw: Seq<char>, line: nat) -> StateV {
    let kw = keyword_of(raw);
    record(
        StateV { warns: st.warns.push(WarnV::UnsupportedInstruction(kw, line)), ..st },
        line,
        raw,
        "unsupported instruction '"@ + kw + "' (skipped)"@,
        bare_layer(kw),
    )
}

/// One instruction, at 1-based position `line`.
pub open spec fn run_step(r: RunV, ins: Instruction, host: HostSource, ctx: Seq<char>, line: nat) -> RunV {
    match ins {
        Instruction::From { image, alias } => from_step(r, image@, opt_view(alias), line),
        Instruction::Workdir { path } => RunV { st: workdir_step(r.st, path@, line), ..r },
        Instruction::Copy { source, dest } => RunV {
            st: copy_step(r.st, source, dest@, host, ctx, line, r.reg),
            ..r
        },
        Instruction::Env { key, value } => RunV { st: env_step(r.st, key@, value@, line), ..r },
        Instruction::Run { command } => RunV { st: run_step_cmd(r.st, command@, line), ..r },
        Instruction::Unknown { raw } => RunV { st: unknown_step(r.st, raw@, line), ..r },
    }
}

/// The first `n` instructions, from an empty container.
pub open spec fn run_upto(ins: Seq<Instruction>, hosts: Seq<HostSource>, ctx: Seq<char>, n: nat) -> RunV
    decreases n,
{
    if n == 0 {
        RunV { st: empty_state_v(), reg: Map::empty(), index: 0, alias: None }
    } else {
        run_step(run_upto(ins, hosts, ctx, (n - 1) as nat), ins[n - 1], hosts[n - 1], ctx, n)
    }
}

/// The host read error an instruction runs into, if any.
pub open spec fn step_error(ins: Instruction, host: HostSource) -> Option<(Seq<char>, Seq<char>)> {
    match ins {
        Instruction::Copy { source: CopySource::Host(_), .. } => match host {
            HostSource::Unreadable { path, message } => Some((path@, message@)),
            _ => None,
        },
        _ => None,
    }
}

/// The first host read error among the first `n` instructions.
pub open spec fn first_error(ins: Seq<Instruction>, hosts: Seq<HostSource>, n: nat) -> Option<(Seq<char>, Seq<char>)>
    decreases n,
{
    if n == 0 {
        None
    } else {
        match first_error(ins, hosts, (n - 1) as nat) {
            Some(e) => Some(e),
            None => step_error(ins[n - 1], hosts[n - 1]),
        }
    }
}

proof fn lemma_first_error_stable(ins: Seq<Instruction>, hosts: Seq<HostSource>, n: nat, m: nat)
    requires
        n <= m,
        first_error(ins, hosts, n) is Some,
    ensures
        first_error(ins, hosts, m) == first_error(ins, hosts, n),
    decreases m - n,
{
    if n < m {
        lemma_first_error_stable(ins, hosts, n, (m - 1) as nat);
    }
}

// ───────────────────────── executable steps ─────────────────────────

fn record_exec(state: &mut PreviewState, line: usize, raw: String, effect: String, layer: LayerSummary)
    ensures
        final(state)@ == record(old(state)@, line as nat, raw@, effect@, layer@),
{
    let h = HistoryEntry { line, instruction: raw, effect };
    let ghost h0 = state.history@;
    let ghost l0 = state.layers@;
    let ghost lv = layer@;
    state.history.push(h);
    state.layers.push(layer);
    assert(hviews(state.history@) =~= hviews(h0).push(h@));
    assert(lviews(state.layers@) =~= lviews(l0).push(lv));
    assert(state@ =~= record(old(state)@, line as nat, h@.instruction, h@.effect, lv));
}

fn empty_layer(kind: &str) -> (l: LayerSummary)
    ensures
        l@ == bare_layer(kind@),
{
    let l = LayerSummary { instruction_type: kind.to_string(), files_changed: Vec::new(), env_changed: Vec::new() };
    assert(l@ =~= bare_layer(kind@));
    l
}

fn clone_opt(o: &Option<String>) -> (r: Option<String>)
    ensures
        r == *o,
{
    match o {
        Some(s) => Some(s.clone()),
        None => None,
    }
}

fn as_str_opt(o: &Option<String>) -> (r: Option<&str>)
    ensures
        opt_str_view(r) == opt_view(*o),
{
    match o {
        Some(s) => Some(s.as_str()),
        None => None,
    }
}

fn from_exec(
    state: &mut PreviewState,
    registry: &mut StageRegistry,
    stage_index: &mut usize,
    current_alias: &mut Option<String>,
    image: &String,
    alias: &Option<String>,
    line: usize,
)
    requires
        *old(stage_index) < usize::MAX,
    ensures
        runv(*final(state), *final(registry), *final(stage_index), *final(current_alias)) == from_step(
            runv(*old(state), *old(registry), *old(stage_index), *old(current_alias)),
            image@,
            opt_view(*alias),
            line as nat,
        ),
        *final(stage_index) <= *old(stage_index) + 1,
{
    let ghost r0 = runv(*state, *registry, *stage_index, *current_alias);
    if *stage_index > 0 || state.history.len() > 0 {
        let mut fresh = PreviewState::new();
        std::mem::swap(state, &mut fresh);
        let a = as_str_opt(current_alias);
        registry.insert(*stage_index, a, fresh);
        *stage_index = *stage_index + 1;
        assert(state@.env =~= Map::<Seq<char>, Seq<char>>::empty());
        assert(state@.installed =~= empty_state_v().installed);
        assert(state@.history =~= Seq::<HistV>::empty());
        assert(state@.layers =~= Seq::<LayerV>::empty());
        assert(state@.warns =~= Seq::<WarnV>::empty());
        assert(state@.mounts =~= empty_state_v().mounts);
        proof {
            reveal_strlit("/");
        }
        assert(state@ =~= empty_state_v());
    }
    *current_alias = clone_opt(alias);
    let w = Warning::EmptyBaseImage { image: image.clone() };
    proof {
        lemma_wviews_push(state.warnings@, w);
    }
    state.warnings.push(w);
    state.active_stage = clone_opt(alias);
    let mut raw: Vec<char> = Vec::new();
    append_str(&mut raw, "FROM ");
    append_str(&mut raw, image.as_str());
    match alias {
        Some(a) => {
            append_str(&mut raw, " AS ");
            append_str(&mut raw, a.as_str());
        },
        None => {},
    }
    assert(raw@ =~= from_text(image@, opt_view(*alias)));
    let mut effect: Vec<char> = Vec::new();
    append_str(&mut effect, "base image '");
    append_str(&mut effect, image.as_str());
    append_str(&mut effect, "' (empty — not modeled)");
    let layer = empty_layer("FROM");
    record_exec(state, line, string_of(&raw), string_of(&effect), layer);
}

fn workdir_exec(state: &mut PreviewState, path: &String, line: usize)
    ensures
        final(state)@ == workdir_step(old(state)@, path@, line as nat),
{
    let t = join_host_path(state.cwd.as_str(), path.as_str());
    let cwd = chars_of(state.cwd.as_str());
    let p = chars_of(path.as_str());
    let nc = join_path_exec(&cwd, &p);
    proof {
        lemma_segs_wf(cwd@);
        lemma_segs_wf(p@);
        lemma_segs_append_wf(segs(cwd@), segs(p@));
        lemma_canon_abs_path(joined_segs(cwd@, p@));
    }
    let how = ProvenanceSource::Workdir;
    ensure_ancestors(&mut state.fs, &nc, &how);
    if !state.fs.contains_key(&nc) {
        state.fs.insert_key(copy_chars(&nc), fresh_dir(ProvenanceSource::Workdir));
    }
    let tv = chars_of(t.as_str());
    state.cwd = t;
    let mut files: Vec<String> = Vec::new();
    let s = string_of(&tv);
    proof {
        lemma_sviews_push(files@, s);
    }
    files.push(s);
    let layer = LayerSummary { instruction_type: "WORKDIR".to_string(), files_changed: files, env_changed: Vec::new() };
    assert(layer@ =~= LayerV { kind: "WORKDIR"@, files: seq![tv@], env: seq![] });
    let mut raw: Vec<char> = Vec::new();
    append_str(&mut raw, "WORKDIR ");
    append_str(&mut raw, path.as_str());
    let mut effect: Vec<char> = Vec::new();
    append_str(&mut effect, "set cwd to ");
    append_chars(&mut effect, &tv);
    record_exec(state, line, string_of(&raw), string_of(&effect), layer);
}

fn source_text_exec(src: &CopySource) -> (r: Vec<char>)
    ensures
        r@ == source_text(*src),
{
    let mut v: Vec<char> = Vec::new();
    match src {
        CopySource::Host(p) => {
            append_str(&mut v, "Host(");
            let q = debug_quoted(p.as_str());
            append_str(&mut v, q.as_str());
            append_str(&mut v, ")");
        },
        CopySource::Stage { name, src_path } => {
            append_str(&mut v, "Stage { name: ");
            let q = debug_quoted(name.as_str());
            append_str(&mut v, q.as_str());
            append_str(&mut v, ", src_path: ");
            let q2 = debug_quoted(src_path.as_str());
            append_str(&mut v, q2.as_str());
            append_str(&mut v, " }");
        },
    }
    assert(v@ =~= source_text(*src));
    v
}

fn copy_exec(
    state: &mut PreviewState,
    registry: &StageRegistry,
    source: &CopySource,
    dest: &String,
    host: &HostSource,
    ctx: &str,
    line: usize,
) -> (r: Result<(), EngineError>)
    ensures
        match step_error(Instruction::Copy { source: *source, dest: *dest }, *host) {
            Some(e) => match r {
                Err(EngineError::Io { path, message }) => path@ == e.0 && message@ == e.1,
                Ok(_) => false,
            },
            None => r is Ok && final(state)@ == copy_step(
                old(state)@,
                *source,
                dest@,
                *host,
                ctx@,
                line as nat,
                reg_view(registry@),
            ),
        },
{
    let ghost st0 = state@;
    let layer = match handle_copy(state, source, dest.as_str(), host, ctx, line, registry) {
        Ok(l) => l,
        Err(e) => {
            return Err(e);
        },
    };
    proof {
        match source {
            CopySource::Stage { name, src_path } => {
                assert(stage_view(registry@, name@) == lookup(reg_view(registry@), name@));
            },
            _ => {},
        }
        assert(sim_of(old(state).fs, old(state).warnings@, seq![]) == sim_start(st0));
    }
    let n = layer.files_changed.len();
    let mut effect = decimal_exec(n);
    append_str(&mut effect, " file(s) copied");
    let mut raw: Vec<char> = Vec::new();
    append_str(&mut raw, "COPY ");
    let st = source_text_exec(source);
    append_chars(&mut raw, &st);
    append_str(&mut raw, " ");
    append_str(&mut raw, dest.as_str());
    let ghost lv = layer@;
    record_exec(state, line, string_of(&raw), string_of(&effect), layer);
    proof {
        assert(lv =~= LayerV { kind: "COPY"@, files: lv.files, env: seq![] });
    }
    Ok(())
}

fn env_exec(state: &mut PreviewState, key: &String, value: &String, line: usize)
    ensures
        final(state)@ == env_step(old(state)@, key@, value@, line as nat),
{
    let ghost e0 = state.env@;
    state.env.insert(key.clone(), value.clone());
    assert(env_view(state.env@) =~= env_view(e0).insert(key@, value@));
    let mut pairs: Vec<(String, String)> = Vec::new();
    pairs.push((key.clone(), value.clone()));
    let layer = LayerSummary { instruction_type: "ENV".to_string(), files_changed: Vec::new(), env_changed: pairs };
    assert(layer@ =~= LayerV { kind: "ENV"@, files: seq![], env: seq![(key@, value@)] });
    let mut raw: Vec<char> = Vec::new();
    append_str(&mut raw, "ENV ");
    append_str(&mut raw, key.as_str());
    append_str(&mut raw, "=");
    append_str(&mut raw, value.as_str());
    let mut effect: Vec<char> = Vec::new();
    append_str(&mut effect, "set ");
    append_str(&mut effect, key.as_str());
    append_str(&mut effect, "=");
    append_str(&mut effect, value.as_str());
    record_exec(state, line, string_of(&raw), string_of(&effect), layer);
}

fn run_cmd_exec(state: &mut PreviewState, command: &String, line: usize)
    ensures
        final(state)@ == run_step_cmd(old(state)@, command@, line as nat),
{
    let ghost st0 = state@;
    let layer = handle_run(state, command.as_str(), line);
    assert(sim_of(old(state).fs, old(state).warnings@, seq![]) == sim_start(st0));
    let mut raw: Vec<char> = Vec::new();
    append_str(&mut raw, "RUN ");
    append_str(&mut raw, command.as_str());
    let mut effect: Vec<char> = Vec::new();
    append_str(&mut effect, "RUN (unmodeled): ");
    append_str(&mut effect, command.as_str());
    let ghost lv = layer@;
    record_exec(state, line, string_of(&raw), string_of(&effect), layer);
    assert(lv =~= LayerV { kind: "RUN"@, files: lv.files, env: seq![] });
}

fn unknown_exec(state: &mut PreviewState, raw: &String, line: usize)
    ensures
        final(state)@ == unknown_step(old(state)@, raw@, line as nat),
{
    let rv = chars_of(raw.as_str());
    let ws = words_of(&rv);
    let kw = if ws.len() > 0 {
        let w = string_of(&ws[0]);
        assert(crate::text::vviews(ws@)[0] == ws@[0]@);
        to_uppercase(w.as_str())
    } else {
        to_uppercase("UNKNOWN")
    };
    let w = Warning::UnsupportedInstruction { instruction: kw.clone(), line };
    proof {
        lemma_wviews_push(state.warnings@, w);
    }
    state.warnings.push(w);
    let mut effect: Vec<char> = Vec::new();
    append_str(&mut effect, "unsupported instruction '");
    append_str(&mut effect, kw.as_str());
    append_str(&mut effect, "' (skipped)");
    let layer = LayerSummary { instruction_type: kw, files_changed: Vec::new(), env_changed: Vec::new() };
    assert(layer@ =~= bare_layer(keyword_of(raw@)));
    record_exec(state, line, raw.clone(), string_of(&effect), layer);
}

fn step(
    state: &mut PreviewState,
    registry: &mut StageRegistry,
    stage_index: &mut usize,
    current_alias: &mut Option<String>,
    ins: &Instruction,
    host: &HostSource,
    ctx: &str,
    line: usize,
) -> (r: Result<(), EngineError>)
    requires
        *old(stage_index) < usize::MAX,
    ensures
        match step_error(*ins, *host) {
            Some(e) => match r {
                Err(EngineError::Io { path, message }) => path@ == e.0 && message@ == e.1,
                Ok(_) => false,
            },
            None => r is Ok && runv(*final(state), *final(registry), *final(stage_index), *final(current_alias))
                == run_step(
                runv(*old(state), *old(registry), *old(stage_index), *old(current_alias)),
                *ins,
                *host,
                ctx@,
                line as nat,
            ) && *final(stage_index) <= *old(stage_index) + 1,
        },
{
    match ins {
        Instruction::From { image, alias } => {
            from_exec(state, registry, stage_index, current_alias, image, alias, line);
        },
        Instruction::Workdir { path } => {
            workdir_exec(state, path, line);
        },
        Instruction::Copy { source, dest } => {
            match copy_exec(state, registry, source, dest, host, ctx, line) {
                Ok(()) => {},
                Err(e) => {
                    return Err(e);
                },
            }
        },
        Instruction::Env { key, value } => {
            env_exec(state, key, value, line);
        },
        Instruction::Run { command } => {
            run_cmd_exec(state, command, line);
        },
        Instruction::Unknown { raw } => {
            unknown_exec(state, raw, line);
        },
    }
    Ok(())
}

/// Runs Dockerfile instructions against a fresh preview state.
///
/// `hosts[i]` describes what the build context `context_dir` holds at the
/// source of instruction `i` when it is a host COPY (it is ignored for any
/// other instruction). The first unreadable host source stops the run with
/// an error; everything else that is not modeled becomes a warning.
pub fn run(instructions: Vec<Instruction>, hosts: &Vec<HostSource>, context_dir: &str) -> (r: Result<
    EngineOutput,
    EngineError,
>)
    requires
        hosts@.len() == instructions@.len(),
    ensures
        match first_error(instructions@, hosts@, instructions@.len()) {
            Some(e) => match r {
                Err(EngineError::Io { path, message }) => path@ == e.0 && message@ == e.1,
                Ok(_) => false,
            },
            None => match r {
                Ok(out) => {
                    let f = run_upto(instructions@, hosts@, context_dir@, instructions@.len());
                    &&& out.state@ == f.st
                    &&& reg_view(out.stages@) == reg_insert(f.reg, f.index, f.alias, f.st)
                    &&& (instructions@.len() > 0 && instructions@[0] is From && aliases_not_numeric(instructions@)
                        ==> index_keys(out.stages@.dom()).len() == from_count(instructions@))
                },
                Err(_) => false,
            },
        },
{
    let mut state = PreviewState::new();
    let mut registry = StageRegistry::new();
    let mut stage_index: usize = 0;
    let mut current_alias: Option<String> = None;
    proof {
        assert(state@.env =~= Map::<Seq<char>, Seq<char>>::empty());
        assert(state@.installed =~= empty_state_v().installed);
        assert(state@.history =~= Seq::<HistV>::empty());
        assert(state@.layers =~= Seq::<LayerV>::empty());
        assert(state@.warns =~= Seq::<WarnV>::empty());
        assert(state@.mounts =~= empty_state_v().mounts);
        reveal_strlit("/");
        assert(state@ =~= empty_state_v());
        assert(reg_view(registry@) =~= Map::<Seq<char>, StateV>::empty());
        assert(runv(state, registry, stage_index, current_alias) =~= run_upto(
            instructions@,
            hosts@,
            context_dir@,
            0,
        ));
    }
    let mut i: usize = 0;
    while i < instructions.len()
        invariant
            i <= instructions@.len(),
            hosts@.len() == instructions@.len(),
            stage_index <= i,
            first_error(instructions@, hosts@, i as nat) is None,
            runv(state, registry, stage_index, current_alias) == run_upto(
                instructions@,
                hosts@,
                context_dir@,
                i as nat,
            ),
        decreases instructions.len() - i,
    {
        match step(
            &mut state,
            &mut registry,
            &mut stage_index,
            &mut current_alias,
            &instructions[i],
            &hosts[i],
            context_dir,
            i + 1,
        ) {
            Ok(()) => {},
            Err(e) => {
                proof {
                    lemma_first_error_stable(instructions@, hosts@, (i + 1) as nat, instructions@.len());
                }
                return Err(e);
            },
        }
        i = i + 1;
    }
    let a = as_str_opt(&current_alias);
    let last = state.dup();
    registry.insert(stage_index, a, last);
    proof {
        if instructions@.len() > 0 && instructions@[0] is From && aliases_not_numeric(instructions@) {
            law_one_stage_per_from(instructions@, hosts@, context_dir@);
            assert(reg_view(registry@).dom() =~= registry@.dom());
        }
    }
    Ok(EngineOutput { state, stages: registry })
}

} // verus!
