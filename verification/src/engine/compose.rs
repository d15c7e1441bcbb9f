//! Compose services: selecting a service and applying its overrides to the
//! state built from its Dockerfile (or to an empty state for an image-only
//! service).
//!
//! Override precedence, highest first: `environment` entries, then
//! `env_file` entries (later files and later lines win), then the
//! Dockerfile's `ENV` instructions.

use vstd::prelude::*;
use crate::engine::copy::{ensure_anc, ensure_ancestors};
use crate::engine::mount::{apply_mount_shadows, mount_infos, shadows};
use crate::model::compose::{ComposeFile, EnvEntry, Service};
use crate::model::fs::{es_has, es_put, fresh_dir, fresh_dir_v};
use crate::model::provenance::{ProvenanceSource, SrcV};
use crate::model::sorted::SortedMap;
use crate::model::state::{env_view, mviews, PreviewState, StateV};
use crate::model::warning::{lemma_wviews_push, WarnV, Warning, wviews};
use crate::path::{
    abs_path, dotdot, is_under, is_under_exec, joined_segs, joined_segs_exec, lemma_canon_abs_path, lemma_norm_wf,
    lemma_segs_append_wf, lemma_segs_wf, norm, norm_exec, resolve, resolve_exec, segs, abs_path_exec,
};
use crate::text::{
    append_chars, append_str, chars_of, copy_chars, find, find_exec, is_ascii_ws, is_ascii_ws_char, lines, lines_exec, string_of, subvec, trim,
    trim_chars, trim_end, trim_end_chars, vviews,
};

verus! {

/// An error that stops a Compose service preview.
#[derive(Debug, Clone, PartialEq)]
pub enum ComposeEngineError {
    /// No service has the requested name.
    ServiceNotFound { name: String },
    /// The service's Dockerfile (or build context) cannot be found, or lies
    /// outside the project directory.
    DockerfileNotFound { path: String },
    /// The Dockerfile could not be parsed.
    ParseError { message: String },
    /// The engine failed on the Dockerfile's instructions.
    EngineError { message: String },
    /// A host I/O error.
    Io { message: String },
}

impl ComposeEngineError {
    /// The human-readable text of the error.
    pub open spec fn text(&self) -> Seq<char> {
        match self {
            ComposeEngineError::ServiceNotFound { name } => "service '"@ + name@ + "' not found in compose file"@,
            ComposeEngineError::DockerfileNotFound { path } => "Dockerfile not found: '"@ + path@ + "'"@,
            ComposeEngineError::ParseError { message } => "Dockerfile parse error: "@ + message@,
            ComposeEngineError::EngineError { message } => "engine error: "@ + message@,
            ComposeEngineError::Io { message } => "I/O error: "@ + message@,
        }
    }

    /// The human-readable text of the error.
    pub fn describe(&self) -> (r: String)
        ensures
            r@ == self.text(),
    {
        let mut v: Vec<char> = Vec::new();
        match self {
            ComposeEngineError::ServiceNotFound { name } => {
                append_str(&mut v, "service '");
                append_str(&mut v, name.as_str());
                append_str(&mut v, "' not found in compose file");
            },
            ComposeEngineError::DockerfileNotFound { path } => {
                append_str(&mut v, "Dockerfile not found: '");
                append_str(&mut v, path.as_str());
                append_str(&mut v, "'");
            },
            ComposeEngineError::ParseError { message } => {
                append_str(&mut v, "Dockerfile parse error: ");
                append_str(&mut v, message.as_str());
            },
            ComposeEngineError::EngineError { message } => {
                append_str(&mut v, "engine error: ");
                append_str(&mut v, message.as_str());
            },
            ComposeEngineError::Io { message } => {
                append_str(&mut v, "I/O error: ");
                append_str(&mut v, message.as_str());
            },
        }
        assert(v@ =~= self.text());
        string_of(&v)
    }
}

/// The result of a Compose service preview.
pub struct ComposeEngineOutput {
    /// The merged state: Dockerfile plus Compose overrides.
    pub state: PreviewState,
    /// The Compose file the service came from.
    pub compose_file: ComposeFile,
    /// The name of the selected service.
    pub selected_service: String,
}

// ───────────────────────── containment ─────────────────────────

/// Where a build path of the service may be read from: `resolved` is the
/// path as joined on the host, `canonical` what canonicalising it gave
/// (`None`: it could not be canonicalised, so it does not exist), and
/// `root` the canonical project directory. A path that does not exist is
/// reported as it was joined; one outside the project directory is
/// reported as it was canonicalised; one inside is read at its canonical
/// spelling.
pub fn admit_build_path(root: &str, resolved: &str, canonical: Option<&str>) -> (r: Result<String, ComposeEngineError>)
    ensures
        match canonical {
            None => r matches Err(ComposeEngineError::DockerfileNotFound { path }) && path@ == resolved@,
            Some(c) => if is_under(root@, c@) {
                r matches Ok(p) && p@ == c@
            } else {
                r matches Err(ComposeEngineError::DockerfileNotFound { path }) && path@ == c@
            },
        },
{
    match canonical {
        None => Err(ComposeEngineError::DockerfileNotFound { path: resolved.to_string() }),
        Some(c) => {
            let rv = chars_of(root);
            let cv = chars_of(c);
            if is_under_exec(&rv, &cv) {
                Ok(c.to_string())
            } else {
                Err(ComposeEngineError::DockerfileNotFound { path: c.to_string() })
            }
        },
    }
}

/// The path an env file is read from: its canonical spelling, when it
/// could be canonicalised and lies inside the canonical project directory
/// `root`; otherwise none (the file is treated as missing).
pub fn admit_env_file(root: &str, canonical: Option<&str>) -> (r: Option<String>)
    ensures
        match canonical {
            Some(c) => if is_under(root@, c@) {
                r matches Some(p) && p@ == c@
            } else {
                r is None
            },
            None => r is None,
        },
{
    match canonical {
        Some(c) => {
            let rv = chars_of(root);
            let cv = chars_of(c);
            if is_under_exec(&rv, &cv) {
                Some(c.to_string())
            } else {
                None
            }
        },
        None => None,
    }
}

// ───────────────────────── env files ─────────────────────────

/// `v` is wrapped in a matching pair of `"` or `'`.
pub open spec fn quoted(v: Seq<char>) -> bool {
    v.len() >= 2 && ((v[0] == '"' && v.last() == '"') || (v[0] == '\'' && v.last() == '\''))
}

/// The position of the first `#` in `v` at or after `i` (from `1` on)
/// that follows an ASCII whitespace character: where an inline comment starts.
pub open spec fn comment_from(v: Seq<char>, i: int) -> Option<int>
    decreases v.len() - i,
{
    if i < 1 || i >= v.len() {
        None
    } else if v[i] == '#' && is_ascii_ws(v[i - 1]) {
        Some(i)
    } else {
        comment_from(v, i + 1)
    }
}

/// A value without its inline comment: a quoted value is kept whole;
/// otherwise a `#` that follows ASCII whitespace starts a comment, which is
/// dropped together with that whitespace and any whitespace before it.
pub open spec fn comment_stripped(v: Seq<char>) -> Seq<char> {
    if quoted(trim(v)) {
        v
    } else {
        match comment_from(v, 1) {
            Some(p) => trim_end(v.take(p - 1)),
            None => trim_end(v),
        }
    }
}

/// A trimmed value without one matching pair of surrounding quotes.
pub open spec fn quotes_stripped(v: Seq<char>) -> Seq<char> {
    if quoted(trim(v)) {
        trim(v).subrange(1, trim(v).len() - 1)
    } else {
        trim(v)
    }
}

/// The `KEY=value` assignment of one env-file line: blank lines, comments,
/// lines without `=` and lines with an empty key give none.
pub open spec fn env_line(line: Seq<char>) -> Option<(Seq<char>, Seq<char>)> {
    let l = trim(line);
    if l.len() == 0 || l[0] == '#' {
        None
    } else {
        match find(l, seq!['=']) {
            Some(p) => if p == 0 {
                None
            } else {
                Some((l.take(p), quotes_stripped(comment_stripped(l.skip(p + 1)))))
            },
            None => None,
        }
    }
}

/// `env` after applying, in order, the assignments of `ls`.
pub open spec fn apply_env_lines(env: Map<Seq<char>, Seq<char>>, ls: Seq<Seq<char>>) -> Map<Seq<char>, Seq<char>>
    decreases ls.len(),
{
    if ls.len() == 0 {
        env
    } else {
        let e = apply_env_lines(env, ls.drop_last());
        match env_line(ls.last()) {
            Some((k, v)) => e.insert(k, v),
            None => e,
        }
    }
}

/// Strips an inline comment from an env-file value (see `comment_stripped`).
pub fn strip_inline_comment(value: &str) -> (r: String)
    ensures
        r@ == comment_stripped(value@),
{
    let v = chars_of(value);
    let t = trim_chars(&v);
    if is_quoted(&t) {
        return value.to_string();
    }
    match comment_start(&v) {
        Some(p) => {
            let head = subvec(&v, 0, p - 1);
            assert(head@ =~= v@.take(p - 1));
            string_of(&trim_end_chars(&head))
        },
        None => string_of(&trim_end_chars(&v)),
    }
}

/// Finds where an inline comment starts (see `comment_from`).
fn comment_start(v: &Vec<char>) -> (r: Option<usize>)
    ensures
        match r {
            Some(p) => comment_from(v@, 1) == Some(p as int) && 1 <= p < v@.len(),
            None => comment_from(v@, 1) is None,
        },
{
    let mut i: usize = 1;
    while i < v.len()
        invariant
            1 <= i,
            comment_from(v@, 1) == comment_from(v@, i as int),
        decreases v.len() - i,
    {
        if v[i] == '#' && is_ascii_ws_char(v[i - 1]) {
            return Some(i);
        }
        i = i + 1;
    }
    None
}

fn is_quoted(t: &Vec<char>) -> (b: bool)
    ensures
        b == quoted(t@),
{
    let n = t.len();
    n >= 2 && ((t[0] == '"' && t[n - 1] == '"') || (t[0] == '\'' && t[n - 1] == '\''))
}

/// Trims a value and strips one matching pair of surrounding quotes.
pub fn strip_surrounding_quotes(value: &str) -> (r: String)
    ensures
        r@ == quotes_stripped(value@),
{
    let v = chars_of(value);
    let t = trim_chars(&v);
    if is_quoted(&t) {
        let inner = subvec(&t, 1, t.len() - 1);
        string_of(&inner)
    } else {
        string_of(&t)
    }
}

fn env_line_exec(line: &Vec<char>) -> (r: Option<(String, String)>)
    ensures
        match r {
            Some((k, v)) => env_line(line@) == Some((k@, v@)),
            None => env_line(line@) is None,
        },
{
    let l = trim_chars(line);
    if l.len() == 0 || l[0] == '#' {
        return None;
    }
    let eq = vec!['='];
    assert(eq@ =~= seq!['=']);
    match find_exec(&l, &eq) {
        Some(p) => {
            if p == 0 {
                return None;
            }
            let key = subvec(&l, 0, p);
            let raw = subvec(&l, p + 1, l.len());
            assert(key@ =~= l@.take(p as int));
            assert(raw@ =~= l@.skip(p + 1));
            let raw_s = string_of(&raw);
            let no_comment = strip_inline_comment(raw_s.as_str());
            let value = strip_surrounding_quotes(no_comment.as_str());
            Some((string_of(&key), value))
        },
        None => None,
    }
}

/// Parses a `.env` file into `env`: each `KEY=value` line sets `KEY`, in
/// order; comments (`#`), blank lines, lines without `=` and lines with an
/// empty key are skipped; inline comments and one pair of surrounding
/// quotes are stripped from values.
pub fn parse_env_file(content: &str, env: &mut SortedMap<String>)
    ensures
        env_view(final(env)@) == apply_env_lines(env_view(old(env)@), lines(content@)),
{
    let c = chars_of(content);
    let ls = lines_exec(&c);
    let ghost lv = vviews(ls@);
    let ghost e0 = env_view(env@);
    let mut i: usize = 0;
    while i < ls.len()
        invariant
            i <= ls@.len(),
            lv == vviews(ls@),
            env_view(env@) == apply_env_lines(e0, lv.take(i as int)),
        decreases ls.len() - i,
    {
        assert(lv.take(i + 1).drop_last() =~= lv.take(i as int));
        assert(lv.take(i + 1).last() == ls@[i as int]@);
        match env_line_exec(&ls[i]) {
            Some((k, v)) => {
                let ghost before = env@;
                let ghost kv = k@;
                let ghost vv = v@;
                env.insert(k, v);
                assert(env_view(env@) =~= env_view(before).insert(kv, vv));
            },
            None => {},
        }
        i = i + 1;
    }
    assert(lv.take(ls@.len() as int) =~= lv);
}

// ───────────────────────── overrides ─────────────────────────

/// An environment together with the warnings collected while building it.
pub struct EnvW {
    pub env: Map<Seq<char>, Seq<char>>,
    pub warns: Seq<WarnV>,
}

/// The env files of a service, given what each read produced (`None` when
/// the file was missing, unreadable or outside the project directory).
pub open spec fn apply_env_files(w: EnvW, paths: Seq<String>, reads: Seq<Option<String>>) -> EnvW
    decreases paths.len(),
{
    if paths.len() == 0 {
        w
    } else {
        let i = paths.len() - 1;
        let p = apply_env_files(w, paths.drop_last(), reads);
        if i < reads.len() && reads[i] is Some {
            EnvW { env: apply_env_lines(p.env, lines(reads[i]->0@)), ..p }
        } else {
            EnvW { warns: p.warns.push(WarnV::EnvFileNotFound(paths[i]@)), ..p }
        }
    }
}

/// The `environment` entries of a service, in order; a key without a value
/// is only warned about.
pub open spec fn apply_environment(w: EnvW, entries: Seq<EnvEntry>) -> EnvW
    decreases entries.len(),
{
    if entries.len() == 0 {
        w
    } else {
        let p = apply_environment(w, entries.drop_last());
        match entries.last() {
            EnvEntry::KeyValue { key, value } => EnvW { env: p.env.insert(key@, value@), ..p },
            EnvEntry::KeyOnly { key } => EnvW { warns: p.warns.push(WarnV::UnresolvedEnvKey(key@)), ..p },
        }
    }
}

/// Resolving the segments `ss` in order would take a `..` above the root.
pub open spec fn escapes_root(ss: Seq<Seq<char>>) -> bool
    decreases ss.len(),
{
    if ss.len() == 0 {
        false
    } else {
        escapes_root(ss.drop_last()) || (ss.last() == dotdot() && norm(ss.drop_last()).len() == 0)
    }
}

/// The `working_dir` override: the path is resolved against the working
/// directory, with a warning when a `..` had to be clamped at the root;
/// the directory and its ancestors are created when missing.
pub open spec fn workdir_override(st: StateV, wd: Seq<char>) -> StateV {
    let nc = resolve(st.cwd, wd);
    let warns = if escapes_root(joined_segs(st.cwd, wd)) {
        st.warns.push(WarnV::WorkdirEscapedRoot(wd))
    } else {
        st.warns
    };
    let es1 = ensure_anc(st.es, nc, SrcV::Workdir);
    StateV {
        cwd: nc,
        warns,
        es: if es_has(es1, nc) {
            es1
        } else {
            es_put(es1, nc, fresh_dir_v(SrcV::Workdir))
        },
        ..st
    }
}

/// All Compose overrides of `service`, in order: env files, environment,
/// working directory, volume mounts.
pub open spec fn compose_overrides(st: StateV, service: Service, reads: Seq<Option<String>>) -> StateV {
    let w1 = apply_env_files(EnvW { env: st.env, warns: st.warns }, service.env_file@, reads);
    let w2 = apply_environment(w1, service.environment@);
    let st2 = StateV { env: w2.env, warns: w2.warns, ..st };
    let st3 = match service.working_dir {
        Some(wd) => workdir_override(st2, wd@),
        None => st2,
    };
    StateV {
        es: shadows(st3.es, service.volumes@),
        mounts: st3.mounts + mount_infos(service.volumes@),
        ..st3
    }
}

/// Normalizes a path of the virtual filesystem: `.` is dropped and `..`
/// pops a segment, never above `/`.
pub fn normalize_virtual_path(path: &str) -> (r: String)
    ensures
        r@ == resolve(seq!['/'], path@),
{
    let root = vec!['/'];
    assert(root@ =~= seq!['/']);
    let p = chars_of(path);
    let r = resolve_exec(&root, &p);
    string_of(&r)
}

fn escapes_root_exec(ss: &Vec<Vec<char>>) -> (b: bool)
    ensures
        b == escapes_root(vviews(ss@)),
{
    let ghost sv = vviews(ss@);
    let mut depth: usize = 0;
    let mut i: usize = 0;
    while i < ss.len()
        invariant
            i <= ss@.len(),
            sv == vviews(ss@),
            !escapes_root(sv.take(i as int)),
            depth == norm(sv.take(i as int)).len(),
            depth <= i,
        decreases ss.len() - i,
    {
        let s = &ss[i];
        let is_up = s.len() == 2 && s[0] == '.' && s[1] == '.';
        assert(is_up == (s@ == dotdot())) by {
            if is_up {
                assert(s@ =~= dotdot());
            }
        }
        assert(sv.take(i + 1).drop_last() =~= sv.take(i as int));
        assert(sv.take(i + 1).last() == s@);
        if is_up {
            if depth == 0 {
                assert(escapes_root(sv.take(i + 1)));
                proof {
                    lemma_escapes_prefix(sv, i + 1);
                }
                return true;
            }
            depth = depth - 1;
        } else {
            depth = depth + 1;
        }
        i = i + 1;
    }
    assert(sv.take(ss@.len() as int) =~= sv);
    false
}

proof fn lemma_escapes_prefix(ss: Seq<Seq<char>>, n: int)
    requires
        0 <= n <= ss.len(),
        escapes_root(ss.take(n)),
    ensures
        escapes_root(ss),
    decreases ss.len() - n,
{
    if n < ss.len() {
        assert(ss.take(n + 1).drop_last() =~= ss.take(n));
        lemma_escapes_prefix(ss, n + 1);
    } else {
        assert(ss.take(n) =~= ss);
    }
}

/// The state of an image-only service: empty, with the image (or
/// `<unknown>`) as the active stage and a warning that it has no build
/// context.
pub fn image_only_state(service: &Service) -> (s: PreviewState)
    ensures
        s.cwd@ == "/"@,
        s.env@ == Map::<Seq<char>, String>::empty(),
        s.fs.ev() == Seq::<(Seq<char>, crate::model::fs::NodeV)>::empty(),
        s.history@.len() == 0,
        s.layers@.len() == 0,
        s.mounts@.len() == 0,
        s.installed.apt@ == Set::<Seq<char>>::empty(),
        s.installed.pip@ == Set::<Seq<char>>::empty(),
        s.installed.npm@ == Set::<Seq<char>>::empty(),
        s.installed.go_pkgs@ == Set::<Seq<char>>::empty(),
        s.installed.apk@ == Set::<Seq<char>>::empty(),
        s.active_stage matches Some(a) && a@ == (match service.image {
            Some(i) => i@,
            None => "<unknown>"@,
        }),
        wviews(s.warnings@) == seq![WarnV::ImageOnlyService(
            match service.image {
                Some(i) => i@,
                None => "<unknown>"@,
            },
        )],
{
    let mut s = PreviewState::new();
    let image = match &service.image {
        Some(i) => i.clone(),
        None => "<unknown>".to_string(),
    };
    s.active_stage = Some(image.clone());
    let w = Warning::ImageOnlyService { image };
    proof {
        lemma_wviews_push(s.warnings@, w);
    }
    s.warnings.push(w);
    assert(wviews(s.warnings@) =~= seq![w@]);
    s
}

/// Looks up a service by name.
pub fn select_service<'a>(compose_file: &'a ComposeFile, name: &str) -> (r: Result<&'a Service, ComposeEngineError>)
    ensures
        match r {
            Ok(s) => compose_file.services@.contains_key(name@) && *s == compose_file.services@[name@],
            Err(ComposeEngineError::ServiceNotFound { name: n }) => !compose_file.services@.contains_key(name@)
                && n@ == name@,
            Err(_) => false,
        },
{
    match compose_file.services.get(name) {
        Some(s) => Ok(s),
        None => Err(ComposeEngineError::ServiceNotFound { name: name.to_string() }),
    }
}

/// Applies a service's Compose overrides to `state`, in order: its env
/// files (`reads[i]` holds the contents of `env_file[i]`, or `None` when
/// that file is missing, unreadable or outside the project directory),
/// its `environment` entries, its `working_dir`, and its volume mounts.
pub fn apply_compose_overrides(state: &mut PreviewState, service: &Service, reads: &Vec<Option<String>>)
    ensures
        final(state)@ == compose_overrides(old(state)@, *service, reads@),
{
    // env files
    let ghost w0 = EnvW { env: env_view(state.env@), warns: wviews(state.warnings@) };
    let mut i: usize = 0;
    while i < service.env_file.len()
        invariant
            i <= service.env_file@.len(),
            apply_env_files(w0, service.env_file@.take(i as int), reads@) == (EnvW {
                env: env_view(state.env@),
                warns: wviews(state.warnings@),
            }),
            state.cwd == old(state).cwd,
            state.fs == old(state).fs,
            state.installed == old(state).installed,
            state.history == old(state).history,
            state.layers == old(state).layers,
            state.active_stage == old(state).active_stage,
            state.mounts == old(state).mounts,
        decreases service.env_file.len() - i,
    {
        assert(service.env_file@.take(i + 1).drop_last() =~= service.env_file@.take(i as int));
        assert(service.env_file@.take(i + 1).len() - 1 == i);
        assert(service.env_file@.take(i + 1)[i as int] == service.env_file@[i as int]);
        if i < reads.len() && reads[i].is_some() {
            match &reads[i] {
                Some(content) => {
                    parse_env_file(content.as_str(), &mut state.env);
                },
                None => {},
            }
        } else {
            let w = Warning::EnvFileNotFound { path: service.env_file[i].clone() };
            proof {
                lemma_wviews_push(state.warnings@, w);
            }
            state.warnings.push(w);
        }
        i = i + 1;
    }
    assert(service.env_file@.take(service.env_file@.len() as int) =~= service.env_file@);
    // environment
    let ghost w1 = EnvW { env: env_view(state.env@), warns: wviews(state.warnings@) };
    let mut j: usize = 0;
    while j < service.environment.len()
        invariant
            j <= service.environment@.len(),
            apply_environment(w1, service.environment@.take(j as int)) == (EnvW {
                env: env_view(state.env@),
                warns: wviews(state.warnings@),
            }),
            state.cwd == old(state).cwd,
            state.fs == old(state).fs,
            state.installed == old(state).installed,
            state.history == old(state).history,
            state.layers == old(state).layers,
            state.active_stage == old(state).active_stage,
            state.mounts == old(state).mounts,
        decreases service.environment.len() - j,
    {
        assert(service.environment@.take(j + 1).drop_last() =~= service.environment@.take(j as int));
        assert(service.environment@.take(j + 1).last() == service.environment@[j as int]);
        match &service.environment[j] {
            EnvEntry::KeyValue { key, value } => {
                let ghost before = state.env@;
                state.env.insert(key.clone(), value.clone());
                assert(env_view(state.env@) =~= env_view(before).insert(key@, value@));
            },
            EnvEntry::KeyOnly { key } => {
                let w = Warning::UnresolvedEnvKey { key: key.clone() };
                proof {
                    lemma_wviews_push(state.warnings@, w);
                }
                state.warnings.push(w);
            },
        }
        j = j + 1;
    }
    assert(service.environment@.take(service.environment@.len() as int) =~= service.environment@);
    let ghost st2 = state@;
    // working directory
    match &service.working_dir {
        Some(wd) => {
            let cwd = chars_of(state.cwd.as_str());
            let w = chars_of(wd.as_str());
            let joined = joined_segs_exec(&cwd, &w);
            let escaped = escapes_root_exec(&joined);
            let n = norm_exec(&joined);
            let nc = abs_path_exec(&n);
            proof {
                lemma_segs_wf(cwd@);
                lemma_segs_wf(w@);
                lemma_segs_append_wf(segs(cwd@), segs(w@));
                lemma_norm_wf(joined_segs(cwd@, w@));
                lemma_canon_abs_path(norm(joined_segs(cwd@, w@)));
            }
            if escaped {
                let wn = Warning::WorkdirEscapedRoot { path: wd.clone() };
                proof {
                    lemma_wviews_push(state.warnings@, wn);
                }
                state.warnings.push(wn);
            }
            ensure_ancestors(&mut state.fs, &nc, &ProvenanceSource::Workdir);
            if !state.fs.contains_key(&nc) {
                state.fs.insert_key(copy_chars(&nc), fresh_dir(ProvenanceSource::Workdir));
            }
            state.cwd = string_of(&nc);
            assert(state@ =~= workdir_override(st2, wd@));
        },
        None => {},
    }
    let ghost st3 = state@;
    apply_mount_shadows(state, &service.volumes);
    assert(state@ =~= StateV {
        es: shadows(st3.es, service.volumes@),
        mounts: st3.mounts + mount_infos(service.volumes@),
        ..st3
    });
}


/// The error text for a service name the Compose file does not define,
/// listing every service name in increasing order.
pub fn service_not_found_text(compose_file: &ComposeFile, name: &str) -> (r: String)
    ensures
        r@ == "service '"@ + name@ + "' not found in compose file; available services: "@ + crate::text::join(
            crate::model::sorted::in_order(compose_file.services@.dom()),
            ", "@,
        ),
{
    let keys = compose_file.services.keys();
    let es = compose_file.services.entries();
    let ghost m = compose_file.services@;
    let ghost q = crate::text::sviews(keys@);
    proof {
        crate::model::sorted::lemma_kv_map(es@);
        assert forall|i: int| 0 <= i < q.len() implies q[i] == es@[i].0@ by {}
        assert(crate::model::sorted::strictly_sorted(q)) by {
            assert forall|a: int, b: int| 0 <= a < b < q.len() implies crate::model::sorted::lex_lt(q[a], q[b]) by {
                assert(q[a] == es@[a].0@ && q[b] == es@[b].0@);
            }
        }
        assert forall|k: Seq<char>| m.dom().contains(k) <==> q.contains(k) by {
            if q.contains(k) {
                let i = choose|i: int| 0 <= i < q.len() && q[i] == k;
                assert(es@[i].0@ == k);
            }
            if m.dom().contains(k) {
                let i = choose|i: int| 0 <= i < es@.len() && #[trigger] es@[i].0@ == k;
                assert(q[i] == k);
            }
        }
        crate::model::sorted::lemma_in_order(m.dom(), q);
    }
    let mut v: Vec<char> = Vec::new();
    append_str(&mut v, "service '");
    append_str(&mut v, name);
    append_str(&mut v, "' not found in compose file; available services: ");
    let j = crate::model::warning::join_strings(&keys, ", ");
    append_chars(&mut v, &j);
    assert(crate::model::warning::string_views(keys@) =~= q);
    string_of(&v)
}

} // verus!
