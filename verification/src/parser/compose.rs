//! Compose files: the shapes their YAML takes, and their conversion into
//! the domain model (volume short syntax, environment entries, build
//! sections, dependency lists).
//!
//! Reading the YAML text into these shapes is serde's work and is done by
//! the program; everything after that is here.

use vstd::prelude::*;
use crate::model::compose::{
    env_views, opt_chars, vol_views, BuildConfig, ComposeFile, EnvEntry, EnvV, Service, ServiceV, VolV,
    VolumeDefinition, VolumeSpec,
};
use crate::model::sorted::SortedMap;
use crate::parser::error::ComposeParseError;
use crate::text::{chars_of, find, find_exec, string_of, subvec, sviews, trim, trim_chars};

verus! {

/// The first (up to) three `:`-separated parts of `s`, the last one keeping
/// any further colons (`str::splitn(3, ':')`).
pub open spec fn colon_parts(s: Seq<char>) -> Seq<Seq<char>> {
    match find(s, seq![':']) {
        None => seq![s],
        Some(i) => {
            let rest = s.skip(i + 1);
            match find(rest, seq![':']) {
                None => seq![s.take(i), rest],
                Some(j) => seq![s.take(i), rest.take(j), rest.skip(j + 1)],
            }
        },
    }
}

/// A bind mount when the source looks like a host path (starts with `.` or
/// `/`), a named volume otherwise.
pub open spec fn classify(source: Seq<char>, target: Seq<char>, read_only: bool) -> VolV {
    if source.len() > 0 && (source[0] == '.' || source[0] == '/') {
        VolV::Bind(source, target, read_only)
    } else {
        VolV::Named(source, target, read_only)
    }
}

/// The volume described by the short syntax `[source:]target[:options]`;
/// the option `ro` makes it read-only.
pub open spec fn volume_short(s: Seq<char>) -> VolV {
    let parts = colon_parts(s);
    if parts.len() == 1 {
        VolV::Anonymous(parts[0])
    } else if parts.len() == 2 {
        classify(parts[0], parts[1], false)
    } else {
        classify(parts[0], parts[1], parts[2] == "ro"@)
    }
}

/// The environment entry of a `KEY=value` or bare `KEY` string (split at
/// the first `=`).
pub open spec fn env_string(s: Seq<char>) -> EnvV {
    match find(s, seq!['=']) {
        Some(i) => EnvV::KeyValue(s.take(i), s.skip(i + 1)),
        None => EnvV::KeyOnly(s),
    }
}

/// Classifies a volume source as a bind mount or a named volume.
pub fn classify_source(source: &str, target: &str, read_only: bool) -> (v: VolumeSpec)
    ensures
        v@ == classify(source@, target@, read_only),
{
    let s = chars_of(source);
    if s.len() > 0 && (s[0] == '.' || s[0] == '/') {
        VolumeSpec::Bind { host_path: source.to_string(), container_path: target.to_string(), read_only }
    } else {
        VolumeSpec::Named { volume_name: source.to_string(), container_path: target.to_string(), read_only }
    }
}

/// Parses the short volume syntax `[source:]target[:options]`: one part is
/// an anonymous volume; otherwise the source is classified, and a third
/// part `ro` makes the mount read-only.
pub fn parse_volume_short(s: &str) -> (v: VolumeSpec)
    ensures
        v@ == volume_short(s@),
{
    let c = chars_of(s);
    let colon = vec![':'];
    assert(colon@ =~= seq![':']);
    match find_exec(&c, &colon) {
        None => VolumeSpec::Anonymous { container_path: s.to_string() },
        Some(i) => {
            assert(colon@.len() == 1);
            assert(i + 1 <= c@.len());
            let source = subvec(&c, 0, i);
            let n = c.len();
            let rest = subvec(&c, i + 1, n);
            assert(source@ =~= c@.take(i as int));
            assert(rest@ =~= c@.skip(i + 1));
            let src = string_of(&source);
            match find_exec(&rest, &colon) {
                None => {
                    let t = string_of(&rest);
                    classify_source(src.as_str(), t.as_str(), false)
                },
                Some(j) => {
                    assert(j + 1 <= rest@.len());
                    let target = subvec(&rest, 0, j);
                    let opts = subvec(&rest, j + 1, rest.len());
                    assert(target@ =~= rest@.take(j as int));
                    assert(opts@ =~= rest@.skip(j + 1));
                    let t = string_of(&target);
                    let ro = crate::text::chars_eq_str(&opts, "ro");
                    classify_source(src.as_str(), t.as_str(), ro)
                },
            }
        },
    }
}

/// Parses one `environment` list entry: `KEY=value` (split at the first
/// `=`, so the value may hold more) or a bare `KEY`.
pub fn parse_env_string(s: String) -> (e: EnvEntry)
    ensures
        e@ == env_string(s@),
{
    let c = chars_of(s.as_str());
    let n = c.len();
    let eq = vec!['='];
    assert(eq@ =~= seq!['=']);
    match find_exec(&c, &eq) {
        Some(i) => {
            assert(eq@.len() == 1);
            assert(i + 1 <= c@.len());
            let k = subvec(&c, 0, i);
            let v = subvec(&c, i + 1, n);
            assert(k@ =~= c@.take(i as int));
            assert(v@ =~= c@.skip(i + 1));
            EnvEntry::KeyValue { key: string_of(&k), value: string_of(&v) }
        },
        None => EnvEntry::KeyOnly { key: s },
    }
}

/// The Dockerfile name used when a build section names none.
pub fn default_dockerfile() -> (r: String)
    ensures
        r@ == "Dockerfile"@,
{
    "Dockerfile".to_string()
}


// ───────────────────────── the YAML shapes ─────────────────────────

/// A scalar or nested value of an `environment` mapping.
pub enum RawScalar {
    /// A string.
    Str(String),
    /// A number, in its canonical decimal text.
    Number(String),
    /// A boolean.
    Bool(bool),
    /// An explicit null or empty value.
    Null,
    /// A sequence, mapping or tagged value, rendered back to YAML text.
    Other(String),
}

/// `build:` — a context path, or a map with `context` and `dockerfile`.
pub enum RawBuild {
    Short(String),
    Full { context: String, dockerfile: String },
}

/// `environment:` — a list of `KEY[=value]` strings, or a mapping.
pub enum RawEnv {
    List(Vec<String>),
    Dict(Vec<(String, RawScalar)>),
}

/// `env_file:` — one path or a list of paths.
pub enum RawEnvFile {
    Single(String),
    List(Vec<String>),
}

/// `depends_on:` — a list of names, or a mapping whose keys are the names.
pub enum RawDependsOn {
    List(Vec<String>),
    Dict(Vec<String>),
}

/// One entry of a service's `volumes:`: short syntax or the long map form.
pub enum RawVolumeSpec {
    Short(String),
    Long { kind: String, source: Option<String>, target: String, read_only: bool },
}

/// A top-level named volume declaration.
pub struct RawVolumeDefinition {
    pub external: bool,
}

/// One service as written.
pub struct RawService {
    pub build: Option<RawBuild>,
    pub image: Option<String>,
    pub environment: Option<RawEnv>,
    pub env_file: Option<RawEnvFile>,
    pub volumes: Vec<RawVolumeSpec>,
    pub working_dir: Option<String>,
    pub depends_on: Option<RawDependsOn>,
    pub ports: Vec<String>,
}

/// A Compose file as written: services and named volumes in key order.
pub struct RawComposeFile {
    pub services: Option<Vec<(String, RawService)>>,
    pub volumes: Vec<(String, Option<RawVolumeDefinition>)>,
}

// ───────────────────────── the conversion, as specs ─────────────────────────

/// The text an `environment` mapping value stands for.
pub open spec fn scalar_text(v: RawScalar) -> Seq<char> {
    match v {
        RawScalar::Str(s) => s@,
        RawScalar::Number(t) => t@,
        RawScalar::Bool(b) => if b { "true"@ } else { "false"@ },
        RawScalar::Null => seq![],
        RawScalar::Other(t) => trim(t@),
    }
}

/// Context and Dockerfile of a build section.
pub open spec fn build_v(b: RawBuild) -> (Seq<char>, Seq<char>) {
    match b {
        RawBuild::Short(c) => (c@, "Dockerfile"@),
        RawBuild::Full { context, dockerfile } => (context@, dockerfile@),
    }
}

/// The environment entries of an `environment` section.
pub open spec fn env_v(e: Option<RawEnv>) -> Seq<EnvV> {
    match e {
        None => seq![],
        Some(RawEnv::List(items)) => Seq::new(items@.len(), |i: int| env_string(items@[i]@)),
        Some(RawEnv::Dict(pairs)) => Seq::new(
            pairs@.len(),
            |i: int| EnvV::KeyValue(pairs@[i].0@, scalar_text(pairs@[i].1)),
        ),
    }
}

/// The paths of an `env_file` section.
pub open spec fn env_file_v(e: Option<RawEnvFile>) -> Seq<Seq<char>> {
    match e {
        None => seq![],
        Some(RawEnvFile::Single(s)) => seq![s@],
        Some(RawEnvFile::List(items)) => sviews(items@),
    }
}

/// The service names of a `depends_on` section.
pub open spec fn depends_v(d: Option<RawDependsOn>) -> Seq<Seq<char>> {
    match d {
        None => seq![],
        Some(RawDependsOn::List(items)) => sviews(items@),
        Some(RawDependsOn::Dict(keys)) => sviews(keys@),
    }
}

/// The volume a `volumes:` entry describes; `None` for a long-form bind
/// without a source.  A long-form `volume` without a (non-empty) source is
/// anonymous; an unknown long-form type is anonymous too.
pub open spec fn vol_v(v: RawVolumeSpec) -> Option<VolV> {
    match v {
        RawVolumeSpec::Short(s) => Some(volume_short(s@)),
        RawVolumeSpec::Long { kind, source, target, read_only } => if kind@ == "bind"@ {
            match source {
                Some(h) => Some(VolV::Bind(h@, target@, read_only)),
                None => None,
            }
        } else if kind@ == "volume"@ {
            match source {
                Some(n) => if n@.len() > 0 {
                    Some(VolV::Named(n@, target@, read_only))
                } else {
                    Some(VolV::Anonymous(target@))
                },
                None => Some(VolV::Anonymous(target@)),
            }
        } else {
            Some(VolV::Anonymous(target@))
        },
    }
}

/// Every volume entry converts.
pub open spec fn vols_ok(vs: Seq<RawVolumeSpec>) -> bool {
    forall|i: int| 0 <= i < vs.len() ==> (#[trigger] vol_v(vs[i])) is Some
}

/// The service called `name`, when all its volumes convert.
pub open spec fn service_v(name: Seq<char>, raw: RawService) -> Option<ServiceV> {
    if vols_ok(raw.volumes@) {
        Some(
            ServiceV {
                name,
                build: match raw.build {
                    Some(b) => Some(build_v(b)),
                    None => None,
                },
                image: opt_chars(raw.image),
                environment: env_v(raw.environment),
                env_file: env_file_v(raw.env_file),
                volumes: Seq::new(raw.volumes@.len(), |i: int| vol_v(raw.volumes@[i])->Some_0),
                working_dir: opt_chars(raw.working_dir),
                depends_on: depends_v(raw.depends_on),
                ports: sviews(raw.ports@),
            },
        )
    } else {
        None
    }
}

/// The message of a long-form bind volume without a source.
pub open spec fn missing_source_text() -> Seq<char> {
    "bind volume missing 'source'"@
}

/// The index of the first service that does not convert, if any.
pub open spec fn first_bad(svcs: Seq<(String, RawService)>) -> Option<int> {
    if exists|i: int| 0 <= i < svcs.len() && service_v(svcs[i].0@, svcs[i].1) is None {
        Some(
            choose|i: int|
                0 <= i < svcs.len() && service_v(svcs[i].0@, svcs[i].1) is None && forall|j: int|
                    0 <= j < i ==> service_v(svcs[j].0@, svcs[j].1) is Some,
        )
    } else {
        None
    }
}

/// No two entries share a key.
pub open spec fn keys_distinct<V>(s: Seq<(String, V)>) -> bool {
    forall|i: int, j: int| 0 <= i < j < s.len() ==> s[i].0@ != s[j].0@
}

// ───────────────────────── the conversion ─────────────────────────

/// The string an `environment` mapping value stands for: numbers and
/// booleans in their usual text, null as empty, nested YAML trimmed.
pub fn yaml_value_to_string(v: &RawScalar) -> (r: String)
    ensures
        r@ == scalar_text(*v),
{
    match v {
        RawScalar::Str(s) => s.clone(),
        RawScalar::Number(t) => t.clone(),
        RawScalar::Bool(b) => if *b {
            "true".to_string()
        } else {
            "false".to_string()
        },
        RawScalar::Null => String::new(),
        RawScalar::Other(t) => {
            let c = chars_of(t.as_str());
            let tr = trim_chars(&c);
            string_of(&tr)
        },
    }
}

fn copy_strings(v: &Vec<String>) -> (r: Vec<String>)
    ensures
        sviews(r@) == sviews(v@),
{
    let mut r: Vec<String> = Vec::new();
    let mut i: usize = 0;
    while i < v.len()
        invariant
            i <= v@.len(),
            r@.len() == i,
            sviews(r@) == sviews(v@).take(i as int),
        decreases v.len() - i,
    {
        let ghost before = r@;
        r.push(v[i].clone());
        assert(r@ == before.push(v@[i as int]));
        assert forall|j: int| 0 <= j < i + 1 implies sviews(r@)[j] == sviews(v@).take(i + 1)[j] by {
            if j < i {
                assert(sviews(before)[j] == sviews(v@).take(i as int)[j]);
            }
        }
        assert(sviews(r@) =~= sviews(v@).take(i + 1));
        i = i + 1;
    }
    assert(sviews(v@).take(v@.len() as int) =~= sviews(v@));
    r
}

/// The build configuration of a build section (`Dockerfile` when only a
/// context is given).
pub fn convert_build(raw: &RawBuild) -> (b: BuildConfig)
    ensures
        (b.context@, b.dockerfile@) == build_v(*raw),
{
    match raw {
        RawBuild::Short(c) => BuildConfig { context: c.clone(), dockerfile: default_dockerfile() },
        RawBuild::Full { context, dockerfile } => BuildConfig {
            context: context.clone(),
            dockerfile: dockerfile.clone(),
        },
    }
}

/// The environment entries of an `environment` section, in order.
pub fn convert_env(raw: &Option<RawEnv>) -> (r: Vec<EnvEntry>)
    ensures
        env_views(r@) == env_v(*raw),
{
    let mut r: Vec<EnvEntry> = Vec::new();
    match raw {
        None => {},
        Some(RawEnv::List(items)) => {
            let mut i: usize = 0;
            while i < items.len()
                invariant
                    i <= items@.len(),
                    r@.len() == i,
                    env_views(r@) == Seq::new(items@.len(), |j: int| env_string(items@[j]@)).take(i as int),
                decreases items.len() - i,
            {
                let ghost before = r@;
                let e = parse_env_string(items[i].clone());
                r.push(e);
                proof {
                    let full = Seq::new(items@.len(), |j: int| env_string(items@[j]@));
                    assert(r@ == before.push(e));
                    assert forall|j: int| 0 <= j < i + 1 implies env_views(r@)[j] == full.take(i + 1)[j] by {
                        if j < i {
                            assert(env_views(before)[j] == full.take(i as int)[j]);
                        }
                    }
                    assert(env_views(r@) =~= full.take(i + 1));
                }
                i = i + 1;
            }
        },
        Some(RawEnv::Dict(pairs)) => {
            let mut i: usize = 0;
            while i < pairs.len()
                invariant
                    i <= pairs@.len(),
                    r@.len() == i,
                    env_views(r@) == Seq::new(
                        pairs@.len(),
                        |j: int| EnvV::KeyValue(pairs@[j].0@, scalar_text(pairs@[j].1)),
                    ).take(i as int),
                decreases pairs.len() - i,
            {
                let value = yaml_value_to_string(&pairs[i].1);
                let ghost before = r@;
                let e = EnvEntry::KeyValue { key: pairs[i].0.clone(), value };
                r.push(e);
                proof {
                    let full = Seq::new(
                        pairs@.len(),
                        |j: int| EnvV::KeyValue(pairs@[j].0@, scalar_text(pairs@[j].1)),
                    );
                    assert(r@ == before.push(e));
                    assert forall|j: int| 0 <= j < i + 1 implies env_views(r@)[j] == full.take(i + 1)[j] by {
                        if j < i {
                            assert(env_views(before)[j] == full.take(i as int)[j]);
                        }
                    }
                    assert(env_views(r@) =~= full.take(i + 1));
                }
                i = i + 1;
            }
        },
    }
    proof {
        match raw {
            None => {
                assert(env_views(r@) =~= env_v(*raw));
            },
            Some(RawEnv::List(items)) => {
                assert(Seq::new(items@.len(), |j: int| env_string(items@[j]@)).take(items@.len() as int)
                    =~= env_v(*raw));
            },
            Some(RawEnv::Dict(pairs)) => {
                assert(Seq::new(
                    pairs@.len(),
                    |j: int| EnvV::KeyValue(pairs@[j].0@, scalar_text(pairs@[j].1)),
                ).take(pairs@.len() as int) =~= env_v(*raw));
            },
        }
    }
    r
}

/// The paths of an `env_file` section.
pub fn convert_env_file(raw: &Option<RawEnvFile>) -> (r: Vec<String>)
    ensures
        sviews(r@) == env_file_v(*raw),
{
    match raw {
        None => {
            let r: Vec<String> = Vec::new();
            assert(sviews(r@) =~= env_file_v(*raw));
            r
        },
        Some(RawEnvFile::Single(s)) => {
            let mut r: Vec<String> = Vec::new();
            r.push(s.clone());
            assert(sviews(r@) =~= env_file_v(*raw));
            r
        },
        Some(RawEnvFile::List(items)) => copy_strings(items),
    }
}

/// The service names of a `depends_on` section.
pub fn convert_depends_on(raw: &Option<RawDependsOn>) -> (r: Vec<String>)
    ensures
        sviews(r@) == depends_v(*raw),
{
    match raw {
        None => {
            let r: Vec<String> = Vec::new();
            assert(sviews(r@) =~= depends_v(*raw));
            r
        },
        Some(RawDependsOn::List(items)) => copy_strings(items),
        Some(RawDependsOn::Dict(keys)) => copy_strings(keys),
    }
}

/// Converts one `volumes:` entry of the service `service_name`; a
/// long-form bind without a source is an error naming the service.
pub fn convert_volume_spec(raw: &RawVolumeSpec, service_name: &str) -> (r: Result<VolumeSpec, ComposeParseError>)
    ensures
        match vol_v(*raw) {
            Some(v) => r matches Ok(s) && s@ == v,
            None => r matches Err(ComposeParseError::InvalidService { name, message }) && name@
                == service_name@ && message@ == missing_source_text(),
        },
{
    match raw {
        RawVolumeSpec::Short(s) => Ok(parse_volume_short(s.as_str())),
        RawVolumeSpec::Long { kind, source, target, read_only } => {
            proof {
                reveal_strlit("bind");
                reveal_strlit("volume");
            }
            let k = chars_of(kind.as_str());
            if crate::text::chars_eq_str(&k, "bind") {
                match source {
                    Some(h) => Ok(
                        VolumeSpec::Bind { host_path: h.clone(), container_path: target.clone(), read_only: *read_only },
                    ),
                    None => Err(
                        ComposeParseError::InvalidService {
                            name: service_name.to_string(),
                            message: "bind volume missing 'source'".to_string(),
                        },
                    ),
                }
            } else if crate::text::chars_eq_str(&k, "volume") {
                match source {
                    Some(n) => {
                        if n.unicode_len() > 0 {
                            Ok(
                                VolumeSpec::Named {
                                    volume_name: n.clone(),
                                    container_path: target.clone(),
                                    read_only: *read_only,
                                },
                            )
                        } else {
                            Ok(VolumeSpec::Anonymous { container_path: target.clone() })
                        }
                    },
                    None => Ok(VolumeSpec::Anonymous { container_path: target.clone() }),
                }
            } else {
                Ok(VolumeSpec::Anonymous { container_path: target.clone() })
            }
        },
    }
}

/// Converts the service `name`; fails on its first volume that does not
/// convert.
pub fn convert_service(name: String, raw: &RawService) -> (r: Result<Service, ComposeParseError>)
    ensures
        match service_v(name@, *raw) {
            Some(sv) => r matches Ok(s) && s@ == sv,
            None => r matches Err(ComposeParseError::InvalidService { name: n, message }) && n@ == name@
                && message@ == missing_source_text(),
        },
{
    let build = match &raw.build {
        Some(b) => Some(convert_build(b)),
        None => None,
    };
    let environment = convert_env(&raw.environment);
    let env_file = convert_env_file(&raw.env_file);
    let mut volumes: Vec<VolumeSpec> = Vec::new();
    let mut i: usize = 0;
    while i < raw.volumes.len()
        invariant
            i <= raw.volumes@.len(),
            vols_ok(raw.volumes@.take(i as int)),
            volumes@.len() == i,
            vol_views(volumes@) == Seq::new(i as nat, |j: int| vol_v(raw.volumes@[j])->Some_0),
        decreases raw.volumes.len() - i,
    {
        let v = convert_volume_spec(&raw.volumes[i], name.as_str());
        match v {
            Ok(spec) => {
                let ghost before = volumes@;
                volumes.push(spec);
                proof {
                    let full = Seq::new((i + 1) as nat, |j: int| vol_v(raw.volumes@[j])->Some_0);
                    assert(volumes@ == before.push(spec));
                    assert forall|j: int| 0 <= j < i + 1 implies vol_views(volumes@)[j] == full[j] by {
                        if j < i {
                            assert(vol_views(before)[j] == vol_v(raw.volumes@[j])->Some_0);
                        }
                    }
                    assert(vol_views(volumes@) =~= full);
                }
                assert(vols_ok(raw.volumes@.take(i + 1))) by {
                    assert forall|j: int| 0 <= j < i + 1 implies (#[trigger] vol_v(raw.volumes@.take(i + 1)[j])) is Some by {
                        if j < i {
                            assert(raw.volumes@.take(i + 1)[j] == raw.volumes@.take(i as int)[j]);
                        }
                    }
                }
            },
            Err(e) => {
                assert(!vols_ok(raw.volumes@));
                return Err(e);
            },
        }
        i = i + 1;
    }
    assert(raw.volumes@.take(raw.volumes@.len() as int) =~= raw.volumes@);
    let depends_on = convert_depends_on(&raw.depends_on);
    let image = match &raw.image {
        Some(s) => Some(s.clone()),
        None => None,
    };
    let working_dir = match &raw.working_dir {
        Some(s) => Some(s.clone()),
        None => None,
    };
    let ports = copy_strings(&raw.ports);
    let s = Service { name, build, image, environment, env_file, volumes, working_dir, depends_on, ports };
    assert(s@ =~= service_v(s.name@, *raw)->Some_0);
    Ok(s)
}

/// Converts a Compose file as written into the domain model: services and
/// named volumes keyed by name.  Without `services:` it is an error; a
/// service that does not convert fails the whole file (the first such one,
/// in key order).
pub fn compose_from_raw(raw: &RawComposeFile) -> (r: Result<ComposeFile, ComposeParseError>)
    requires
        raw.services matches Some(svcs) ==> keys_distinct(svcs@),
        keys_distinct(raw.volumes@),
    ensures
        match raw.services {
            None => r matches Err(ComposeParseError::MissingServicesKey),
            Some(svcs) => match first_bad(svcs@) {
                Some(i) => r matches Err(ComposeParseError::InvalidService { name, message }) && name@
                    == svcs@[i].0@ && message@ == missing_source_text(),
                None => r matches Ok(f) && {
                    &&& forall|k: Seq<char>| f.services@.contains_key(k) <==> exists|i: int| 0 <= i < svcs@.len() && svcs@[i].0@ == k
                    &&& forall|i: int| 0 <= i < svcs@.len() ==> (#[trigger] f.services@[svcs@[i].0@])@ == service_v(svcs@[i].0@, svcs@[i].1)->Some_0
                    &&& forall|k: Seq<char>| f.volumes@.contains_key(k) <==> exists|i: int| 0 <= i < raw.volumes@.len() && raw.volumes@[i].0@ == k
                    &&& forall|i: int| 0 <= i < raw.volumes@.len() ==> (#[trigger] f.volumes@[raw.volumes@[i].0@]).external == match raw.volumes@[i].1 {
                        Some(d) => d.external,
                        None => false,
                    }
                },
            },
        },
{
    let svcs = match &raw.services {
        None => {
            return Err(ComposeParseError::MissingServicesKey);
        },
        Some(s) => s,
    };
    let mut services: SortedMap<Service> = SortedMap::new();
    let mut i: usize = 0;
    while i < svcs.len()
        invariant
            i <= svcs@.len(),
            raw.services == Some(*svcs),
            keys_distinct(svcs@),
            forall|j: int| 0 <= j < i ==> service_v(svcs@[j].0@, svcs@[j].1) is Some,
            forall|k: Seq<char>| services@.contains_key(k) <==> exists|j: int| 0 <= j < i && svcs@[j].0@ == k,
            forall|j: int| 0 <= j < i ==> (#[trigger] services@[svcs@[j].0@])@ == service_v(svcs@[j].0@, svcs@[j].1)->Some_0,
        decreases svcs.len() - i,
    {
        let name = svcs[i].0.clone();
        match convert_service(name, &svcs[i].1) {
            Ok(s) => {
                let ghost before = services@;
                services.insert(svcs[i].0.clone(), s);
                proof {
                    assert forall|j: int| 0 <= j < i + 1 implies (#[trigger] services@[svcs@[j].0@])@ == service_v(svcs@[j].0@, svcs@[j].1)->Some_0 by {
                        if j < i {
                            assert(svcs@[j].0@ != svcs@[i as int].0@);
                        }
                    }
                    assert forall|k: Seq<char>| services@.contains_key(k) <==> exists|j: int| 0 <= j < i + 1 && svcs@[j].0@ == k by {
                        if services@.contains_key(k) && k != svcs@[i as int].0@ {
                            assert(before.contains_key(k));
                        }
                        if k == svcs@[i as int].0@ {
                            assert(svcs@[i as int].0@ == k);
                        }
                    }
                }
            },
            Err(e) => {
                proof {
                    assert(service_v(svcs@[i as int].0@, svcs@[i as int].1) is None);
                    let w = i as int;
                    assert(exists|x: int| 0 <= x < svcs@.len() && service_v(svcs@[x].0@, svcs@[x].1) is None);
                    let c = first_bad(svcs@)->Some_0;
                    assert(c == w) by {
                        if c < w {
                        } else if c > w {
                            assert(service_v(svcs@[w].0@, svcs@[w].1) is Some);
                        }
                    }
                }
                return Err(e);
            },
        }
        i = i + 1;
    }
    assert(first_bad(svcs@) is None);
    let mut volumes: SortedMap<VolumeDefinition> = SortedMap::new();
    let mut j: usize = 0;
    while j < raw.volumes.len()
        invariant
            j <= raw.volumes@.len(),
            keys_distinct(raw.volumes@),
            forall|k: Seq<char>| volumes@.contains_key(k) <==> exists|q: int| 0 <= q < j && raw.volumes@[q].0@ == k,
            forall|q: int| 0 <= q < j ==> (#[trigger] volumes@[raw.volumes@[q].0@]).external == match raw.volumes@[q].1 {
                Some(d) => d.external,
                None => false,
            },
        decreases raw.volumes.len() - j,
    {
        let external = match &raw.volumes[j].1 {
            Some(d) => d.external,
            None => false,
        };
        let ghost before = volumes@;
        volumes.insert(raw.volumes[j].0.clone(), VolumeDefinition { external });
        proof {
            assert forall|q: int| 0 <= q < j + 1 implies (#[trigger] volumes@[raw.volumes@[q].0@]).external == match raw.volumes@[q].1 {
                Some(d) => d.external,
                None => false,
            } by {
                if q < j {
                    assert(raw.volumes@[q].0@ != raw.volumes@[j as int].0@);
                }
            }
            assert forall|k: Seq<char>| volumes@.contains_key(k) <==> exists|q: int| 0 <= q < j + 1 && raw.volumes@[q].0@ == k by {
                if volumes@.contains_key(k) && k != raw.volumes@[j as int].0@ {
                    assert(before.contains_key(k));
                }
                if k == raw.volumes@[j as int].0@ {
                    assert(raw.volumes@[j as int].0@ == k);
                }
            }
        }
        j = j + 1;
    }
    Ok(ComposeFile { services, volumes })
}

} // verus!
