//! Domain types for parsed Compose files.

use vstd::prelude::*;
use crate::model::sorted::SortedMap;

verus! {

/// A parsed Compose file.
#[derive(Debug, Clone, PartialEq)]
pub struct ComposeFile {
    /// Service definitions keyed by service name.
    pub services: SortedMap<Service>,
    /// Top-level named volume declarations keyed by volume name.
    pub volumes: SortedMap<VolumeDefinition>,
}

/// One service definition.
#[derive(Debug, Clone, PartialEq)]
pub struct Service {
    /// The service name (the YAML map key).
    pub name: String,
    /// Build configuration, when built from a local context.
    pub build: Option<BuildConfig>,
    /// Pre-built image reference.
    pub image: Option<String>,
    /// Environment variables injected into the container.
    pub environment: Vec<EnvEntry>,
    /// Env files whose contents are injected as environment variables.
    pub env_file: Vec<String>,
    /// Volume mounts.
    pub volumes: Vec<VolumeSpec>,
    /// Working directory override.
    pub working_dir: Option<String>,
    /// Services that must start before this one.
    pub depends_on: Vec<String>,
    /// Port mappings, kept verbatim.
    pub ports: Vec<String>,
}

/// Build configuration of a service built from local source.
#[derive(Debug, Clone, PartialEq)]
pub struct BuildConfig {
    /// The build context directory.
    pub context: String,
    /// The Dockerfile path relative to `context`.
    pub dockerfile: String,
}

/// One environment variable entry.
#[derive(Debug, Clone, PartialEq)]
pub enum EnvEntry {
    /// A `KEY=value` pair.
    KeyValue { key: String, value: String },
    /// A bare key whose value would come from the host.
    KeyOnly { key: String },
}

/// A volume mount specification.
#[derive(Debug, Clone, PartialEq)]
pub enum VolumeSpec {
    /// A host path mounted into the container.
    Bind { host_path: String, container_path: String, read_only: bool },
    /// A Docker-managed named volume.
    Named { volume_name: String, container_path: String, read_only: bool },
    /// An anonymous volume with only a container path.
    Anonymous { container_path: String },
}

/// The abstract value of an `EnvEntry`.
pub enum EnvV {
    KeyValue(Seq<char>, Seq<char>),
    KeyOnly(Seq<char>),
}

impl View for EnvEntry {
    type V = EnvV;

    open spec fn view(&self) -> EnvV {
        match self {
            EnvEntry::KeyValue { key, value } => EnvV::KeyValue(key@, value@),
            EnvEntry::KeyOnly { key } => EnvV::KeyOnly(key@),
        }
    }
}

/// The abstract value of a `VolumeSpec`.
pub enum VolV {
    Bind(Seq<char>, Seq<char>, bool),
    Named(Seq<char>, Seq<char>, bool),
    Anonymous(Seq<char>),
}

impl View for VolumeSpec {
    type V = VolV;

    open spec fn view(&self) -> VolV {
        match self {
            VolumeSpec::Bind { host_path, container_path, read_only } => VolV::Bind(
                host_path@,
                container_path@,
                *read_only,
            ),
            VolumeSpec::Named { volume_name, container_path, read_only } => VolV::Named(
                volume_name@,
                container_path@,
                *read_only,
            ),
            VolumeSpec::Anonymous { container_path } => VolV::Anonymous(container_path@),
        }
    }
}

/// A top-level named volume declaration.
#[derive(Debug, Clone, PartialEq)]
pub struct VolumeDefinition {
    /// Whether `external: true` is set.
    pub external: bool,
}


/// The abstract value of a `Service`.
#[verifier::ext_equal]
pub struct ServiceV {
    pub name: Seq<char>,
    pub build: Option<(Seq<char>, Seq<char>)>,
    pub image: Option<Seq<char>>,
    pub environment: Seq<EnvV>,
    pub env_file: Seq<Seq<char>>,
    pub volumes: Seq<VolV>,
    pub working_dir: Option<Seq<char>>,
    pub depends_on: Seq<Seq<char>>,
    pub ports: Seq<Seq<char>>,
}

/// The views of a sequence of environment entries.
pub open spec fn env_views(v: Seq<EnvEntry>) -> Seq<EnvV> {
    Seq::new(v.len(), |i: int| v[i]@)
}

/// The views of a sequence of volume specs.
pub open spec fn vol_views(v: Seq<VolumeSpec>) -> Seq<VolV> {
    Seq::new(v.len(), |i: int| v[i]@)
}

/// The view of an optional string.
pub open spec fn opt_chars(o: Option<String>) -> Option<Seq<char>> {
    match o {
        Some(s) => Some(s@),
        None => None,
    }
}

impl View for Service {
    type V = ServiceV;

    open spec fn view(&self) -> ServiceV {
        ServiceV {
            name: self.name@,
            build: match self.build {
                Some(b) => Some((b.context@, b.dockerfile@)),
                None => None,
            },
            image: opt_chars(self.image),
            environment: env_views(self.environment@),
            env_file: crate::text::sviews(self.env_file@),
            volumes: vol_views(self.volumes@),
            working_dir: opt_chars(self.working_dir),
            depends_on: crate::text::sviews(self.depends_on@),
            ports: crate::text::sviews(self.ports@),
        }
    }
}

} // verus!
