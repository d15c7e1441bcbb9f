//! Provenance records: where each filesystem node came from.

use vstd::prelude::*;

verus! {

/// The Dockerfile instruction responsible for creating or modifying a node.
#[derive(Debug, Clone, PartialEq)]
pub enum ProvenanceSource {
    /// The node originates from the base image declared by FROM.
    FromImage { image: String },
    /// The node was created as a side effect of a WORKDIR instruction.
    Workdir,
    /// The node was copied from the host build context via COPY.
    CopyFromHost { host_path: String },
    /// The node was copied from a named build stage.
    CopyFromStage { stage: String },
    /// The node was created or modified by a simulated RUN command.
    RunCommand { command: String },
    /// The node records an ENV key=value assignment.
    EnvSet { key: String, value: String },
}

/// The abstract value of a `ProvenanceSource`.
pub enum SrcV {
    FromImage(Seq<char>),
    Workdir,
    CopyFromHost(Seq<char>),
    CopyFromStage(Seq<char>),
    RunCommand(Seq<char>),
    EnvSet(Seq<char>, Seq<char>),
}

impl View for ProvenanceSource {
    type V = SrcV;

    open spec fn view(&self) -> SrcV {
        match self {
            ProvenanceSource::FromImage { image } => SrcV::FromImage(image@),
            ProvenanceSource::Workdir => SrcV::Workdir,
            ProvenanceSource::CopyFromHost { host_path } => SrcV::CopyFromHost(host_path@),
            ProvenanceSource::CopyFromStage { stage } => SrcV::CopyFromStage(stage@),
            ProvenanceSource::RunCommand { command } => SrcV::RunCommand(command@),
            ProvenanceSource::EnvSet { key, value } => SrcV::EnvSet(key@, value@),
        }
    }
}

impl ProvenanceSource {
    /// An identical copy of this source.
    pub fn dup(&self) -> (r: Self)
        ensures
            r == *self,
    {
        match self {
            ProvenanceSource::FromImage { image } => ProvenanceSource::FromImage {
                image: image.clone(),
            },
            ProvenanceSource::Workdir => ProvenanceSource::Workdir,
            ProvenanceSource::CopyFromHost { host_path } => ProvenanceSource::CopyFromHost {
                host_path: host_path.clone(),
            },
            ProvenanceSource::CopyFromStage { stage } => ProvenanceSource::CopyFromStage {
                stage: stage.clone(),
            },
            ProvenanceSource::RunCommand { command } => ProvenanceSource::RunCommand {
                command: command.clone(),
            },
            ProvenanceSource::EnvSet { key, value } => ProvenanceSource::EnvSet {
                key: key.clone(),
                value: value.clone(),
            },
        }
    }
}

/// The type of a Docker mount (`--mount=type=...`).
#[derive(Debug, Clone, PartialEq)]
pub enum MountKind {
    /// `--mount=type=bind`
    Bind,
    /// `--mount=type=volume`
    Volume,
    /// `--mount=type=tmpfs`
    Tmpfs,
    /// `--mount=type=cache`
    Cache,
    /// `--mount=type=secret`
    Secret,
}

/// A volume mount that shadows a path of the virtual filesystem.
#[derive(Debug, Clone, PartialEq)]
pub struct MountInfo {
    /// The container path the mount covers.
    pub container_path: String,
    /// Whether the mount is read-only.
    pub read_only: bool,
    /// A human-readable description (e.g. `named volume: data`).
    pub description: String,
}

/// The abstract value of a `MountInfo`.
pub struct MountV {
    pub container_path: Seq<char>,
    pub read_only: bool,
    pub description: Seq<char>,
}

impl View for MountInfo {
    type V = MountV;

    open spec fn view(&self) -> MountV {
        MountV {
            container_path: self.container_path@,
            read_only: self.read_only,
            description: self.description@,
        }
    }
}

impl MountInfo {
    /// An identical copy of this mount record.
    pub fn dup(&self) -> (r: Self)
        ensures
            r == *self,
    {
        MountInfo {
            container_path: self.container_path.clone(),
            read_only: self.read_only,
            description: self.description.clone(),
        }
    }
}

/// The provenance record attached to every filesystem node.
#[derive(Debug, Clone, PartialEq)]
pub struct Provenance {
    /// The instruction that first created the node.
    pub created_by: ProvenanceSource,
    /// Later instructions that modified the node, in order.
    pub modified_by: Vec<ProvenanceSource>,
    /// The mount that currently shadows the node, if any.
    pub shadowed_by_mount: Option<MountInfo>,
}

/// The abstract value of a `Provenance`.
pub struct ProvV {
    pub created_by: SrcV,
    pub modified_by: Seq<SrcV>,
    pub shadowed_by_mount: Option<MountV>,
}

/// A fresh record: created by `source`, never modified, not shadowed.
pub open spec fn fresh_prov(source: SrcV) -> ProvV {
    ProvV { created_by: source, modified_by: seq![], shadowed_by_mount: None }
}

impl View for Provenance {
    type V = ProvV;

    open spec fn view(&self) -> ProvV {
        ProvV {
            created_by: self.created_by@,
            modified_by: Seq::new(self.modified_by@.len(), |i: int| self.modified_by@[i]@),
            shadowed_by_mount: match self.shadowed_by_mount {
                Some(m) => Some(m@),
                None => None,
            },
        }
    }
}

impl Provenance {
    /// Creates a provenance record with the given creation source.
    pub fn new(source: ProvenanceSource) -> (p: Self)
        ensures
            p@ == fresh_prov(source@),
            p.created_by == source,
    {
        let p = Provenance { created_by: source, modified_by: Vec::new(), shadowed_by_mount: None };
        assert(p@.modified_by =~= Seq::<SrcV>::empty());
        p
    }

    /// An identical copy of this record.
    pub fn dup(&self) -> (r: Self)
        ensures
            r@ == self@,
    {
        let mut m: Vec<ProvenanceSource> = Vec::new();
        let mut i: usize = 0;
        while i < self.modified_by.len()
            invariant
                i <= self.modified_by@.len(),
                m@.len() == i,
                forall|j: int| 0 <= j < i ==> (#[trigger] m@[j])@ == self.modified_by@[j]@,
            decreases self.modified_by.len() - i,
        {
            m.push(self.modified_by[i].dup());
            i = i + 1;
        }
        let sh = match &self.shadowed_by_mount {
            Some(x) => Some(x.dup()),
            None => None,
        };
        let r = Provenance { created_by: self.created_by.dup(), modified_by: m, shadowed_by_mount: sh };
        assert(r@.modified_by =~= self@.modified_by);
        r
    }
}

} // verus!
