//! Provenance reports: where a node of the virtual filesystem came from.
//! Powers the `:explain` shell command.

use vstd::prelude::*;
use crate::model::provenance::{MountInfo, MountV, ProvV, ProvenanceSource, SrcV};
use crate::model::state::PreviewState;
use crate::output::sanitize::{sanitize_for_terminal, sanitized};
use crate::path::canon;
use crate::text::{append_str, string_of};

verus! {

/// Why a provenance report could not be produced.
#[derive(Debug, Clone, PartialEq)]
pub enum ExplainError {
    /// No node exists at the queried path.
    PathNotFound { path: String },
}

impl ExplainError {
    /// The human-readable text of the error.
    pub open spec fn text(&self) -> Seq<char> {
        match self {
            ExplainError::PathNotFound { path } => "path not found: "@ + path@,
        }
    }

    /// The human-readable text of the error.
    pub fn describe(&self) -> (r: String)
        ensures
            r@ == self.text(),
    {
        match self {
            ExplainError::PathNotFound { path } => {
                let mut v: Vec<char> = Vec::new();
                append_str(&mut v, "path not found: ");
                append_str(&mut v, path.as_str());
                string_of(&v)
            },
        }
    }
}

/// Width of the section labels (`"Modified by:  "`); later modification
/// entries are indented by this many spaces.
pub const LABEL_WIDTH: usize = 14;

/// The one-line description of a provenance source, user-supplied parts
/// sanitized.
pub open spec fn describe_source(src: SrcV) -> Seq<char> {
    match src {
        SrcV::FromImage(i) => "base image: "@ + sanitized(i),
        SrcV::Workdir => "WORKDIR instruction"@,
        SrcV::CopyFromHost(h) => "COPY from host: "@ + sanitized(h),
        SrcV::CopyFromStage(s) => "COPY from stage '"@ + sanitized(s) + "'"@,
        SrcV::RunCommand(c) => "RUN command: "@ + sanitized(c),
        SrcV::EnvSet(k, v) => "ENV "@ + sanitized(k) + "="@ + sanitized(v),
    }
}

/// `LABEL_WIDTH` spaces.
pub open spec fn label_pad() -> Seq<char> {
    Seq::new(LABEL_WIDTH as nat, |i: int| ' ')
}

/// The continuation lines for modification entries after the first.
pub open spec fn modified_tail(mods: Seq<SrcV>) -> Seq<char>
    decreases mods.len(),
{
    if mods.len() == 0 {
        seq![]
    } else {
        modified_tail(mods.drop_last()) + seq!['\n'] + label_pad() + describe_source(mods.last())
    }
}

/// The "Modified by:" section.
pub open spec fn modified_section(mods: Seq<SrcV>) -> Seq<char> {
    if mods.len() == 0 {
        "Modified by:  (none)"@
    } else {
        "Modified by:  "@ + describe_source(mods[0]) + modified_tail(mods.skip(1))
    }
}

/// The full report for a node's provenance.
pub open spec fn report(p: ProvV) -> Seq<char> {
    "Created by:   "@ + describe_source(p.created_by) + seq!['\n'] + modified_section(p.modified_by) + seq![
        '\n',
    ] + match p.shadowed_by_mount {
        None => "Shadowed by:  (none)"@,
        Some(m) => "Shadowed by:  "@ + sanitized(m.description),
    }
}

/// The one-line description of a provenance source.
pub fn format_source(source: &ProvenanceSource) -> (r: String)
    ensures
        r@ == describe_source(source@),
{
    let mut v: Vec<char> = Vec::new();
    match source {
        ProvenanceSource::FromImage { image } => {
            append_str(&mut v, "base image: ");
            append_str(&mut v, sanitize_for_terminal(image.as_str()).as_str());
        },
        ProvenanceSource::Workdir => {
            append_str(&mut v, "WORKDIR instruction");
        },
        ProvenanceSource::CopyFromHost { host_path } => {
            append_str(&mut v, "COPY from host: ");
            append_str(&mut v, sanitize_for_terminal(host_path.as_str()).as_str());
        },
        ProvenanceSource::CopyFromStage { stage } => {
            append_str(&mut v, "COPY from stage '");
            append_str(&mut v, sanitize_for_terminal(stage.as_str()).as_str());
            append_str(&mut v, "'");
        },
        ProvenanceSource::RunCommand { command } => {
            append_str(&mut v, "RUN command: ");
            append_str(&mut v, sanitize_for_terminal(command.as_str()).as_str());
        },
        ProvenanceSource::EnvSet { key, value } => {
            append_str(&mut v, "ENV ");
            append_str(&mut v, sanitize_for_terminal(key.as_str()).as_str());
            append_str(&mut v, "=");
            append_str(&mut v, sanitize_for_terminal(value.as_str()).as_str());
        },
    }
    assert(v@ =~= describe_source(source@));
    string_of(&v)
}

/// The description of a mount, sanitized.
pub fn format_mount(mount: &MountInfo) -> (r: String)
    ensures
        r@ == sanitized(mount@.description),
{
    sanitize_for_terminal(mount.description.as_str())
}

/// The provenance report of the node at `path`: how it was created, every
/// later modification, and the mount shadowing it, if any.
pub fn explain_path(state: &PreviewState, path: &str) -> (r: Result<String, ExplainError>)
    ensures
        match r {
            Ok(s) => state.fs@.contains_key(canon(path@)) && s@ == report(state.fs@[canon(path@)].prov()),
            Err(ExplainError::PathNotFound { path: p }) => !state.fs@.contains_key(canon(path@)) && p@ == path@,
        },
{
    let node = match state.fs.get(path) {
        Some(n) => n,
        None => {
            return Err(ExplainError::PathNotFound { path: path.to_string() });
        },
    };
    let prov = node.provenance();
    let ghost pv = prov@;
    let mut v: Vec<char> = Vec::new();
    append_str(&mut v, "Created by:   ");
    append_str(&mut v, format_source(&prov.created_by).as_str());
    v.push('\n');
    let ghost head = v@;
    let n = prov.modified_by.len();
    let ghost mods = pv.modified_by;
    assert(mods.len() == n);
    if n == 0 {
        append_str(&mut v, "Modified by:  (none)");
    } else {
        append_str(&mut v, "Modified by:  ");
        append_str(&mut v, format_source(&prov.modified_by[0]).as_str());
        assert(mods[0] == prov.modified_by@[0]@);
        let ghost base = v@;
        let mut i: usize = 1;
        while i < n
            invariant
                1 <= i <= n,
                n == prov.modified_by@.len(),
                mods == pv.modified_by,
                pv == prov@,
                v@ == base + modified_tail(mods.skip(1).take(i - 1)),
            decreases n - i,
        {
            let ghost before = v@;
            v.push('\n');
            let mut k: usize = 0;
            while k < LABEL_WIDTH
                invariant
                    k <= LABEL_WIDTH,
                    v@ == before.push('\n') + Seq::new(k as nat, |j: int| ' '),
                decreases LABEL_WIDTH - k,
            {
                v.push(' ');
                assert(Seq::new((k + 1) as nat, |j: int| ' ') =~= Seq::new(k as nat, |j: int| ' ').push(' '));
                assert(v@ =~= before.push('\n') + Seq::new((k + 1) as nat, |j: int| ' '));
                k = k + 1;
            }
            append_str(&mut v, format_source(&prov.modified_by[i]).as_str());
            proof {
                let t = mods.skip(1);
                assert(t.take(i as int).drop_last() =~= t.take(i - 1));
                assert(t.take(i as int).last() == mods[i as int]);
                assert(mods[i as int] == prov.modified_by@[i as int]@);
                assert(v@ =~= base + modified_tail(t.take(i as int)));
            }
            i = i + 1;
        }
        assert(mods.skip(1).take(n - 1) =~= mods.skip(1));
    }
    assert(v@ == head + modified_section(mods));
    v.push('\n');
    match &prov.shadowed_by_mount {
        None => append_str(&mut v, "Shadowed by:  (none)"),
        Some(m) => {
            append_str(&mut v, "Shadowed by:  ");
            append_str(&mut v, format_mount(m).as_str());
        },
    }
    assert(v@ =~= report(pv));
    Ok(string_of(&v))
}

} // verus!
