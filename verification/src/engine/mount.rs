//! Volume mount shadows: Compose volumes recorded on the preview state.
//!
//! Each volume becomes a `MountInfo` that is attached to the node at its
//! container path (when there is one) and always appended to the state's
//! mount list. The host filesystem is never read.

use vstd::prelude::*;
use crate::model::compose::VolumeSpec;
use crate::model::fs::{es_find, es_get, NodeV};
use crate::model::provenance::{MountInfo, MountV, ProvV};
use crate::model::state::{mviews, PreviewState};
use crate::path::{canon, canon_exec, lemma_canon_idempotent};
use crate::text::{append_str, chars_of, string_of};

verus! {

/// The container path a volume covers.
pub open spec fn container_path_v(spec: VolumeSpec) -> Seq<char> {
    match spec {
        VolumeSpec::Bind { container_path, .. } => container_path@,
        VolumeSpec::Named { container_path, .. } => container_path@,
        VolumeSpec::Anonymous { container_path } => container_path@,
    }
}

/// The mount record of a volume.
pub open spec fn mount_info_v(spec: VolumeSpec) -> MountV {
    match spec {
        VolumeSpec::Bind { host_path, container_path, read_only } => MountV {
            container_path: container_path@,
            read_only,
            description: "bind mount from "@ + host_path@,
        },
        VolumeSpec::Named { volume_name, container_path, read_only } => MountV {
            container_path: container_path@,
            read_only,
            description: "named volume: "@ + volume_name@,
        },
        VolumeSpec::Anonymous { container_path } => MountV {
            container_path: container_path@,
            read_only: false,
            description: "anonymous volume"@,
        },
    }
}

/// `es` with the node at `key` (if any) marked as shadowed by `m`.
pub open spec fn shadow(es: Seq<(Seq<char>, NodeV)>, key: Seq<char>, m: MountV) -> Seq<(Seq<char>, NodeV)> {
    match es_find(es, key) {
        Some(i) => es.update(
            i,
            (key, es_get(es, key).with_prov(ProvV { shadowed_by_mount: Some(m), ..es_get(es, key).prov() })),
        ),
        None => es,
    }
}

/// The shadows of `volumes`, applied in order.
pub open spec fn shadows(es: Seq<(Seq<char>, NodeV)>, volumes: Seq<VolumeSpec>) -> Seq<(Seq<char>, NodeV)>
    decreases volumes.len(),
{
    if volumes.len() == 0 {
        es
    } else {
        let v = volumes.last();
        shadow(shadows(es, volumes.drop_last()), canon(container_path_v(v)), mount_info_v(v))
    }
}

/// The mount records of `volumes`, in order.
pub open spec fn mount_infos(volumes: Seq<VolumeSpec>) -> Seq<MountV> {
    Seq::new(volumes.len(), |i: int| mount_info_v(volumes[i]))
}

/// The mount record of a volume: its container path, whether it is
/// read-only, and a description of where it comes from.
pub fn build_mount_info(spec: &VolumeSpec) -> (m: MountInfo)
    ensures
        m@ == mount_info_v(*spec),
{
    match spec {
        VolumeSpec::Bind { host_path, container_path, read_only } => {
            let mut d: Vec<char> = Vec::new();
            append_str(&mut d, "bind mount from ");
            append_str(&mut d, host_path.as_str());
            MountInfo { container_path: container_path.clone(), read_only: *read_only, description: string_of(&d) }
        },
        VolumeSpec::Named { volume_name, container_path, read_only } => {
            let mut d: Vec<char> = Vec::new();
            append_str(&mut d, "named volume: ");
            append_str(&mut d, volume_name.as_str());
            MountInfo { container_path: container_path.clone(), read_only: *read_only, description: string_of(&d) }
        },
        VolumeSpec::Anonymous { container_path } => MountInfo {
            container_path: container_path.clone(),
            read_only: false,
            description: "anonymous volume".to_string(),
        },
    }
}

/// The container path a volume covers.
pub fn container_path_of(spec: &VolumeSpec) -> (p: &String)
    ensures
        p@ == container_path_v(*spec),
{
    match spec {
        VolumeSpec::Bind { container_path, .. } => container_path,
        VolumeSpec::Named { container_path, .. } => container_path,
        VolumeSpec::Anonymous { container_path } => container_path,
    }
}

/// Applies volume mount shadows: for each volume, in order, the node at its
/// container path (if any) is marked as shadowed, and the mount is recorded
/// in the state's mount list whether or not such a node exists.
pub fn apply_mount_shadows(state: &mut PreviewState, volumes: &Vec<VolumeSpec>)
    ensures
        final(state).fs.ev() == shadows(old(state).fs.ev(), volumes@),
        mviews(final(state).mounts@) == mviews(old(state).mounts@) + mount_infos(volumes@),
        final(state).cwd == old(state).cwd,
        final(state).env == old(state).env,
        final(state).installed == old(state).installed,
        final(state).history == old(state).history,
        final(state).layers == old(state).layers,
        final(state).warnings == old(state).warnings,
        final(state).active_stage == old(state).active_stage,
{
    let ghost es0 = state.fs.ev();
    let ghost m0 = mviews(state.mounts@);
    let mut i: usize = 0;
    while i < volumes.len()
        invariant
            i <= volumes@.len(),
            state.fs.ev() == shadows(es0, volumes@.take(i as int)),
            mviews(state.mounts@) == m0 + mount_infos(volumes@.take(i as int)),
            state.cwd == old(state).cwd,
            state.env == old(state).env,
            state.installed == old(state).installed,
            state.history == old(state).history,
            state.layers == old(state).layers,
            state.warnings == old(state).warnings,
            state.active_stage == old(state).active_stage,
        decreases volumes.len() - i,
    {
        let vol = &volumes[i];
        let info = build_mount_info(vol);
        let cp = chars_of(container_path_of(vol).as_str());
        proof {
            lemma_canon_idempotent(cp@);
        }
        let key = canon_exec(&cp);
        state.fs.set_shadow(&key, info.dup());
        let ghost mm = state.mounts@;
        state.mounts.push(info);
        proof {
            assert(volumes@.take(i + 1).drop_last() =~= volumes@.take(i as int));
            assert(volumes@.take(i + 1).last() == volumes@[i as int]);
            assert(mviews(state.mounts@) =~= mviews(mm).push(mount_info_v(volumes@[i as int])));
            assert(mount_infos(volumes@.take(i + 1)) =~= mount_infos(volumes@.take(i as int)).push(
                mount_info_v(volumes@[i as int]),
            ));
            assert(m0 + mount_infos(volumes@.take(i + 1)) =~= (m0 + mount_infos(volumes@.take(i as int))).push(
                mount_info_v(volumes@[i as int]),
            ));
        }
        i = i + 1;
    }
    assert(volumes@.take(volumes@.len() as int) =~= volumes@);
}

} // verus!
