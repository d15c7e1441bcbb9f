use demu::model::provenance::{MountKind, Provenance, ProvenanceSource};

#[test]
fn provenance_source_from_image_stores_image_name() {
    let src = ProvenanceSource::FromImage { image: "ubuntu:22.04".to_string() };
    assert_eq!(src, ProvenanceSource::FromImage { image: "ubuntu:22.04".to_string() });
}

#[test]
fn provenance_source_workdir_is_unit_variant() {
    let src = ProvenanceSource::Workdir;
    assert_eq!(src, ProvenanceSource::Workdir);
}

#[test]
fn provenance_source_copy_from_host_stores_path() {
    let path = "/host/build/context/app.py".to_string();
    let src = ProvenanceSource::CopyFromHost { host_path: path.clone() };
    assert_eq!(src, ProvenanceSource::CopyFromHost { host_path: path });
}

#[test]
fn provenance_source_copy_from_stage_stores_stage_name() {
    let src = ProvenanceSource::CopyFromStage { stage: "builder".to_string() };
    assert_eq!(src, ProvenanceSource::CopyFromStage { stage: "builder".to_string() });
}

#[test]
fn provenance_source_run_command_stores_command_text() {
    let src = ProvenanceSource::RunCommand { command: "apt-get install -y curl".to_string() };
    assert_eq!(src, ProvenanceSource::RunCommand { command: "apt-get install -y curl".to_string() });
}

#[test]
fn provenance_source_env_set_stores_key_and_value() {
    let src = ProvenanceSource::EnvSet { key: "PATH".to_string(), value: "/usr/local/bin:/usr/bin".to_string() };
    assert_eq!(
        src,
        ProvenanceSource::EnvSet { key: "PATH".to_string(), value: "/usr/local/bin:/usr/bin".to_string() }
    );
}

#[test]
fn all_mount_kinds_are_constructable() {
    let kinds = [MountKind::Bind, MountKind::Volume, MountKind::Tmpfs, MountKind::Cache, MountKind::Secret];
    assert_ne!(kinds[0], kinds[1]);
}

#[test]
fn provenance_new_sets_created_by() {
    let src = ProvenanceSource::Workdir;
    let prov = Provenance::new(src.clone());
    assert_eq!(prov.created_by, src);
}

#[test]
fn provenance_new_modified_by_is_empty() {
    let prov = Provenance::new(ProvenanceSource::Workdir);
    assert!(prov.modified_by.is_empty());
}

#[test]
fn provenance_new_shadowed_by_mount_is_none() {
    let prov = Provenance::new(ProvenanceSource::Workdir);
    assert!(prov.shadowed_by_mount.is_none());
}

#[test]
fn provenance_clone_produces_independent_copy() {
    let mut prov = Provenance::new(ProvenanceSource::Workdir);
    let clone = prov.clone();
    prov.modified_by.push(ProvenanceSource::RunCommand { command: "touch /tmp/x".to_string() });
    assert!(clone.modified_by.is_empty());
}

#[test]
fn provenance_equality_holds_for_identical_values() {
    let a = Provenance::new(ProvenanceSource::FromImage { image: "alpine:3.18".to_string() });
    let b = Provenance::new(ProvenanceSource::FromImage { image: "alpine:3.18".to_string() });
    assert_eq!(a, b);
}

#[test]
fn provenance_inequality_when_sources_differ() {
    let a = Provenance::new(ProvenanceSource::Workdir);
    let b = Provenance::new(ProvenanceSource::FromImage { image: "alpine".to_string() });
    assert_ne!(a, b);
}
