use demu::model::compose::{BuildConfig, ComposeFile, EnvEntry, Service, VolumeSpec};
use demu::model::fs::{DirNode, FileNode, FsNode, VirtualFs};
use demu::model::provenance::{MountInfo, Provenance, ProvenanceSource};
use demu::model::sorted::SortedMap;
use demu::model::state::{HistoryEntry, LayerSummary, PreviewState};
use demu::repl::config::ComposeContext;
use demu::repl::custom::layers::execute;


/// Run `execute` and return the captured output as a `String`.
fn run(state: &PreviewState) -> String {
    execute(state)
}

// --- Empty state ---

#[test]
fn empty_layers_prints_no_layers_message() {
    let state = PreviewState::default();
    let out = run(&state);
    assert_eq!(out.trim(), "No layers recorded.");
}

// --- Single layer with files only ---

#[test]
fn single_layer_files_only_shows_file_count_and_zero_env() {
    let mut state = PreviewState::default();
    state.layers.push(LayerSummary {
        instruction_type: "COPY".to_string(),
        files_changed: vec!["/app/main.rs".to_string(), "/app/lib.rs".to_string()],
        env_changed: vec![],
    });
    let out = run(&state);
    // Must show layer number and file count.
    assert!(out.contains("Layer 1"), "got: {out}");
    assert!(out.contains("COPY"), "got: {out}");
    assert!(out.contains("2 file(s)"), "got: {out}");
    // Zero env vars must also be represented.
    assert!(out.contains("0 env var(s)"), "got: {out}");
}

// --- Single layer with env vars ---

#[test]
fn single_layer_with_env_vars_shows_env_count() {
    let mut state = PreviewState::default();
    state.layers.push(LayerSummary {
        instruction_type: "ENV".to_string(),
        files_changed: vec![],
        env_changed: vec![("PATH".to_string(), "/usr/bin".to_string())],
    });
    let out = run(&state);
    assert!(out.contains("Layer 1"), "got: {out}");
    assert!(out.contains("ENV"), "got: {out}");
    assert!(out.contains("0 file(s)"), "got: {out}");
    assert!(out.contains("1 env var(s)"), "got: {out}");
}

// --- Multiple layers are numbered sequentially ---

#[test]
fn multiple_layers_are_numbered_in_order() {
    let mut state = PreviewState::default();
    state.layers.push(LayerSummary {
        instruction_type: "COPY".to_string(),
        files_changed: vec!["/app/main.rs".to_string()],
        env_changed: vec![],
    });
    state.layers.push(LayerSummary {
        instruction_type: "RUN".to_string(),
        files_changed: vec![],
        env_changed: vec![("DEBIAN_FRONTEND".to_string(), "noninteractive".to_string())],
    });
    state.layers.push(LayerSummary {
        instruction_type: "WORKDIR".to_string(),
        files_changed: vec![],
        env_changed: vec![],
    });
    let out = run(&state);

    // All three layers must appear in order.
    let pos1 = out.find("Layer 1").expect("Layer 1 must appear");
    let pos2 = out.find("Layer 2").expect("Layer 2 must appear");
    let pos3 = out.find("Layer 3").expect("Layer 3 must appear");
    assert!(pos1 < pos2, "Layer 1 must come before Layer 2");
    assert!(pos2 < pos3, "Layer 2 must come before Layer 3");

    // Instruction types must appear on the correct lines.
    assert!(out.contains("COPY"), "got: {out}");
    assert!(out.contains("RUN"), "got: {out}");
    assert!(out.contains("WORKDIR"), "got: {out}");
}

// --- Layer with zero files and zero env vars ---

#[test]
fn layer_with_zero_files_and_zero_env_shows_both_zeros() {
    let mut state = PreviewState::default();
    state.layers.push(LayerSummary {
        instruction_type: "FROM".to_string(),
        files_changed: vec![],
        env_changed: vec![],
    });
    let out = run(&state);
    assert!(out.contains("0 file(s)"), "got: {out}");
    assert!(out.contains("0 env var(s)"), "got: {out}");
}


