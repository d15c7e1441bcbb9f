//! Whole-pipeline scenarios over a build context holding `app.conf` and
//! `README.md`.

use demu::engine::copy::HostSource;
use demu::engine::runner::run;
use demu::model::fs::FsNode;
use demu::model::instruction::{CopySource, Instruction};
use demu::model::provenance::ProvenanceSource;
use demu::model::state::PreviewState;
use demu::model::warning::Warning;
use demu::parser::dockerfile::parse_dockerfile;

const INTEGRATION_CONTEXT: &str = "/ctx/integration";

fn integration_source(rel: &str) -> HostSource {
    match rel {
        "app.conf" => HostSource::File { content: b"server.port=8080\nserver.host=0.0.0.0\n".to_vec() },
        "README.md" => HostSource::File { content: b"# Sample app\n".to_vec() },
        _ => HostSource::Missing,
    }
}

fn pipeline(input: &str) -> PreviewState {
    let instructions = parse_dockerfile(input).expect("parse");
    let hosts: Vec<HostSource> = instructions
        .iter()
        .map(|i| match i {
            Instruction::Copy { source: CopySource::Host(src), .. } => integration_source(src),
            _ => HostSource::Missing,
        })
        .collect();
    run(instructions, &hosts, INTEGRATION_CONTEXT).expect("run").state
}

#[test]
fn test_basic_copy() {
    let state = pipeline("FROM ubuntu:22.04\nWORKDIR /app\nCOPY app.conf /app/app.conf\n");

    assert_eq!(state.cwd, "/app");
    let node = state.fs.get("/app/app.conf").expect("/app/app.conf must exist after COPY app.conf /app/app.conf");
    match node {
        FsNode::File(f) => {
            assert!(!f.content.is_empty(), "/app/app.conf must not be an empty placeholder");
            let content = std::str::from_utf8(&f.content).expect("valid utf-8");
            assert!(content.contains("server.port"), "app.conf content must contain 'server.port', got: {content:?}");
        }
        _ => panic!("expected FsNode::File at /app/app.conf"),
    }
    assert_eq!(state.history.len(), 3, "expected 3 history entries (FROM + WORKDIR + COPY)");
    assert_eq!(state.layers.len(), 3, "expected 3 layer summaries (FROM + WORKDIR + COPY)");

    let copy_layer = &state.layers[2];
    assert_eq!(copy_layer.instruction_type, "COPY", "layer[2] must be the COPY layer");
    assert!(
        copy_layer.files_changed.contains(&"/app/app.conf".to_string()),
        "COPY layer must list /app/app.conf in files_changed, got: {:?}",
        copy_layer.files_changed
    );
    match &node.provenance().created_by {
        ProvenanceSource::CopyFromHost { .. } => {}
        other => panic!("expected CopyFromHost provenance on /app/app.conf, got: {other:?}"),
    }
    assert!(
        state.warnings.iter().any(|w| matches!(w, Warning::EmptyBaseImage { image } if image == "ubuntu:22.04")),
        "expected EmptyBaseImage warning for 'ubuntu:22.04', got: {:?}",
        state.warnings
    );
}

#[test]
fn test_env_vars() {
    let state = pipeline("FROM alpine:3.18\nENV NODE_ENV=production\nENV PORT=3000\nENV APP_NAME my-app\n");

    assert_eq!(state.env.get("NODE_ENV"), Some(&"production".to_string()), "NODE_ENV must be 'production'");
    assert_eq!(state.env.get("PORT"), Some(&"3000".to_string()), "PORT must be '3000'");
    assert_eq!(state.env.get("APP_NAME"), Some(&"my-app".to_string()), "APP_NAME must be 'my-app'");
    assert_eq!(state.history.len(), 4, "expected 4 history entries (FROM + 3 ENV)");

    let env_layer_1 = &state.layers[1];
    assert_eq!(env_layer_1.instruction_type, "ENV");
    assert!(env_layer_1.env_changed.iter().any(|(k, v)| k == "NODE_ENV" && v == "production"));
    let env_layer_3 = &state.layers[3];
    assert_eq!(env_layer_3.instruction_type, "ENV");
    assert!(env_layer_3.env_changed.iter().any(|(k, v)| k == "APP_NAME" && v == "my-app"));
}

#[test]
fn test_run_history() {
    let state = pipeline(
        "FROM debian:bullseye\nRUN apt-get update\nRUN apt-get install -y curl wget\nRUN echo \"setup complete\"\n",
    );

    assert_eq!(state.history.len(), 4, "expected 4 history entries (FROM + 3 RUN)");
    let unmodeled_count =
        state.warnings.iter().filter(|w| matches!(w, Warning::UnmodeledRunCommand { .. })).count();
    assert_eq!(unmodeled_count, 3, "expected 3 UnmodeledRunCommand warnings (one per RUN)");
    let has_apt_update = state.warnings.iter().any(
        |w| matches!(w, Warning::UnmodeledRunCommand { command, .. } if command.contains("apt-get update")),
    );
    assert!(has_apt_update, "expected UnmodeledRunCommand for 'apt-get update'");
    assert!(state.history[1].instruction.contains("apt-get update"));
    assert!(state.history[2].instruction.contains("apt-get install"));
    assert!(state.history[3].instruction.contains("echo"));
    assert_eq!(state.fs.iter().count(), 0, "expected empty filesystem");
    let run_files: Vec<_> = state
        .fs
        .iter()
        .filter(|(_path, node)| matches!(node.provenance().created_by, ProvenanceSource::RunCommand { .. }))
        .collect();
    assert!(run_files.is_empty(), "no filesystem node must have RunCommand provenance");
}

#[test]
fn test_missing_copy_src() {
    let state = pipeline("FROM scratch\nCOPY does_not_exist.txt /app/missing.txt\n");

    assert!(
        state
            .warnings
            .iter()
            .any(|w| matches!(w, Warning::MissingCopySource { path } if path.ends_with("does_not_exist.txt"))),
        "expected MissingCopySource warning for 'does_not_exist.txt', got: {:?}",
        state.warnings
    );
    let node = state.fs.get("/app/missing.txt").expect("/app/missing.txt placeholder must exist");
    match node {
        FsNode::File(f) => assert!(f.content.is_empty(), "placeholder file content must be empty"),
        _ => panic!("expected FsNode::File placeholder at /app/missing.txt"),
    }
    assert_eq!(state.layers.len(), 2, "expected 2 layers (FROM + COPY), got: {}", state.layers.len());
}

#[test]
fn test_multi_instruction() {
    let state = pipeline("FROM node:20-slim\nWORKDIR /srv\nENV NODE_ENV=production\nCOPY app.conf /srv/app.conf\nRUN npm install\nCOPY README.md /srv/README.md\nENV PORT=8080\n");

    assert_eq!(state.cwd, "/srv", "cwd must be /srv after WORKDIR /srv");
    assert_eq!(state.env.get("NODE_ENV"), Some(&"production".to_string()));
    assert_eq!(state.env.get("PORT"), Some(&"8080".to_string()));
    let app_conf_node = state.fs.get("/srv/app.conf").expect("/srv/app.conf must exist");
    match app_conf_node {
        FsNode::File(f) => {
            let content = std::str::from_utf8(&f.content).expect("valid utf-8");
            assert!(content.contains("server.port"), "/srv/app.conf must contain 'server.port', got: {content:?}");
        }
        _ => panic!("expected FsNode::File at /srv/app.conf"),
    }
    assert!(state.fs.contains("/srv/README.md"), "/srv/README.md must exist");
    assert_eq!(state.history.len(), 7);
    assert_eq!(state.layers.len(), 7);
    assert!(state.warnings.iter().any(|w| matches!(w, Warning::UnmodeledRunCommand { .. })));
    let layer_types: Vec<&str> = state.layers.iter().map(|l| l.instruction_type.as_str()).collect();
    assert_eq!(layer_types, vec!["FROM", "WORKDIR", "ENV", "COPY", "RUN", "COPY", "ENV"]);
}
