use demu::engine::copy::{handle_copy, resolve_file_dest, HostEntry, HostSource};
use demu::model::fs::FsNode;
use demu::model::instruction::CopySource;
use demu::model::provenance::ProvenanceSource;
use demu::model::state::{LayerSummary, PreviewState, StageRegistry};
use demu::model::warning::Warning;

/// A build context rooted at `/ctx`: files by relative path; directories
/// are the files' ancestors.
struct Ctx {
    files: Vec<(String, Vec<u8>)>,
}

fn make_context_with_file(rel_path: &str, content: &[u8]) -> Ctx {
    Ctx { files: vec![(rel_path.to_string(), content.to_vec())] }
}

fn context(files: &[(&str, &[u8])]) -> Ctx {
    Ctx { files: files.iter().map(|(p, c)| (p.to_string(), c.to_vec())).collect() }
}

/// What the context holds at `src`.
fn snapshot(ctx: &Ctx, src: &str) -> HostSource {
    if let Some((_, c)) = ctx.files.iter().find(|(p, _)| p == src) {
        return HostSource::File { content: c.clone() };
    }
    let prefix = format!("{src}/");
    let mut rels: Vec<(String, Option<Vec<u8>>)> = Vec::new();
    for (p, c) in &ctx.files {
        if let Some(rest) = p.strip_prefix(&prefix) {
            let parts: Vec<&str> = rest.split('/').collect();
            for i in 1..parts.len() {
                let d = parts[..i].join("/");
                if !rels.iter().any(|(r, _)| *r == d) {
                    rels.push((d, None));
                }
            }
            rels.push((rest.to_string(), Some(c.clone())));
        }
    }
    if rels.is_empty() {
        return HostSource::Missing;
    }
    rels.sort_by(|a, b| a.0.cmp(&b.0));
    HostSource::Dir {
        entries: rels
            .into_iter()
            .map(|(r, c)| HostEntry {
                host_path: format!("/ctx/{src}/{r}"),
                rel_path: r,
                is_dir: c.is_none(),
                content: c.unwrap_or_default(),
            })
            .collect(),
    }
}

fn run_host_copy(state: &mut PreviewState, src: &str, dest: &str, ctx: &Ctx) -> LayerSummary {
    let source = CopySource::Host(src.to_string());
    let host = snapshot(ctx, src);
    handle_copy(state, &source, dest, &host, "/ctx", 1, &StageRegistry::new()).expect("handle_copy ok")
}

#[test]
fn copy_single_file_reads_content() {
    let ctx = make_context_with_file("hello.txt", b"hello");
    let mut state = PreviewState::default();
    run_host_copy(&mut state, "hello.txt", "/app/hello.txt", &ctx);
    let node = state.fs.get("/app/hello.txt").expect("file must exist");
    match node {
        FsNode::File(f) => {
            assert_eq!(f.content, b"hello");
            match &f.provenance.created_by {
                ProvenanceSource::CopyFromHost { host_path } => assert!(host_path.ends_with("hello.txt")),
                other => panic!("unexpected provenance: {other:?}"),
            }
        }
        _ => panic!("expected File node"),
    }
}

#[test]
fn copy_single_file_to_dir_dest_appends_filename() {
    let ctx = make_context_with_file("hello.txt", b"hi");
    let mut state = PreviewState::default();
    run_host_copy(&mut state, "hello.txt", "/app/", &ctx);
    assert!(state.fs.contains("/app/hello.txt"), "/app/hello.txt must exist when dest is /app/");
}

#[test]
fn copy_file_to_relative_dest_resolves_against_cwd() {
    let ctx = make_context_with_file("file.txt", b"data");
    let mut state = PreviewState::default();
    state.cwd = "/work".to_string();
    run_host_copy(&mut state, "file.txt", "out/file.txt", &ctx);
    assert!(state.fs.contains("/work/out/file.txt"), "relative dest must resolve against cwd");
}

#[test]
fn copy_creates_ancestor_directories() {
    let ctx = make_context_with_file("file.txt", b"x");
    let mut state = PreviewState::default();
    run_host_copy(&mut state, "file.txt", "/a/b/c/file.txt", &ctx);
    assert!(state.fs.contains("/a"), "/a must exist");
    assert!(state.fs.contains("/a/b"), "/a/b must exist");
    assert!(state.fs.contains("/a/b/c"), "/a/b/c must exist");
}

#[test]
fn copy_missing_source_emits_warning_and_inserts_placeholder() {
    let ctx = context(&[]);
    let mut state = PreviewState::default();
    run_host_copy(&mut state, "nonexistent.txt", "/app/missing.txt", &ctx);
    let has_warning = state.warnings.iter().any(|w| matches!(w, Warning::MissingCopySource { .. }));
    assert!(has_warning, "expected MissingCopySource warning");
    let node = state.fs.get("/app/missing.txt").expect("placeholder must exist");
    match node {
        FsNode::File(f) => assert!(f.content.is_empty(), "placeholder must be empty"),
        _ => panic!("expected File node for placeholder"),
    }
}

#[test]
fn copy_directory_recursively_copies_all_files() {
    let ctx = context(&[("src/a.txt", b"a content"), ("src/b/c.txt", b"c content")]);
    let mut state = PreviewState::default();
    run_host_copy(&mut state, "src", "/app", &ctx);
    match state.fs.get("/app/a.txt").expect("/app/a.txt") {
        FsNode::File(f) => assert_eq!(f.content, b"a content"),
        _ => panic!("expected File"),
    }
    match state.fs.get("/app/b/c.txt").expect("/app/b/c.txt") {
        FsNode::File(f) => assert_eq!(f.content, b"c content"),
        _ => panic!("expected File"),
    }
}

#[test]
fn copy_directory_with_trailing_slash_dest() {
    let ctx = context(&[("src/a.txt", b"a"), ("src/b/c.txt", b"c")]);
    let mut state = PreviewState::default();
    run_host_copy(&mut state, "src", "/app/", &ctx);
    assert!(state.fs.contains("/app/a.txt"));
    assert!(state.fs.contains("/app/b/c.txt"));
}

#[test]
fn copy_layer_summary_lists_all_files_changed() {
    let ctx = context(&[("src/x.txt", b"x"), ("src/y.txt", b"y")]);
    let mut state = PreviewState::default();
    let layer = run_host_copy(&mut state, "src", "/out", &ctx);
    let has_x = layer.files_changed.iter().any(|p| p.ends_with("x.txt"));
    let has_y = layer.files_changed.iter().any(|p| p.ends_with("y.txt"));
    assert!(has_x, "x.txt must be in files_changed");
    assert!(has_y, "y.txt must be in files_changed");
}

#[test]
fn resolve_file_dest_returns_none_for_src_with_no_filename() {
    let dest = "/app".to_string();
    assert_eq!(resolve_file_dest(&dest, "..", true), None, "trailing-slash dest with src `..` must yield None");
    assert_eq!(resolve_file_dest(&dest, ".", true), None, "trailing-slash dest with src `.` must yield None");
}

#[test]
fn resolve_file_dest_no_trailing_slash_always_returns_dest() {
    let dest = "/app/file.txt".to_string();
    assert_eq!(
        resolve_file_dest(&dest, "..", false),
        Some("/app/file.txt".to_string()),
        "no trailing slash must always return dest"
    );
}

// A stage copy takes the node, and what lies below it, from the named stage.
#[test]
fn copy_from_stage_takes_the_stage_subtree() {
    let mut builder = PreviewState::default();
    run_host_copy(&mut builder, "out", "/build", &context(&[("out/bin/app", b"ELF"), ("out/README", b"r")]));
    let mut reg = StageRegistry::new();
    reg.insert(0, Some("builder"), builder);
    let mut state = PreviewState::default();
    let source = CopySource::Stage { name: "builder".to_string(), src_path: "/build/bin".to_string() };
    handle_copy(&mut state, &source, "/usr/local/bin", &HostSource::Missing, "/ctx", 3, &reg).expect("copy");
    match state.fs.get("/usr/local/bin/app") {
        Some(FsNode::File(f)) => {
            assert_eq!(f.content, b"ELF");
            assert_eq!(f.provenance.created_by, ProvenanceSource::CopyFromStage { stage: "builder".to_string() });
        }
        other => panic!("expected a file, got {other:?}"),
    }
    assert!(!state.fs.contains("/usr/local/bin/README"));
}

// An unknown stage is reported with its line, and nothing is copied.
#[test]
fn copy_from_unknown_stage_warns() {
    let mut state = PreviewState::default();
    let source = CopySource::Stage { name: "nope".to_string(), src_path: "/x".to_string() };
    let layer = handle_copy(&mut state, &source, "/x", &HostSource::Missing, "/ctx", 7, &StageRegistry::new())
        .expect("copy");
    assert!(layer.files_changed.is_empty());
    assert_eq!(state.warnings, vec![Warning::MissingCopyStage { stage: "nope".to_string(), line: 7 }]);
}
