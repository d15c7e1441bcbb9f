use demu::model::fs::{DirNode, FileNode, FsNode, SymlinkNode, VirtualFs};
use demu::model::provenance::{Provenance, ProvenanceSource};
use demu::model::state::PreviewState;
use demu::repl::error::ReplError;
use demu::repl::commands::ls::execute;


fn make_provenance() -> Provenance {
    Provenance::new(ProvenanceSource::Workdir)
}

fn file_node(content: &[u8]) -> FsNode {
    FsNode::File(FileNode {
        content: content.to_vec(),
        provenance: make_provenance(),
        permissions: None,
    })
}

fn dir_node() -> FsNode {
    FsNode::Directory(DirNode {
        provenance: make_provenance(),
        permissions: None,
    })
}

fn symlink_node(target: &str) -> FsNode {
    FsNode::Symlink(SymlinkNode {
        target: target.to_string(),
        provenance: make_provenance(),
    })
}

fn run(state: &PreviewState, path: Option<&str>, long: bool) -> String {
    execute(state, path, long).expect("ls should not fail in this test")
}

fn run_result(state: &PreviewState, path: Option<&str>, long: bool) -> Result<String, ReplError> {
    execute(state, path, long)
}

fn state_with_fs(fs: VirtualFs) -> PreviewState {
    let mut state = PreviewState::default();
    state.fs = fs;
    state
}

// --- Empty directory ---

#[test]
fn ls_empty_fs_at_root_prints_nothing() {
    let state = PreviewState::default();
    let out = run(&state, None, false);
    assert_eq!(out, "");
}

// --- Default to cwd ---

#[test]
fn ls_no_path_uses_cwd() {
    let mut fs = VirtualFs::new();
    fs.insert("/app/main.rs".to_string(), file_node(b""));
    let mut state = state_with_fs(fs);
    state.cwd = "/app".to_string();
    let out = run(&state, None, false);
    assert!(out.contains("main.rs"), "got: {out}");
}

// --- Sorted alphabetically ---

#[test]
fn ls_entries_sorted_alphabetically() {
    let mut fs = VirtualFs::new();
    fs.insert("/app/zebra.txt".to_string(), file_node(b""));
    fs.insert("/app/alpha.txt".to_string(), file_node(b""));
    fs.insert("/app/middle.txt".to_string(), file_node(b""));
    let state = state_with_fs(fs);
    let out = run(&state, Some("/app"), false);
    let lines: Vec<&str> = out.lines().collect();
    assert_eq!(lines, vec!["alpha.txt", "middle.txt", "zebra.txt"]);
}

// --- Trailing slash on directories ---

#[test]
fn ls_directories_have_trailing_slash() {
    let mut fs = VirtualFs::new();
    fs.insert("/app".to_string(), dir_node());
    fs.insert("/etc".to_string(), dir_node());
    let state = state_with_fs(fs);
    let out = run(&state, Some("/"), false);
    assert!(
        out.contains("app/"),
        "directories must have trailing slash, got: {out}"
    );
    assert!(
        out.contains("etc/"),
        "directories must have trailing slash, got: {out}"
    );
}

#[test]
fn ls_files_have_no_trailing_slash() {
    let mut fs = VirtualFs::new();
    fs.insert("/app/file.txt".to_string(), file_node(b""));
    let state = state_with_fs(fs);
    let out = run(&state, Some("/app"), false);
    assert!(out.contains("file.txt"), "got: {out}");
    assert!(
        !out.contains("file.txt/"),
        "files must not have trailing slash, got: {out}"
    );
}

// --- Long format ---

#[test]
fn ls_long_format_dir_starts_with_d() {
    let mut fs = VirtualFs::new();
    fs.insert("/app".to_string(), dir_node());
    let state = state_with_fs(fs);
    let out = run(&state, Some("/"), true);
    assert!(
        out.starts_with('d'),
        "long format dir must start with 'd', got: {out}"
    );
}

#[test]
fn ls_long_format_file_starts_with_dash() {
    let mut fs = VirtualFs::new();
    fs.insert("/app/file.txt".to_string(), file_node(b""));
    let state = state_with_fs(fs);
    let out = run(&state, Some("/app"), true);
    assert!(
        out.starts_with('-'),
        "long format file must start with '-', got: {out}"
    );
}

#[test]
fn ls_long_format_symlink_starts_with_l_and_shows_target() {
    let mut fs = VirtualFs::new();
    fs.insert("/app/link".to_string(), symlink_node("/usr/bin/python3"));
    let state = state_with_fs(fs);
    let out = run(&state, Some("/app"), true);
    assert!(
        out.starts_with('l'),
        "long format symlink must start with 'l', got: {out}"
    );
    assert!(
        out.contains("-> /usr/bin/python3"),
        "must show target, got: {out}"
    );
}

// --- Symlink in short format ---

#[test]
fn ls_short_format_symlink_shows_arrow_and_target() {
    let mut fs = VirtualFs::new();
    fs.insert("/app/link".to_string(), symlink_node("/usr/lib/lib.so"));
    let state = state_with_fs(fs);
    let out = run(&state, Some("/app"), false);
    assert!(out.contains("link -> /usr/lib/lib.so"), "got: {out}");
}

// --- Nonexistent path ---

#[test]
fn ls_nonexistent_path_returns_path_not_found() {
    let state = PreviewState::default();
    let result = run_result(&state, Some("/nonexistent"), false);
    assert!(matches!(result, Err(ReplError::PathNotFound { .. })));
}

// --- Only direct children, not grandchildren ---

#[test]
fn ls_does_not_list_grandchildren() {
    let mut fs = VirtualFs::new();
    fs.insert("/app".to_string(), dir_node());
    fs.insert("/app/src".to_string(), dir_node());
    // Grandchild — must NOT appear in ls("/")
    fs.insert("/app/src/main.rs".to_string(), file_node(b""));
    let state = state_with_fs(fs);
    let out = run(&state, Some("/"), false);
    assert!(
        !out.contains("main.rs"),
        "grandchildren must not appear, got: {out}"
    );
    assert!(
        !out.contains("src"),
        "grandchildren must not appear, got: {out}"
    );
    assert!(
        out.contains("app/"),
        "direct child app must appear, got: {out}"
    );
}

// --- Mixed content ---

#[test]
fn ls_mixed_files_and_dirs_sorted() {
    let mut fs = VirtualFs::new();
    fs.insert("/root/b_dir".to_string(), dir_node());
    fs.insert("/root/a_file.txt".to_string(), file_node(b""));
    let state = state_with_fs(fs);
    let out = run(&state, Some("/root"), false);
    let lines: Vec<&str> = out.lines().collect();
    // a_file.txt < b_dir alphabetically
    assert_eq!(lines[0], "a_file.txt");
    assert_eq!(lines[1], "b_dir/");
}

