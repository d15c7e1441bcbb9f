use demu::model::fs::{DirNode, FileNode, FsNode, VirtualFs};
use demu::model::provenance::{Provenance, ProvenanceSource};
use demu::model::state::{HistoryEntry, LayerSummary, PreviewState};
use demu::repl::dispatch;
use demu::repl::error::ReplError;
use demu::repl::parse::{parse_input, ParsedCommand};


fn make_provenance() -> Provenance {
    Provenance::new(ProvenanceSource::Workdir)
}

fn file_node(content: &[u8]) -> FsNode {
    FsNode::File(FileNode {
        content: content.to_vec(),
        provenance: make_provenance(),
        permissions: None,
    })
}

fn dir_node() -> FsNode {
    FsNode::Directory(DirNode {
        provenance: make_provenance(),
        permissions: None,
    })
}

fn dispatch_str(state: &mut PreviewState, input: &str) -> Result<(bool, String), ReplError> {
    let cmd = parse_input(input);
    dispatch(state, cmd, None)
}

fn state_with_files() -> PreviewState {
    let mut fs = VirtualFs::new();
    fs.insert("/app".to_string(), dir_node());
    fs.insert("/app/main.rs".to_string(), file_node(b"fn main() {}"));
    fs.insert("/app/lib.rs".to_string(), file_node(b"// lib"));
    let mut state = PreviewState::default();
    state.fs = fs;
    state.env.insert("PATH".to_string(), "/usr/bin".to_string());
    state.env.insert("HOME".to_string(), "/root".to_string());
    state
}

// --- pwd dispatch ---

#[test]
fn dispatch_pwd_prints_cwd() {
    let mut state = PreviewState::default();
    let (cont, out) = dispatch_str(&mut state, "pwd").expect("should succeed");
    assert!(cont);
    assert_eq!(out.trim(), "/");
}

// --- env dispatch ---

#[test]
fn dispatch_env_prints_sorted_env_vars() {
    let mut state = state_with_files();
    let (cont, out) = dispatch_str(&mut state, "env").expect("should succeed");
    assert!(cont);
    assert!(out.contains("PATH=/usr/bin"), "got: {out}");
    assert!(out.contains("HOME=/root"), "got: {out}");
    // HOME < PATH alphabetically.
    let home_pos = out.find("HOME").expect("HOME must appear");
    let path_pos = out.find("PATH").expect("PATH must appear");
    assert!(home_pos < path_pos, "HOME must come before PATH");
}

// --- ls dispatch ---

#[test]
fn dispatch_ls_lists_app_contents() {
    let mut state = state_with_files();
    state.cwd = "/app".to_string();
    let (cont, out) = dispatch_str(&mut state, "ls").expect("should succeed");
    assert!(cont);
    assert!(out.contains("main.rs"), "got: {out}");
    assert!(out.contains("lib.rs"), "got: {out}");
}

// --- cat dispatch ---

#[test]
fn dispatch_cat_prints_file_content() {
    let mut state = state_with_files();
    let (cont, out) = dispatch_str(&mut state, "cat /app/main.rs").expect("should succeed");
    assert!(cont);
    assert_eq!(out, "fn main() {}");
}

// --- cd dispatch ---

#[test]
fn dispatch_cd_updates_cwd() {
    let mut state = state_with_files();
    let (cont, _) = dispatch_str(&mut state, "cd /app").expect("should succeed");
    assert!(cont);
    assert_eq!(state.cwd, "/app".to_string());
}

// --- find dispatch ---

#[test]
fn dispatch_find_lists_descendants() {
    let mut state = state_with_files();
    let (cont, out) = dispatch_str(&mut state, "find /app").expect("should succeed");
    assert!(cont);
    assert!(out.contains("/app/main.rs"), "got: {out}");
    assert!(out.contains("/app/lib.rs"), "got: {out}");
}

// --- help dispatch ---

#[test]
fn dispatch_help_contains_commands() {
    let mut state = PreviewState::default();
    let (cont, out) = dispatch_str(&mut state, "help").expect("should succeed");
    assert!(cont);
    assert!(out.contains("ls"), "got: {out}");
    assert!(out.contains("cd"), "got: {out}");
}

// --- exit dispatch ---

#[test]
fn dispatch_exit_returns_false() {
    let mut state = PreviewState::default();
    let cmd = ParsedCommand::Exit;
    let (cont, _) = dispatch(&mut state, cmd, None).expect("should succeed");
    assert!(!cont, "exit must return false to signal loop termination");
}

// --- empty dispatch ---

#[test]
fn dispatch_empty_returns_true_and_no_output() {
    let mut state = PreviewState::default();
    let (cont, out) = dispatch_str(&mut state, "").expect("should succeed");
    assert!(cont);
    assert_eq!(out, "");
}

// --- unknown command ---

#[test]
fn dispatch_unknown_returns_unknown_command_error() {
    let mut state = PreviewState::default();
    let result = dispatch_str(&mut state, "rm -rf /");
    assert!(matches!(result, Err(ReplError::UnknownCommand { .. })));
}

// --- error propagation ---

#[test]
fn dispatch_cat_missing_file_propagates_error() {
    let mut state = PreviewState::default();
    let result = dispatch_str(&mut state, "cat /nonexistent.txt");
    assert!(matches!(result, Err(ReplError::PathNotFound { .. })));
}

// --- cat with no argument returns InvalidArguments (not a confusing dir error) ---

#[test]
fn dispatch_cat_no_argument_returns_invalid_arguments() {
    let mut state = PreviewState::default();
    let result = dispatch_str(&mut state, "cat");
    assert!(
        matches!(result, Err(ReplError::InvalidArguments { ref command, .. }) if command == "cat"),
        "cat with no args must return InvalidArguments, got: {result:?}"
    );
}

// --- ls -l long format propagates through dispatch ---

#[test]
fn dispatch_ls_long_format_shows_type_prefix() {
    let mut state = state_with_files();
    state.cwd = "/app".to_string();
    let (cont, out) = dispatch_str(&mut state, "ls -l").expect("ls -l should succeed");
    assert!(cont);
    // Directories get `d` prefix, files get `-` prefix in long format.
    assert!(
        out.contains('d') || out.contains('-'),
        "long format must include type prefix, got: {out}"
    );
}

// --- :layers dispatch ---

#[test]
fn dispatch_layers_empty_state_prints_no_layers() {
    let mut state = PreviewState::default();
    let (cont, out) = dispatch_str(&mut state, ":layers").expect(":layers should succeed");
    assert!(cont, ":layers must return true (keep REPL running)");
    assert!(out.trim() == "No layers recorded.", "got: {out}");
}

#[test]
fn dispatch_layers_with_data_shows_layer_info() {

    let mut state = PreviewState::default();
    state.layers.push(LayerSummary {
        instruction_type: "COPY".to_string(),
        files_changed: vec!["/app/main.rs".to_string()],
        env_changed: vec![],
    });
    let (cont, out) = dispatch_str(&mut state, ":layers").expect(":layers should succeed");
    assert!(cont);
    assert!(out.contains("Layer 1"), "got: {out}");
    assert!(out.contains("COPY"), "got: {out}");
}

// --- :installed dispatch ---

#[test]
fn dispatch_installed_empty_state_prints_no_packages() {
    let mut state = PreviewState::default();
    let (cont, out) =
        dispatch_str(&mut state, ":installed").expect(":installed should succeed");
    assert!(cont, ":installed must return true (keep REPL running)");
    assert_eq!(out.trim(), "No packages recorded.", "got: {out}");
}

#[test]
fn dispatch_installed_with_packages_shows_manager_line() {
    let mut state = PreviewState::default();
    state.installed.record("apt", "curl".to_string());
    let (cont, out) =
        dispatch_str(&mut state, ":installed").expect(":installed should succeed");
    assert!(cont);
    assert!(out.contains("apt: curl"), "got: {out}");
}

// --- which dispatch ---

#[test]
fn dispatch_which_found_in_apt_returns_path() {
    let mut state = PreviewState::default();
    state.installed.record("apt", "git".to_string());
    let (cont, out) = dispatch_str(&mut state, "which git").expect("which should succeed");
    assert!(cont);
    assert_eq!(out.trim(), "/usr/bin/git", "got: {out}");
}

#[test]
fn dispatch_which_not_found_returns_error() {
    let mut state = PreviewState::default();
    let result = dispatch_str(&mut state, "which nonexistent");
    assert!(
        matches!(result, Err(ReplError::PathNotFound { .. })),
        "which with unknown cmd must return PathNotFound; got: {result:?}"
    );
}

#[test]
fn dispatch_which_no_arg_returns_invalid_arguments() {
    let mut state = PreviewState::default();
    let result = dispatch_str(&mut state, "which");
    assert!(
        matches!(result, Err(ReplError::InvalidArguments { ref command, .. }) if command == "which"),
        "which with no args must return InvalidArguments; got: {result:?}"
    );
}

#[test]
fn dispatch_which_found_in_pip_returns_local_bin_path() {
    let mut state = PreviewState::default();
    state.installed.record("pip", "flask".to_string());
    let (cont, out) = dispatch_str(&mut state, "which flask").expect("which should succeed");
    assert!(cont);
    assert_eq!(out.trim(), "/usr/local/bin/flask", "got: {out}");
}

#[test]
fn dispatch_installed_multiple_managers_shows_both_lines() {
    let mut state = PreviewState::default();
    state.installed.record("apt", "curl".to_string());
    state.installed.record("pip", "requests".to_string());
    let (cont, out) =
        dispatch_str(&mut state, ":installed").expect(":installed should succeed");
    assert!(cont);
    assert!(out.contains("apt: curl"), "apt line missing; got:\n{out}");
    assert!(
        out.contains("pip: requests"),
        "pip line missing; got:\n{out}"
    );
    // apt must appear before pip in the output.
    let apt_pos = out.find("apt:").expect("apt line must exist");
    let pip_pos = out.find("pip:").expect("pip line must exist");
    assert!(apt_pos < pip_pos, "apt must appear before pip; got:\n{out}");
}

// --- apt list dispatch ---

#[test]
fn dispatch_apt_list_installed_empty_prints_listing() {
    let mut state = PreviewState::default();
    let (cont, out) = dispatch_str(&mut state, "apt list --installed").expect("should succeed");
    assert!(
        cont,
        "apt list --installed must return true (keep REPL running)"
    );
    assert!(
        out.contains("Listing..."),
        "must contain 'Listing...'; got: {out}"
    );
    assert!(
        out.contains("(no packages recorded)"),
        "empty registry sentinel must appear; got: {out}"
    );
}

#[test]
fn dispatch_apt_list_installed_with_packages() {
    let mut state = PreviewState::default();
    state.installed.record("apt", "curl".to_string());
    let (cont, out) = dispatch_str(&mut state, "apt list --installed").expect("should succeed");
    assert!(cont);
    assert!(
        out.contains("curl/simulated [installed,simulated]"),
        "got: {out}"
    );
}

#[test]
fn dispatch_apt_list_without_installed_flag_prints_usage() {
    let mut state = PreviewState::default();
    let (cont, out) = dispatch_str(&mut state, "apt list").expect("should succeed");
    assert!(cont);
    assert!(
        out.contains("Usage: apt list --installed"),
        "must print usage when --installed flag omitted; got: {out}"
    );
}

#[test]
fn dispatch_apt_bare_is_unknown() {
    let mut state = PreviewState::default();
    let result = dispatch_str(&mut state, "apt");
    assert!(
        matches!(result, Err(ReplError::UnknownCommand { .. })),
        "bare 'apt' must return UnknownCommand; got: {result:?}"
    );
}

// --- pip list dispatch ---

#[test]
fn dispatch_pip_list_empty_prints_header() {
    let mut state = PreviewState::default();
    let (cont, out) = dispatch_str(&mut state, "pip list").expect("should succeed");
    assert!(cont, "pip list must return true (keep REPL running)");
    assert!(
        out.contains("Package    Version"),
        "header missing; got: {out}"
    );
    assert!(
        out.contains("---------- -------"),
        "separator missing; got: {out}"
    );
    // No data rows should appear when registry is empty.
    assert!(
        !out.contains("(simulated)"),
        "must not print data rows for empty registry; got: {out}"
    );
}

#[test]
fn dispatch_pip_list_with_packages() {
    let mut state = PreviewState::default();
    state.installed.record("pip", "flask".to_string());
    let (cont, out) = dispatch_str(&mut state, "pip list").expect("should succeed");
    assert!(cont);
    // Assert the combined, column-aligned row so a split-line regression
    // would not pass. "flask" (5 chars) padded to 10 + 1 space = 6 spaces.
    assert!(
        out.contains("flask      (simulated)"),
        "must show column-aligned row for flask; got: {out}"
    );
}

#[test]
fn dispatch_pip_bare_is_unknown() {
    let mut state = PreviewState::default();
    let result = dispatch_str(&mut state, "pip");
    assert!(
        matches!(result, Err(ReplError::UnknownCommand { .. })),
        "bare 'pip' must return UnknownCommand; got: {result:?}"
    );
}

// --- :reload parse layer ---
//
// `:reload` is intercepted in `run_repl` before `dispatch` is called, so
// `dispatch` will never see it in normal operation (it panics via
// `unreachable!` if it does). The parse-layer test below is sufficient to
// confirm that the parser recognises the command correctly.

#[test]
fn reload_is_recognized_by_parse_input() {
    assert_eq!(parse_input(":reload"), ParsedCommand::Reload);
}

// --- :explain dispatch ---

#[test]
fn dispatch_explain_existing_file_shows_provenance() {

    let mut state = PreviewState::default();
    // Insert a file with CopyFromHost provenance.
    let node = FsNode::File(demu::model::fs::FileNode {
        content: vec![],
        provenance: demu::model::provenance::Provenance::new(ProvenanceSource::CopyFromHost {
            host_path: "src/main.rs".to_string(),
        }),
        permissions: None,
    });
    state.fs.insert("/app/main.rs".to_string(), node);

    let (cont, out) =
        dispatch_str(&mut state, ":explain /app/main.rs").expect(":explain should succeed");
    assert!(cont, ":explain must return true (keep REPL running)");
    assert!(
        out.contains("COPY from host: src/main.rs"),
        "output must show provenance; got: {out}"
    );
    assert!(
        out.contains("Created by:"),
        "output must contain 'Created by:' label; got: {out}"
    );
}

#[test]
fn dispatch_explain_nonexistent_path_returns_path_not_found() {
    let mut state = PreviewState::default();
    let result = dispatch_str(&mut state, ":explain /no/such/file.txt");
    assert!(
        matches!(result, Err(ReplError::PathNotFound { .. })),
        ":explain on missing path must return PathNotFound; got: {result:?}"
    );
}

#[test]
fn dispatch_explain_no_argument_returns_invalid_arguments() {
    let mut state = PreviewState::default();
    let result = dispatch_str(&mut state, ":explain");
    assert!(
        matches!(result, Err(ReplError::InvalidArguments { ref command, .. }) if command == ":explain"),
        ":explain with no args must return InvalidArguments; got: {result:?}"
    );
}

// --- :history dispatch ---

#[test]
fn dispatch_history_empty_state_prints_no_history() {
    let mut state = PreviewState::default();
    let (cont, out) = dispatch_str(&mut state, ":history").expect(":history should succeed");
    assert!(cont, ":history must return true (keep REPL running)");
    assert!(out.trim() == "No history recorded.", "got: {out}");
}

#[test]
fn dispatch_history_with_data_shows_entry_info() {

    let mut state = PreviewState::default();
    state.history.push(HistoryEntry {
        line: 5,
        instruction: "RUN echo hello".to_string(),
        effect: "simulated shell command".to_string(),
    });
    let (cont, out) = dispatch_str(&mut state, ":history").expect(":history should succeed");
    assert!(cont);
    assert!(out.contains("RUN echo hello"), "got: {out}");
    assert!(out.contains("simulated shell command"), "got: {out}");
}

