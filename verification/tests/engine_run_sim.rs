use demu::engine::run_sim::{handle_run, has_recursive_flag, parse_argv, resolve_path, split_commands};
use demu::model::fs::{DirNode, FileNode, FsNode};
use demu::model::provenance::{Provenance, ProvenanceSource};
use demu::model::state::PreviewState;
use demu::model::warning::{UnmodeledReason, Warning};


// ── Pre-existing tests (must remain unchanged and green) ──────────────

#[test]
fn run_emits_unmodeled_warning() {
    let mut state = PreviewState::default();
    handle_run(&mut state, "echo hello", 1);

    let has_warning = state.warnings.iter().any(
        |w| matches!(w, Warning::UnmodeledRunCommand { command, .. } if command == "echo hello"),
    );
    assert!(has_warning, "expected UnmodeledRunCommand warning");
}

#[test]
fn run_layer_summary_has_correct_type() {
    let mut state = PreviewState::default();
    let layer = handle_run(&mut state, "make build", 1);
    assert_eq!(layer.instruction_type, "RUN");
}

#[test]
fn run_layer_summary_has_no_files_changed() {
    // Use an unmodeled command (curl) so files_changed stays empty.
    let mut state = PreviewState::default();
    let layer = handle_run(&mut state, "curl https://example.com", 1);
    assert!(
        layer.files_changed.is_empty(),
        "unmodeled RUN must not record file changes"
    );
}

#[test]
fn run_does_not_mutate_fs_or_env() {
    let mut state = PreviewState::default();
    let fs_before = state.fs.iter().count();
    let env_before = state.env.len();

    handle_run(&mut state, "apt-get install -y curl", 1);

    assert_eq!(
        state.fs.iter().count(),
        fs_before,
        "fs must not change after RUN stub"
    );
    assert_eq!(
        state.env.len(),
        env_before,
        "env must not change after RUN stub"
    );
}

// ── split_commands unit tests ─────────────────────────────────────────

#[test]
fn split_single_command() {
    assert_eq!(split_commands("echo hello"), vec!["echo hello"]);
}

#[test]
fn split_and_chain() {
    assert_eq!(
        split_commands("apt-get update && apt-get install -y curl"),
        vec!["apt-get update", "apt-get install -y curl"]
    );
}

#[test]
fn split_semicolon_chain() {
    assert_eq!(split_commands("echo a; echo b"), vec!["echo a", "echo b"]);
}

#[test]
fn split_mixed_delimiters() {
    assert_eq!(
        split_commands("echo a && echo b; echo c"),
        vec!["echo a", "echo b", "echo c"]
    );
}

#[test]
fn split_trims_whitespace() {
    assert_eq!(
        split_commands("  echo a  &&  echo b  "),
        vec!["echo a", "echo b"]
    );
}

#[test]
fn split_skips_empty_segments() {
    // Two consecutive `&&` produce an empty segment between them.
    assert_eq!(
        split_commands("echo a && && echo b"),
        vec!["echo a", "echo b"]
    );
}

#[test]
fn split_only_delimiters() {
    // A string composed only of delimiters and whitespace yields no commands.
    assert_eq!(split_commands("&& ; &&"), Vec::<&str>::new());
}

#[test]
fn split_empty_string() {
    assert_eq!(split_commands(""), Vec::<&str>::new());
}

#[test]
fn split_trailing_and_chain() {
    // A trailing `&&` produces no extra empty element.
    assert_eq!(split_commands("echo a &&"), vec!["echo a"]);
}

#[test]
fn split_does_not_split_on_or_operator() {
    // `||` is not a recognized delimiter and must be preserved intact.
    assert_eq!(split_commands("cmd1 || fallback"), vec!["cmd1 || fallback"]);
}

// ── handle_run integration tests ──────────────────────────────────────

#[test]
fn run_and_chain_emits_per_subcommand_warnings() {
    let mut state = PreviewState::default();
    handle_run(&mut state, "apt-get update && apt-get install -y curl", 1);

    assert_eq!(
        state.warnings.len(),
        2,
        "expected one warning per sub-command, got {}",
        state.warnings.len()
    );

    // First warning must reference the first sub-command.
    assert!(
        matches!(
            &state.warnings[0],
            Warning::UnmodeledRunCommand { command, .. } if command == "apt-get update"
        ),
        "first warning should be for 'apt-get update', got: {:?}",
        state.warnings[0]
    );

    // Second warning must reference the second sub-command.
    assert!(
        matches!(
            &state.warnings[1],
            Warning::UnmodeledRunCommand { command, .. } if command == "apt-get install -y curl"
        ),
        "second warning should be for 'apt-get install -y curl', got: {:?}",
        state.warnings[1]
    );
}

#[test]
fn run_semicolon_chain_emits_per_subcommand_warnings() {
    let mut state = PreviewState::default();
    handle_run(&mut state, "echo a; echo b; echo c", 1);

    assert_eq!(
        state.warnings.len(),
        3,
        "expected 3 warnings for 3 semicolon-separated sub-commands"
    );
    // Verify each warning carries the correct command text, not just the count.
    assert!(
        matches!(&state.warnings[0], Warning::UnmodeledRunCommand { command, .. } if command == "echo a"),
        "first warning should be for 'echo a'"
    );
    assert!(
        matches!(&state.warnings[1], Warning::UnmodeledRunCommand { command, .. } if command == "echo b"),
        "second warning should be for 'echo b'"
    );
    assert!(
        matches!(&state.warnings[2], Warning::UnmodeledRunCommand { command, .. } if command == "echo c"),
        "third warning should be for 'echo c'"
    );
}

#[test]
fn run_chain_returns_single_layer_summary() {
    let mut state = PreviewState::default();
    let layer = handle_run(&mut state, "a && b && c", 1);

    assert_eq!(layer.instruction_type, "RUN");
    assert!(
        layer.files_changed.is_empty(),
        "unmodeled commands must not produce file changes"
    );
    assert!(
        layer.env_changed.is_empty(),
        "unmodeled commands must not produce env changes"
    );
}

#[test]
fn run_or_operator_preserved_as_single_warning() {
    // `||` is not a delimiter — the entire token must appear in one warning.
    let mut state = PreviewState::default();
    handle_run(&mut state, "cmd1 || fallback", 1);

    assert_eq!(
        state.warnings.len(),
        1,
        "|| must not split into two warnings"
    );
    assert!(
        matches!(
            &state.warnings[0],
            Warning::UnmodeledRunCommand { command, .. } if command == "cmd1 || fallback"
        ),
        "full '||' token must be preserved in the single warning"
    );
}

#[test]
fn run_empty_command_emits_no_warnings() {
    // An empty RUN command string produces zero warnings and a valid LayerSummary.
    let mut state = PreviewState::default();
    let layer = handle_run(&mut state, "", 1);

    assert!(
        state.warnings.is_empty(),
        "empty command must emit no warnings"
    );
    assert_eq!(layer.instruction_type, "RUN");
    assert!(layer.files_changed.is_empty());
    assert!(layer.env_changed.is_empty());
}

#[test]
fn run_single_command_still_works() {
    let mut state = PreviewState::default();
    handle_run(&mut state, "echo hello", 1);

    assert_eq!(
        state.warnings.len(),
        1,
        "single command should produce exactly one warning"
    );
    assert!(
        matches!(
            &state.warnings[0],
            Warning::UnmodeledRunCommand { command, .. } if command == "echo hello"
        ),
        "warning command text must match the input"
    );
}

// ── parse_argv / resolve_path unit tests ──────────────────────────────

#[test]
fn parse_argv_splits_on_whitespace() {
    let result = parse_argv("mkdir -p /foo/bar");
    assert_eq!(result, vec!["mkdir", "-p", "/foo/bar"]);
}

#[test]
fn parse_argv_empty_string_returns_empty() {
    let result = parse_argv("");
    assert!(result.is_empty());
}

#[test]
fn resolve_path_absolute_returns_as_is() {
    let cwd = "/work";
    let result = resolve_path(cwd, "/etc/hosts");
    assert_eq!(result, "/etc/hosts".to_string());
}

#[test]
fn resolve_path_relative_joins_cwd() {
    let cwd = "/work";
    let result = resolve_path(cwd, "out/file.txt");
    assert_eq!(result, "/work/out/file.txt".to_string());
}

// ── mkdir tests ───────────────────────────────────────────────────────

#[test]
fn run_mkdir_creates_directory() {
    let mut state = PreviewState::default();
    handle_run(&mut state, "mkdir /newdir", 1);
    assert!(
        state.fs.contains("/newdir"),
        "mkdir must create /newdir"
    );
}

#[test]
fn run_mkdir_p_creates_ancestors() {
    let mut state = PreviewState::default();
    handle_run(&mut state, "mkdir -p /a/b/c", 1);
    assert!(state.fs.contains("/a"));
    assert!(state.fs.contains("/a/b"));
    assert!(state.fs.contains("/a/b/c"));
}

#[test]
fn run_mkdir_p_multiple_paths() {
    let mut state = PreviewState::default();
    handle_run(&mut state, "mkdir -p /x/y /z/w", 1);
    assert!(state.fs.contains("/x/y"));
    assert!(state.fs.contains("/z/w"));
}

#[test]
fn run_mkdir_sets_run_command_provenance() {
    let mut state = PreviewState::default();
    handle_run(&mut state, "mkdir /mydir", 1);
    let node = state
        .fs
        .get("/mydir")
        .expect("dir must exist");
    assert!(
        matches!(
            node.provenance().created_by,
            ProvenanceSource::RunCommand { .. }
        ),
        "provenance must be RunCommand"
    );
}

#[test]
fn run_mkdir_does_not_emit_unmodeled_warning() {
    let mut state = PreviewState::default();
    handle_run(&mut state, "mkdir /newdir", 1);
    let has_unmodeled = state
        .warnings
        .iter()
        .any(|w| matches!(w, Warning::UnmodeledRunCommand { .. }));
    assert!(!has_unmodeled, "mkdir must not emit UnmodeledRunCommand");
}

#[test]
fn run_mkdir_relative_path_resolves_against_cwd() {
    let mut state = PreviewState::default();
    state.cwd = "/work".to_string();
    handle_run(&mut state, "mkdir -p subdir", 1);
    assert!(state.fs.contains("/work/subdir"));
}

#[test]
fn run_mkdir_existing_dir_is_noop() {
    // mkdir on an existing directory (with -p) must not fail or duplicate.
    let mut state = PreviewState::default();
    handle_run(&mut state, "mkdir -p /app", 1);
    handle_run(&mut state, "mkdir -p /app", 1);
    // Still exactly one node at /app.
    assert!(state.fs.contains("/app"));
}

// ── touch tests ───────────────────────────────────────────────────────

#[test]
fn run_touch_creates_empty_file() {
    let mut state = PreviewState::default();
    handle_run(&mut state, "touch /tmp/x", 1);
    let node = state
        .fs
        .get("/tmp/x")
        .expect("/tmp/x must exist");
    match node {
        FsNode::File(f) => {
            assert!(f.content.is_empty(), "touch must create an empty file")
        }
        _ => panic!("expected File node"),
    }
}

#[test]
fn run_touch_existing_file_is_noop() {
    let mut state = PreviewState::default();
    // Pre-insert a file with known content.
    state.fs.insert(
        "/existing.txt".to_string(),
        FsNode::File(FileNode {
            content: b"original".to_vec(),
            provenance: Provenance::new(ProvenanceSource::Workdir),
            permissions: None,
        }),
    );
    handle_run(&mut state, "touch /existing.txt", 1);
    // Content must be unchanged.
    let node = state
        .fs
        .get("/existing.txt")
        .expect("file must still exist");
    match node {
        FsNode::File(f) => assert_eq!(f.content, b"original"),
        _ => panic!("expected File node"),
    }
}

#[test]
fn run_touch_creates_ancestors() {
    let mut state = PreviewState::default();
    handle_run(&mut state, "touch /a/b/file.txt", 1);
    assert!(
        state.fs.contains("/a"),
        "/a must be created as ancestor"
    );
    assert!(
        state.fs.contains("/a/b"),
        "/a/b must be created as ancestor"
    );
    assert!(state.fs.contains("/a/b/file.txt"));
}

#[test]
fn run_touch_does_not_emit_unmodeled_warning() {
    let mut state = PreviewState::default();
    handle_run(&mut state, "touch /tmp/x", 1);
    let has_unmodeled = state
        .warnings
        .iter()
        .any(|w| matches!(w, Warning::UnmodeledRunCommand { .. }));
    assert!(!has_unmodeled, "touch must not emit UnmodeledRunCommand");
}

// ── rm tests ──────────────────────────────────────────────────────────

#[test]
fn run_rm_removes_file() {
    let mut state = PreviewState::default();
    handle_run(&mut state, "touch /tmp/x", 1);
    assert!(state.fs.contains("/tmp/x"));
    handle_run(&mut state, "rm /tmp/x", 1);
    assert!(!state.fs.contains("/tmp/x"));
}

#[test]
fn run_rm_absent_file_is_noop() {
    // rm on a non-existent file must not panic or emit a hard error.
    let mut state = PreviewState::default();
    handle_run(&mut state, "rm /nonexistent", 1);
    // No crash, no unmodeled warning for rm itself.
    let has_rm_warning = state
        .warnings
        .iter()
        .any(|w| matches!(w, Warning::UnmodeledRunCommand { command, .. } if command == "rm /nonexistent"));
    assert!(!has_rm_warning);
}

#[test]
fn run_rm_rf_removes_directory_and_descendants() {
    let mut state = PreviewState::default();
    handle_run(&mut state, "mkdir -p /app/src", 1);
    handle_run(&mut state, "touch /app/main.rs", 1);
    handle_run(&mut state, "touch /app/src/lib.rs", 1);

    handle_run(&mut state, "rm -rf /app", 1);

    assert!(!state.fs.contains("/app"));
    assert!(!state.fs.contains("/app/main.rs"));
    assert!(!state.fs.contains("/app/src"));
    assert!(!state.fs.contains("/app/src/lib.rs"));
}

#[test]
fn run_rm_does_not_remove_string_prefix_sibling() {
    // rm -rf /app must not remove /appdata.
    let mut state = PreviewState::default();
    handle_run(&mut state, "mkdir -p /app", 1);
    handle_run(&mut state, "mkdir -p /appdata", 1);

    handle_run(&mut state, "rm -rf /app", 1);

    assert!(!state.fs.contains("/app"));
    assert!(
        state.fs.contains("/appdata"),
        "/appdata must not be removed when removing /app"
    );
}

// ── mv tests ──────────────────────────────────────────────────────────

#[test]
fn run_mv_renames_file() {
    let mut state = PreviewState::default();
    handle_run(&mut state, "touch /tmp/a.txt", 1);
    handle_run(&mut state, "mv /tmp/a.txt /tmp/b.txt", 1);
    assert!(!state.fs.contains("/tmp/a.txt"));
    assert!(state.fs.contains("/tmp/b.txt"));
}

#[test]
fn run_mv_renames_directory_with_descendants() {
    let mut state = PreviewState::default();
    handle_run(&mut state, "mkdir -p /old/sub", 1);
    handle_run(&mut state, "touch /old/file.txt", 1);
    handle_run(&mut state, "touch /old/sub/deep.txt", 1);

    handle_run(&mut state, "mv /old /new", 1);

    assert!(!state.fs.contains("/old"));
    assert!(state.fs.contains("/new"));
    assert!(state.fs.contains("/new/file.txt"));
    assert!(state.fs.contains("/new/sub"));
    assert!(state.fs.contains("/new/sub/deep.txt"));
}

#[test]
fn run_mv_missing_source_emits_warning() {
    let mut state = PreviewState::default();
    handle_run(&mut state, "mv /nonexistent /dest", 1);
    let has_unmodeled = state
        .warnings
        .iter()
        .any(|w| matches!(w, Warning::UnmodeledRunCommand { .. }));
    assert!(has_unmodeled, "mv with missing source must emit warning");
}

// ── cp tests ──────────────────────────────────────────────────────────

#[test]
fn run_cp_copies_file() {
    let mut state = PreviewState::default();
    handle_run(&mut state, "touch /tmp/src.txt", 1);
    handle_run(&mut state, "cp /tmp/src.txt /tmp/dst.txt", 1);
    assert!(state.fs.contains("/tmp/src.txt"));
    assert!(state.fs.contains("/tmp/dst.txt"));
}

#[test]
fn run_cp_r_copies_directory_tree() {
    let mut state = PreviewState::default();
    handle_run(&mut state, "mkdir -p /src/sub", 1);
    handle_run(&mut state, "touch /src/file.txt", 1);
    handle_run(&mut state, "touch /src/sub/deep.txt", 1);

    handle_run(&mut state, "cp -r /src /dst", 1);

    // Source remains.
    assert!(state.fs.contains("/src"));
    // Destination is populated.
    assert!(state.fs.contains("/dst"));
    assert!(state.fs.contains("/dst/file.txt"));
    assert!(state.fs.contains("/dst/sub"));
    assert!(state.fs.contains("/dst/sub/deep.txt"));
}

#[test]
fn run_cp_no_r_on_directory_emits_warning() {
    // Pre-insert the source directory directly so no prior warnings exist.
    let mut state = PreviewState::default();
    state.fs.insert(
        "/srcdir".to_string(),
        FsNode::Directory(DirNode {
            provenance: Provenance::new(ProvenanceSource::Workdir),
            permissions: None,
        }),
    );
    handle_run(&mut state, "cp /srcdir /dstdir", 1);
    let has_unmodeled = state
        .warnings
        .iter()
        .any(|w| matches!(w, Warning::UnmodeledRunCommand { .. }));
    assert!(
        has_unmodeled,
        "cp on directory without -r must emit UnmodeledRunCommand"
    );
}

#[test]
fn run_cp_missing_source_emits_warning() {
    let mut state = PreviewState::default();
    handle_run(&mut state, "cp /nonexistent /dst", 1);
    let has_unmodeled = state
        .warnings
        .iter()
        .any(|w| matches!(w, Warning::UnmodeledRunCommand { .. }));
    assert!(has_unmodeled, "cp with missing source must emit warning");
}

// ── mkdir without -p, missing parent ──────────────────────────────────

#[test]
fn run_mkdir_without_p_emits_warning_when_parent_absent() {
    // `mkdir /missing/child` — parent `/missing` does not exist and no -p flag.
    // The handler must emit UnmodeledRunCommand and must NOT create the directory.
    let mut state = PreviewState::default();
    handle_run(&mut state, "mkdir /missing/child", 1);
    assert!(
        !state.fs.contains("/missing/child"),
        "directory must not be created when parent is absent and -p is omitted"
    );
    assert!(
        state
            .warnings
            .iter()
            .any(|w| matches!(w, Warning::UnmodeledRunCommand { .. })),
        "mkdir without -p on absent parent must emit UnmodeledRunCommand"
    );
}

// ── &&-chain state propagation ─────────────────────────────────────────

#[test]
fn run_and_chain_state_propagates_between_subcommands() {
    // `mkdir -p /app && touch /app/main.rs`: the touch must see /app created
    // by the mkdir earlier in the same handle_run call.
    let mut state = PreviewState::default();
    handle_run(&mut state, "mkdir -p /app && touch /app/main.rs", 1);
    assert!(
        state.fs.contains("/app"),
        "/app must be created by mkdir"
    );
    assert!(
        state.fs.contains("/app/main.rs"),
        "/app/main.rs must be created by touch, using /app created by mkdir"
    );
}

// ── mv wrong argument count ────────────────────────────────────────────

#[test]
fn run_mv_with_one_arg_emits_warning() {
    let mut state = PreviewState::default();
    handle_run(&mut state, "mv /only-one", 1);
    assert!(
        state
            .warnings
            .iter()
            .any(|w| matches!(w, Warning::UnmodeledRunCommand { .. })),
        "mv with one argument must emit UnmodeledRunCommand"
    );
}

#[test]
fn run_mv_with_three_args_emits_warning_and_leaves_fs_unchanged() {
    let mut state = PreviewState::default();
    handle_run(&mut state, "touch /a && touch /b", 1);
    let node_count_before = state.fs.iter().count();
    handle_run(&mut state, "mv /a /b /c", 1);
    // fs must not change — mv with 3 args is unmodeled
    assert_eq!(
        state.fs.iter().count(),
        node_count_before,
        "mv with three args must not mutate the filesystem"
    );
    assert!(
        state
            .warnings
            .iter()
            .any(|w| matches!(w, Warning::UnmodeledRunCommand { .. })),
        "mv with three args must emit UnmodeledRunCommand"
    );
}

// ── rm -rf / root guard ────────────────────────────────────────────────

#[test]
fn run_rm_rf_root_emits_warning_and_does_not_wipe_fs() {
    let mut state = PreviewState::default();
    handle_run(&mut state, "mkdir -p /app && touch /app/main.rs", 1);
    let node_count_before = state.fs.iter().count();
    assert!(node_count_before > 0);

    handle_run(&mut state, "rm -rf /", 1);

    assert_eq!(
        state.fs.iter().count(),
        node_count_before,
        "rm -rf / must not remove any nodes from the virtual filesystem"
    );
    assert!(
        state
            .warnings
            .iter()
            .any(|w| matches!(w, Warning::UnmodeledRunCommand { .. })),
        "rm -rf / must emit UnmodeledRunCommand"
    );
}

// ── has_recursive_flag unit tests ──────────────────────────────────────

#[test]
fn recursive_flag_detects_lowercase_r() {
    assert!(has_recursive_flag(&["-r"]));
}

#[test]
fn recursive_flag_detects_uppercase_r() {
    assert!(has_recursive_flag(&["-R"]));
}

#[test]
fn recursive_flag_detects_combined_rf() {
    assert!(has_recursive_flag(&["-rf"]));
}

#[test]
fn recursive_flag_detects_combined_rf_upper() {
    assert!(has_recursive_flag(&["-Rf"]));
}

#[test]
fn recursive_flag_detects_a_flag() {
    assert!(has_recursive_flag(&["-a"]));
}

#[test]
fn recursive_flag_does_not_match_long_form() {
    // `--recursive` is a long-form flag and must NOT be treated as recursive
    // by the short-flag character scan.
    assert!(!has_recursive_flag(&["--recursive"]));
}

#[test]
fn recursive_flag_does_not_match_preserve_root() {
    // `--preserve-root` contains 'r' but is a long-form flag — must not trigger.
    assert!(!has_recursive_flag(&["--preserve-root"]));
}

// ── normalize_path / resolve_path with .. ─────────────────────────────

#[test]
fn resolve_path_normalizes_dotdot() {
    // `/app/../etc` should normalize to `/etc`.
    let result = resolve_path("/", "/app/../etc");
    assert_eq!(result, "/etc".to_string());
}

#[test]
fn resolve_path_clamps_dotdot_at_root() {
    // `/../..` must clamp at `/`.
    let result = resolve_path("/", "/../..");
    assert_eq!(result, "/".to_string());
}

// ── files_changed integration tests ───────────────────────────────────

#[test]
fn run_files_changed_populated_after_mkdir() {
    let mut state = PreviewState::default();
    let layer = handle_run(&mut state, "mkdir -p /newdir", 1);
    assert!(
        !layer.files_changed.is_empty(),
        "mkdir must populate files_changed in the LayerSummary"
    );
    assert!(layer.files_changed.contains(&"/newdir".to_string()));
}

#[test]
fn run_files_changed_populated_after_touch() {
    let mut state = PreviewState::default();
    let layer = handle_run(&mut state, "touch /newfile.txt", 1);
    assert!(
        !layer.files_changed.is_empty(),
        "touch must populate files_changed in the LayerSummary"
    );
    assert!(layer.files_changed.contains(&"/newfile.txt".to_string()));
}

