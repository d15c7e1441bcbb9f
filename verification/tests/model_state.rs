use demu::model::state::{HistoryEntry, InstalledRegistry, LayerSummary, PreviewState, StageRegistry};
use demu::model::warning::Warning;

#[test]
fn default_cwd_is_root() {
    let state = PreviewState::default();
    assert_eq!(state.cwd, "/".to_string());
}

#[test]
fn default_env_is_empty() {
    let state = PreviewState::default();
    assert!(state.env.is_empty());
}

#[test]
fn default_fs_is_empty() {
    let state = PreviewState::default();
    assert_eq!(state.fs.iter().count(), 0);
}

#[test]
fn default_history_is_empty() {
    let state = PreviewState::default();
    assert!(state.history.is_empty());
}

#[test]
fn default_layers_is_empty() {
    let state = PreviewState::default();
    assert!(state.layers.is_empty());
}

#[test]
fn default_warnings_is_empty() {
    let state = PreviewState::default();
    assert!(state.warnings.is_empty());
}

#[test]
fn default_active_stage_is_none() {
    let state = PreviewState::default();
    assert!(state.active_stage.is_none());
}

#[test]
fn installed_registry_default_all_sets_empty() {
    let reg = InstalledRegistry::default();
    assert!(reg.apt.is_empty());
    assert!(reg.pip.is_empty());
    assert!(reg.npm.is_empty());
    assert!(reg.go_pkgs.is_empty());
    assert!(reg.apk.is_empty());
}

#[test]
fn record_apt_package_then_list_returns_it() {
    let mut reg = InstalledRegistry::default();
    reg.record("apt", "curl".to_string());
    assert_eq!(reg.list("apt"), vec!["curl"]);
}

#[test]
fn record_pip_package_then_list_returns_it() {
    let mut reg = InstalledRegistry::default();
    reg.record("pip", "requests".to_string());
    assert_eq!(reg.list("pip"), vec!["requests"]);
}

#[test]
fn record_npm_package_then_list_returns_it() {
    let mut reg = InstalledRegistry::default();
    reg.record("npm", "typescript".to_string());
    assert_eq!(reg.list("npm"), vec!["typescript"]);
}

#[test]
fn record_go_package_then_list_returns_it() {
    let mut reg = InstalledRegistry::default();
    reg.record("go", "golang.org/x/tools".to_string());
    assert_eq!(reg.list("go"), vec!["golang.org/x/tools"]);
}

#[test]
fn record_apk_package_then_list_returns_it() {
    let mut reg = InstalledRegistry::default();
    reg.record("apk", "busybox".to_string());
    assert_eq!(reg.list("apk"), vec!["busybox"]);
}

#[test]
fn list_returns_sorted_results() {
    let mut reg = InstalledRegistry::default();
    reg.record("apt", "wget".to_string());
    reg.record("apt", "curl".to_string());
    reg.record("apt", "bash".to_string());
    assert_eq!(reg.list("apt"), vec!["bash", "curl", "wget"]);
}

#[test]
fn record_multiple_managers_do_not_cross_contaminate() {
    let mut reg = InstalledRegistry::default();
    reg.record("apt", "curl".to_string());
    reg.record("pip", "flask".to_string());
    assert_eq!(reg.list("apt"), vec!["curl"]);
    assert_eq!(reg.list("pip"), vec!["flask"]);
    assert!(reg.list("npm").is_empty());
}

#[test]
fn record_duplicate_package_is_idempotent() {
    let mut reg = InstalledRegistry::default();
    reg.record("apt", "git".to_string());
    reg.record("apt", "git".to_string());
    assert_eq!(reg.list("apt"), vec!["git"]);
}

#[test]
fn record_unknown_manager_returns_false() {
    let mut reg = InstalledRegistry::default();
    let accepted = reg.record("brew", "htop".to_string());
    assert!(!accepted);
    assert!(reg.list("brew").is_empty());
}

#[test]
fn record_known_manager_returns_true() {
    let mut reg = InstalledRegistry::default();
    let accepted = reg.record("apt", "curl".to_string());
    assert!(accepted);
}

#[test]
fn list_unknown_manager_returns_empty_vec() {
    let reg = InstalledRegistry::default();
    assert!(reg.list("brew").is_empty());
}

#[test]
fn which_prefix_apt_returns_usr_bin() {
    let mut reg = InstalledRegistry::default();
    reg.record("apt", "curl".to_string());
    assert_eq!(reg.which_prefix("curl"), Some("/usr/bin"));
}

#[test]
fn which_prefix_apk_returns_usr_bin() {
    let mut reg = InstalledRegistry::default();
    reg.record("apk", "bash".to_string());
    assert_eq!(reg.which_prefix("bash"), Some("/usr/bin"));
}

#[test]
fn which_prefix_pip_returns_usr_local_bin() {
    let mut reg = InstalledRegistry::default();
    reg.record("pip", "flask".to_string());
    assert_eq!(reg.which_prefix("flask"), Some("/usr/local/bin"));
}

#[test]
fn which_prefix_npm_returns_usr_local_bin() {
    let mut reg = InstalledRegistry::default();
    reg.record("npm", "eslint".to_string());
    assert_eq!(reg.which_prefix("eslint"), Some("/usr/local/bin"));
}

#[test]
fn which_prefix_go_returns_usr_local_bin() {
    let mut reg = InstalledRegistry::default();
    reg.record("go", "gopls".to_string());
    assert_eq!(reg.which_prefix("gopls"), Some("/usr/local/bin"));
}

#[test]
fn which_prefix_not_found_returns_none() {
    let reg = InstalledRegistry::default();
    assert_eq!(reg.which_prefix("nonexistent"), None);
}

#[test]
fn which_prefix_apt_beats_pip_for_same_name() {
    let mut reg = InstalledRegistry::default();
    reg.record("pip", "git".to_string());
    reg.record("apt", "git".to_string());
    assert_eq!(reg.which_prefix("git"), Some("/usr/bin"));
}

#[test]
fn which_prefix_apk_beats_pip_for_same_name() {
    let mut reg = InstalledRegistry::default();
    reg.record("pip", "bash".to_string());
    reg.record("apk", "bash".to_string());
    assert_eq!(reg.which_prefix("bash"), Some("/usr/bin"));
}

#[test]
fn which_prefix_pip_beats_npm_for_same_name() {
    let mut reg = InstalledRegistry::default();
    reg.record("npm", "requests".to_string());
    reg.record("pip", "requests".to_string());
    assert_eq!(reg.which_prefix("requests"), Some("/usr/local/bin"));
}

#[test]
fn stage_registry_is_empty_on_default() {
    let reg = StageRegistry::default();
    assert!(reg.is_empty());
    assert_eq!(reg.len(), 0);
}

#[test]
fn stage_registry_is_not_empty_after_insert() {
    let mut reg = StageRegistry::default();
    reg.insert(0, None, PreviewState::default());
    assert!(!reg.is_empty());
}

#[test]
fn stage_registry_insert_by_index_only_when_no_alias() {
    let mut reg = StageRegistry::default();
    reg.insert(0, None, PreviewState::default());
    assert!(reg.get("0").is_some());
    assert_eq!(reg.keys(), vec!["0"]);
}

#[test]
fn stage_registry_insert_by_index_and_alias() {
    let mut reg = StageRegistry::default();
    let mut s = PreviewState::default();
    s.env.insert("KEY".to_string(), "val".to_string());
    reg.insert(0, Some("builder"), s);
    assert!(reg.get("0").is_some());
    assert!(reg.get("builder").is_some());
}

#[test]
fn stage_registry_get_by_index_string() {
    let mut reg = StageRegistry::default();
    let mut s = PreviewState::default();
    s.env.insert("STAGE".to_string(), "zero".to_string());
    reg.insert(0, None, s);
    let retrieved = reg.get("0").expect("stage 0 must exist");
    assert_eq!(retrieved.env.get("STAGE").map(String::as_str), Some("zero"));
}

#[test]
fn stage_registry_get_by_alias() {
    let mut reg = StageRegistry::default();
    let mut s = PreviewState::default();
    s.env.insert("WHO".to_string(), "builder".to_string());
    reg.insert(1, Some("builder"), s);
    let retrieved = reg.get("builder").expect("stage 'builder' must exist");
    assert_eq!(retrieved.env.get("WHO").map(String::as_str), Some("builder"));
}

#[test]
fn stage_registry_get_returns_none_for_unknown_key() {
    let reg = StageRegistry::default();
    assert!(reg.get("nonexistent").is_none());
    assert!(reg.get("99").is_none());
}

#[test]
fn stage_registry_keys_returns_sorted_keys() {
    let mut reg = StageRegistry::default();
    reg.insert(0, Some("builder"), PreviewState::default());
    reg.insert(1, Some("runner"), PreviewState::default());
    let keys = reg.keys();
    assert_eq!(keys, vec!["0", "1", "builder", "runner"]);
}

#[test]
fn stage_registry_len_counts_unique_stages_by_index() {
    let mut reg = StageRegistry::default();
    reg.insert(0, Some("builder"), PreviewState::default());
    reg.insert(1, None, PreviewState::default());
    assert_eq!(reg.len(), 2);
}

#[test]
fn stage_registry_alias_and_index_share_same_state() {
    let mut reg = StageRegistry::default();
    let mut s = PreviewState::default();
    s.cwd = "/build".to_string();
    reg.insert(0, Some("builder"), s);
    assert_eq!(reg.get("0").expect("by index").cwd, "/build".to_string());
    assert_eq!(reg.get("builder").expect("by alias").cwd, "/build".to_string());
}

#[test]
fn preview_state_clone_is_independent() {
    let mut state = PreviewState::default();
    let mut clone = state.clone();
    clone.cwd = "/app".to_string();
    assert_eq!(state.cwd, "/".to_string());
    state.warnings.push(Warning::EmptyBaseImage { image: "scratch".to_string() });
    assert!(clone.warnings.is_empty());
}

#[test]
fn history_entry_stores_all_fields() {
    let entry = HistoryEntry { line: 3, instruction: "WORKDIR /app".to_string(), effect: "set cwd to /app".to_string() };
    assert_eq!(entry.line, 3);
    assert_eq!(entry.instruction, "WORKDIR /app");
    assert_eq!(entry.effect, "set cwd to /app");
}

#[test]
fn layer_summary_stores_all_fields() {
    let layer = LayerSummary {
        instruction_type: "COPY".to_string(),
        files_changed: vec!["/app/main.rs".to_string()],
        env_changed: vec![],
    };
    assert_eq!(layer.instruction_type, "COPY");
    assert_eq!(layer.files_changed.len(), 1);
    assert!(layer.env_changed.is_empty());
}

// A registry key that spells a different index than the stage's own is
// still a plain alias, and the stage's own index wins a clash.
#[test]
fn stage_registry_index_wins_over_alias_spelling_it() {
    let mut reg = StageRegistry::default();
    let mut s = PreviewState::default();
    s.cwd = "/one".to_string();
    reg.insert(0, Some("0"), s);
    assert_eq!(reg.keys(), vec!["0"]);
    assert_eq!(reg.len(), 1);
}
