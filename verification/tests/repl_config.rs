use demu::model::compose::ComposeFile;
use demu::model::sorted::SortedMap;
use demu::repl::config::{ComposeContext, ReplConfig};


fn empty_compose_file() -> ComposeFile {
    ComposeFile {
        services: SortedMap::new(),
        volumes: SortedMap::new(),
    }
}

// --- ComposeContext is stored and retrieved via builder ---

#[test]
fn repl_config_compose_context_defaults_to_none() {
    let config = ReplConfig::new("/project/Dockerfile".to_string());
    assert!(config.compose_context.is_none());
}

#[test]
fn repl_config_with_context_compose_context_defaults_to_none() {
    let config = ReplConfig::with_context(
        "/project/docker/Dockerfile".to_string(),
        "/project".to_string(),
    );
    assert!(config.compose_context.is_none());
}

#[test]
fn repl_config_with_compose_context_stores_value() {
    let ctx = ComposeContext {
        compose_file: empty_compose_file(),
        selected_service: "api".to_string(),
    };
    let config =
        ReplConfig::new("/project/compose.yaml".to_string()).with_compose_context(Some(ctx));
    let stored = config.compose_context.expect("should be Some");
    assert_eq!(stored.selected_service, "api");
}

#[test]
fn repl_config_with_compose_context_none_clears() {
    let ctx = ComposeContext {
        compose_file: empty_compose_file(),
        selected_service: "api".to_string(),
    };
    let config = ReplConfig::new("/project/compose.yaml".to_string())
        .with_compose_context(Some(ctx))
        .with_compose_context(None);
    assert!(config.compose_context.is_none());
}

// --- ReplConfig::new derives context_dir from parent ---

#[test]
fn repl_config_new_derives_context_dir_from_parent() {
    let df_path = "/project/Dockerfile".to_string();
    let config = ReplConfig::new(df_path.clone());
    assert_eq!(config.dockerfile_path, df_path);
    assert_eq!(config.context_dir, "/project".to_string());
}

#[test]
fn repl_config_new_nested_path_derives_correct_parent() {
    let df_path = "/home/user/app/Dockerfile".to_string();
    let config = ReplConfig::new(df_path);
    assert_eq!(config.context_dir, "/home/user/app".to_string());
}

// --- ReplConfig::with_context accepts explicit context directory ---

#[test]
fn repl_config_with_context_stores_custom_context_dir() {
    let df_path = "/project/docker/Dockerfile".to_string();
    let ctx_dir = "/project".to_string();
    let config = ReplConfig::with_context(df_path.clone(), ctx_dir.clone());
    assert_eq!(config.dockerfile_path, df_path);
    assert_eq!(config.context_dir, ctx_dir);
}

// --- Public fields are directly accessible ---

#[test]
fn repl_config_fields_are_accessible() {
    let config = ReplConfig::new("/app/Dockerfile".to_string());
    let _ = &config.dockerfile_path;
    let _ = &config.context_dir;
    assert_eq!(config.dockerfile_path, "/app/Dockerfile".to_string());
    assert_eq!(config.context_dir, "/app".to_string());
}


#[test]
fn new_bare_file_name_uses_root_context() {
    assert_eq!(ReplConfig::new("Dockerfile".to_string()).context_dir, "/");
    assert_eq!(ReplConfig::new("/Dockerfile".to_string()).context_dir, "/");
    assert_eq!(ReplConfig::new("ctx/Dockerfile".to_string()).context_dir, "ctx");
    assert_eq!(ReplConfig::new("/a/b/Dockerfile".to_string()).context_dir, "/a/b");
}

#[test]
fn new_keeps_a_leading_dot_segment() {
    assert_eq!(ReplConfig::new("./D".to_string()).context_dir, ".");
    assert_eq!(ReplConfig::new("./ctx/Dockerfile".to_string()).context_dir, "./ctx");
    assert_eq!(ReplConfig::new("../Dockerfile".to_string()).context_dir, "..");
}
