use demu::engine::compose::{
    admit_build_path, admit_env_file, apply_compose_overrides, image_only_state, strip_inline_comment, normalize_virtual_path, parse_env_file, select_service,
    ComposeEngineError,
};
use demu::model::compose::{ComposeFile, EnvEntry, Service};
use demu::model::sorted::SortedMap;
use demu::model::state::PreviewState;
use demu::model::warning::Warning;

fn single_service_compose(service: Service) -> ComposeFile {
    let mut services = SortedMap::new();
    services.insert(service.name.clone(), service);
    ComposeFile { services, volumes: SortedMap::new() }
}

fn bare_service(name: &str) -> Service {
    Service {
        name: name.to_string(),
        build: None,
        image: None,
        environment: vec![],
        env_file: vec![],
        volumes: vec![],
        working_dir: None,
        depends_on: vec![],
        ports: vec![],
    }
}

#[test]
fn service_not_found_returns_error() {
    let compose = ComposeFile { services: SortedMap::new(), volumes: SortedMap::new() };
    let err = select_service(&compose, "missing").expect_err("should fail");
    assert!(matches!(err, ComposeEngineError::ServiceNotFound { .. }), "expected ServiceNotFound, got: {err:?}");
}

#[test]
fn image_only_service_returns_empty_fs_with_warning() {
    let service = Service { image: Some("postgres:15".to_string()), ..bare_service("db") };
    let compose = single_service_compose(service);
    let svc = select_service(&compose, "db").expect("should succeed");
    let state = image_only_state(svc);
    assert!(state.fs.iter().count() == 0, "image-only service must have empty fs; got {} nodes", state.fs.iter().count());
    let has_warning =
        state.warnings.iter().any(|w| matches!(w, Warning::ImageOnlyService { image } if image == "postgres:15"));
    assert!(has_warning, "must have ImageOnlyService warning");
    assert_eq!(state.active_stage.as_deref(), Some("postgres:15"), "active_stage must be the image name");
}

#[test]
fn parse_env_file_handles_comments_and_blanks() {
    let content = "# comment\n\nKEY=value\nANOTHER=one\n";
    let mut env = SortedMap::new();
    parse_env_file(content, &mut env);
    assert_eq!(env.get("KEY").map(String::as_str), Some("value"));
    assert_eq!(env.get("ANOTHER").map(String::as_str), Some("one"));
    assert_eq!(env.len(), 2);
}

#[test]
fn parse_env_file_handles_empty_value() {
    let content = "EMPTY=\n";
    let mut env = SortedMap::new();
    parse_env_file(content, &mut env);
    assert_eq!(env.get("EMPTY").map(String::as_str), Some(""));
}

#[test]
fn parse_env_file_skips_lines_without_equals() {
    let content = "BARE_KEY\nKEY=value\n";
    let mut env = SortedMap::new();
    parse_env_file(content, &mut env);
    assert!(!env.contains_key("BARE_KEY"), "bare key should be skipped");
    assert_eq!(env.get("KEY").map(String::as_str), Some("value"));
}

#[test]
fn parse_env_file_value_may_contain_equals() {
    let content = "URL=https://example.com/?a=1&b=2\n";
    let mut env = SortedMap::new();
    parse_env_file(content, &mut env);
    assert_eq!(env.get("URL").map(String::as_str), Some("https://example.com/?a=1&b=2"));
}

#[test]
fn normalize_virtual_path_resolves_dotdot() {
    assert_eq!(normalize_virtual_path("/app/../etc"), "/etc".to_string());
}

#[test]
fn normalize_virtual_path_clamps_above_root() {
    assert_eq!(normalize_virtual_path("/../../etc"), "/etc".to_string());
}

#[test]
fn normalize_virtual_path_no_change() {
    assert_eq!(normalize_virtual_path("/app/data"), "/app/data".to_string());
}

#[test]
fn normalize_virtual_path_root() {
    assert_eq!(normalize_virtual_path("/"), "/".to_string());
}

#[test]
fn parse_env_file_strips_inline_comment() {
    let content = "KEY=value # this is a comment\n";
    let mut env = SortedMap::new();
    parse_env_file(content, &mut env);
    assert_eq!(env.get("KEY").map(String::as_str), Some("value"), "inline comment must be stripped; got: {:?}", env.get("KEY"));
}

#[test]
fn parse_env_file_strips_double_quotes() {
    let content = "KEY=\"hello world\"\n";
    let mut env = SortedMap::new();
    parse_env_file(content, &mut env);
    assert_eq!(env.get("KEY").map(String::as_str), Some("hello world"), "double quotes must be stripped; got: {:?}", env.get("KEY"));
}

#[test]
fn parse_env_file_strips_single_quotes() {
    let content = "KEY='single quoted'\n";
    let mut env = SortedMap::new();
    parse_env_file(content, &mut env);
    assert_eq!(env.get("KEY").map(String::as_str), Some("single quoted"), "single quotes must be stripped; got: {:?}", env.get("KEY"));
}

#[test]
fn parse_env_file_url_with_hash_in_quotes_preserved() {
    let content = "URL=\"http://host/#anchor\"\n";
    let mut env = SortedMap::new();
    parse_env_file(content, &mut env);
    assert_eq!(env.get("URL").map(String::as_str), Some("http://host/#anchor"), "hash in quoted value must be preserved; got: {:?}", env.get("URL"));
}

#[test]
fn parse_env_file_unquoted_url_with_equals_preserved() {
    let content = "URL=https://example.com/?a=1\n";
    let mut env = SortedMap::new();
    parse_env_file(content, &mut env);
    assert_eq!(env.get("URL").map(String::as_str), Some("https://example.com/?a=1"));
}

// The Compose `environment` wins over what an env file set, and a bare key
// only warns.
#[test]
fn environment_overrides_env_file_and_bare_key_warns() {
    let service = Service {
        env_file: vec![".env".to_string()],
        environment: vec![
            EnvEntry::KeyValue { key: "A".to_string(), value: "compose".to_string() },
            EnvEntry::KeyOnly { key: "HOST_ONLY".to_string() },
        ],
        ..bare_service("svc")
    };
    let mut state = PreviewState::default();
    apply_compose_overrides(&mut state, &service, &vec![Some("A=file\nB=file\n".to_string())]);
    assert_eq!(state.env.get("A").map(String::as_str), Some("compose"));
    assert_eq!(state.env.get("B").map(String::as_str), Some("file"));
    assert!(state.warnings.iter().any(|w| matches!(w, Warning::UnresolvedEnvKey { key } if key == "HOST_ONLY")));
}

// An env file that could not be read is reported and skipped.
#[test]
fn unreadable_env_file_warns() {
    let service = Service { env_file: vec!["missing.env".to_string()], ..bare_service("svc") };
    let mut state = PreviewState::default();
    apply_compose_overrides(&mut state, &service, &vec![None]);
    assert!(state.warnings.iter().any(|w| matches!(w, Warning::EnvFileNotFound { path } if path == "missing.env")));
    assert!(state.env.is_empty());
}

// A working directory that climbs above the root is clamped there, with a
// warning.
#[test]
fn working_dir_escaping_root_is_clamped() {
    let service = Service { working_dir: Some("../../etc".to_string()), ..bare_service("svc") };
    let mut state = PreviewState::default();
    apply_compose_overrides(&mut state, &service, &vec![]);
    assert_eq!(state.cwd, "/etc".to_string());
    assert!(state.warnings.iter().any(|w| matches!(w, Warning::WorkdirEscapedRoot { .. })));
}

// An unknown service is reported with every service the file defines.
#[test]
fn unknown_service_text_lists_services() {
    let mut services = SortedMap::new();
    services.insert("db".to_string(), bare_service("db"));
    services.insert("api".to_string(), bare_service("api"));
    let file = ComposeFile { services, volumes: SortedMap::new() };
    assert_eq!(
        demu::engine::compose::service_not_found_text(&file, "web"),
        "service 'web' not found in compose file; available services: api, db"
    );
}

#[test]
fn inline_comment_after_tab_is_stripped() {
    assert_eq!(strip_inline_comment("value\t# comment"), "value");
    assert_eq!(strip_inline_comment("value # c"), "value");
    assert_eq!(strip_inline_comment("value\n#x"), "value");
}

#[test]
fn inline_comment_keeps_quoted_values_and_url_fragments() {
    assert_eq!(strip_inline_comment("\"a # b\""), "\"a # b\"");
    assert_eq!(strip_inline_comment("http://h/#x"), "http://h/#x");
    assert_eq!(strip_inline_comment("#x"), "#x");
    assert_eq!(strip_inline_comment("v  "), "v");
}

#[test]
fn env_file_value_with_tab_comment() {
    let mut env = SortedMap::new();
    parse_env_file("A=1\t# one\nB='x # y'\n", &mut env);
    assert_eq!(env.get("A"), Some(&"1".to_string()));
    assert_eq!(env.get("B"), Some(&"x # y".to_string()));
}

#[test]
fn build_path_inside_project_is_admitted_at_canonical_spelling() {
    assert_eq!(admit_build_path("/proj", "/proj/./ctx", Some("/proj/ctx")), Ok("/proj/ctx".to_string()));
    assert_eq!(admit_build_path("/proj", "/proj/.", Some("/proj")), Ok("/proj".to_string()));
}

#[test]
fn build_path_outside_project_reports_canonical_path() {
    assert_eq!(
        admit_build_path("/proj", "/proj/../../etc", Some("/etc")),
        Err(ComposeEngineError::DockerfileNotFound { path: "/etc".to_string() })
    );
    assert_eq!(
        admit_build_path("/proj", "/proj/x", Some("/project-other")),
        Err(ComposeEngineError::DockerfileNotFound { path: "/project-other".to_string() })
    );
}

#[test]
fn build_path_missing_reports_joined_path() {
    assert_eq!(
        admit_build_path("/proj", "/proj/missing", None),
        Err(ComposeEngineError::DockerfileNotFound { path: "/proj/missing".to_string() })
    );
}

#[test]
fn env_file_outside_project_or_missing_is_not_read() {
    assert_eq!(admit_env_file("/proj", Some("/proj/.env")), Some("/proj/.env".to_string()));
    assert_eq!(admit_env_file("/proj", Some("/home/u/.env")), None);
    assert_eq!(admit_env_file("/proj", None), None);
}
