use demu::model::compose::{EnvEntry, VolumeSpec};
use demu::parser::compose::{
    compose_from_raw, parse_env_string, parse_volume_short, RawBuild, RawComposeFile, RawDependsOn, RawEnv,
    RawEnvFile, RawScalar, RawService, RawVolumeDefinition, RawVolumeSpec,
};
use demu::parser::error::ComposeParseError;

#[test]
fn parse_volume_short_bind() {
    let spec = parse_volume_short("./src:/app/src");
    assert_eq!(
        spec,
        VolumeSpec::Bind { host_path: "./src".to_string(), container_path: "/app/src".to_string(), read_only: false }
    );
}

#[test]
fn parse_volume_short_bind_readonly() {
    let spec = parse_volume_short("./src:/app/src:ro");
    assert_eq!(
        spec,
        VolumeSpec::Bind { host_path: "./src".to_string(), container_path: "/app/src".to_string(), read_only: true }
    );
}

#[test]
fn parse_volume_short_named() {
    let spec = parse_volume_short("data:/var/lib/data");
    assert_eq!(
        spec,
        VolumeSpec::Named {
            volume_name: "data".to_string(),
            container_path: "/var/lib/data".to_string(),
            read_only: false,
        }
    );
}

#[test]
fn parse_volume_short_anonymous() {
    let spec = parse_volume_short("/app/cache");
    assert_eq!(spec, VolumeSpec::Anonymous { container_path: "/app/cache".to_string() });
}

#[test]
fn parse_volume_short_absolute_bind() {
    let spec = parse_volume_short("/host/path:/app");
    assert_eq!(
        spec,
        VolumeSpec::Bind { host_path: "/host/path".to_string(), container_path: "/app".to_string(), read_only: false }
    );
}

#[test]
fn parse_env_list_key_value() {
    let entry = parse_env_string("KEY=value".to_string());
    assert_eq!(entry, EnvEntry::KeyValue { key: "KEY".to_string(), value: "value".to_string() });
}

#[test]
fn parse_env_list_key_only() {
    let entry = parse_env_string("KEY".to_string());
    assert_eq!(entry, EnvEntry::KeyOnly { key: "KEY".to_string() });
}

fn bare() -> RawService {
    RawService {
        build: None,
        image: None,
        environment: None,
        env_file: None,
        volumes: vec![],
        working_dir: None,
        depends_on: None,
        ports: vec![],
    }
}

fn one(name: &str, svc: RawService) -> RawComposeFile {
    RawComposeFile { services: Some(vec![(name.to_string(), svc)]), volumes: vec![] }
}

#[test]
fn env_dict_values_become_text() {
    let svc = RawService {
        environment: Some(RawEnv::Dict(vec![
            ("KEY".to_string(), RawScalar::Str("val".to_string())),
            ("PORT".to_string(), RawScalar::Number("3000".to_string())),
            ("ON".to_string(), RawScalar::Bool(true)),
            ("NONE".to_string(), RawScalar::Null),
            ("LIST".to_string(), RawScalar::Other("- a\n- b\n".to_string())),
        ])),
        ..bare()
    };
    let file = compose_from_raw(&one("svc", svc)).expect("should convert");
    let s = file.services.get("svc").expect("svc present");
    assert_eq!(
        s.environment,
        vec![
            EnvEntry::KeyValue { key: "KEY".to_string(), value: "val".to_string() },
            EnvEntry::KeyValue { key: "PORT".to_string(), value: "3000".to_string() },
            EnvEntry::KeyValue { key: "ON".to_string(), value: "true".to_string() },
            EnvEntry::KeyValue { key: "NONE".to_string(), value: "".to_string() },
            EnvEntry::KeyValue { key: "LIST".to_string(), value: "- a\n- b".to_string() },
        ]
    );
}

#[test]
fn build_short_form_defaults_dockerfile() {
    let svc = RawService { build: Some(RawBuild::Short("./app".to_string())), ..bare() };
    let file = compose_from_raw(&one("api", svc)).expect("should convert");
    let b = file.services.get("api").unwrap().build.clone().expect("build present");
    assert_eq!(b.context, "./app");
    assert_eq!(b.dockerfile, "Dockerfile");
}

#[test]
fn build_long_form_keeps_dockerfile() {
    let svc = RawService {
        build: Some(RawBuild::Full { context: "./app".to_string(), dockerfile: "Dockerfile.dev".to_string() }),
        ..bare()
    };
    let file = compose_from_raw(&one("api", svc)).expect("should convert");
    let b = file.services.get("api").unwrap().build.clone().expect("build present");
    assert_eq!(b.dockerfile, "Dockerfile.dev");
}

#[test]
fn depends_on_and_env_file_forms() {
    let svc = RawService {
        depends_on: Some(RawDependsOn::Dict(vec!["db".to_string()])),
        env_file: Some(RawEnvFile::Single(".env".to_string())),
        ..bare()
    };
    let file = compose_from_raw(&one("api", svc)).expect("should convert");
    let s = file.services.get("api").unwrap();
    assert_eq!(s.depends_on, vec!["db"]);
    assert_eq!(s.env_file, vec![".env"]);
    let svc2 = RawService {
        depends_on: Some(RawDependsOn::List(vec!["db".to_string(), "cache".to_string()])),
        env_file: Some(RawEnvFile::List(vec![".env".to_string(), ".env.local".to_string()])),
        ..bare()
    };
    let file2 = compose_from_raw(&one("api", svc2)).expect("should convert");
    let s2 = file2.services.get("api").unwrap();
    assert_eq!(s2.depends_on, vec!["db", "cache"]);
    assert_eq!(s2.env_file, vec![".env", ".env.local"]);
}

#[test]
fn missing_services_is_an_error() {
    let raw = RawComposeFile { services: None, volumes: vec![] };
    assert!(matches!(compose_from_raw(&raw), Err(ComposeParseError::MissingServicesKey)));
}

#[test]
fn long_bind_without_source_is_an_error_naming_the_service() {
    let svc = RawService {
        volumes: vec![RawVolumeSpec::Long {
            kind: "bind".to_string(),
            source: None,
            target: "/data".to_string(),
            read_only: false,
        }],
        ..bare()
    };
    match compose_from_raw(&one("web", svc)) {
        Err(ComposeParseError::InvalidService { name, message }) => {
            assert_eq!(name, "web");
            assert_eq!(message, "bind volume missing 'source'");
        }
        other => panic!("expected InvalidService, got {other:?}"),
    }
}

#[test]
fn long_volume_forms_convert() {
    let svc = RawService {
        volumes: vec![
            RawVolumeSpec::Long {
                kind: "volume".to_string(),
                source: Some("data".to_string()),
                target: "/data".to_string(),
                read_only: true,
            },
            RawVolumeSpec::Long { kind: "volume".to_string(), source: None, target: "/cache".to_string(), read_only: false },
            RawVolumeSpec::Long { kind: "tmpfs".to_string(), source: None, target: "/run".to_string(), read_only: false },
            RawVolumeSpec::Short("./src:/app".to_string()),
        ],
        ..bare()
    };
    let file = compose_from_raw(&one("web", svc)).expect("should convert");
    assert_eq!(
        file.services.get("web").unwrap().volumes,
        vec![
            VolumeSpec::Named { volume_name: "data".to_string(), container_path: "/data".to_string(), read_only: true },
            VolumeSpec::Anonymous { container_path: "/cache".to_string() },
            VolumeSpec::Anonymous { container_path: "/run".to_string() },
            VolumeSpec::Bind { host_path: "./src".to_string(), container_path: "/app".to_string(), read_only: false },
        ]
    );
}

#[test]
fn top_level_volumes_record_external() {
    let raw = RawComposeFile {
        services: Some(vec![]),
        volumes: vec![
            ("cache".to_string(), None),
            ("shared".to_string(), Some(RawVolumeDefinition { external: true })),
        ],
    };
    let file = compose_from_raw(&raw).expect("should convert");
    assert!(!file.volumes.get("cache").unwrap().external);
    assert!(file.volumes.get("shared").unwrap().external);
}
