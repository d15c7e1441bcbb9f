use demu::engine::compose::apply_compose_overrides;
use demu::engine::copy::{HostEntry, HostSource};
use demu::engine::run_sim::handle_run;
use demu::engine::runner::run;
use demu::model::compose::{EnvEntry, Service};
use demu::model::fs::{DirNode, FileNode, FsNode, VirtualFs};
use demu::model::instruction::{CopySource, Instruction};
use demu::model::provenance::{Provenance, ProvenanceSource};
use demu::model::state::PreviewState;
use demu::model::warning::Warning;
use demu::output::sanitize::sanitize_for_terminal;
use demu::repl::path::resolve_path;
use demu::repl::commands::cat;
use demu::repl::commands::find::{self, glob_match};
use demu::repl::commands::ls;
use demu::repl::dispatch;
use demu::repl::parse::parse_input;

fn file(content: &[u8]) -> FsNode {
    FsNode::File(FileNode { content: content.to_vec(), provenance: Provenance::new(ProvenanceSource::Workdir), permissions: None })
}

fn dir() -> FsNode {
    FsNode::Directory(DirNode { provenance: Provenance::new(ProvenanceSource::Workdir), permissions: None })
}

fn sample_fs() -> PreviewState {
    let mut fs = VirtualFs::new();
    fs.insert("/app".to_string(), dir());
    fs.insert("/app/b.txt".to_string(), file(b"b"));
    fs.insert("/app/a".to_string(), dir());
    fs.insert("/app/a/deep.txt".to_string(), file(b"d"));
    fs.insert("/appdata/x".to_string(), file(b"x"));
    let mut state = PreviewState::default();
    state.fs = fs;
    state
}

#[test]
fn every_listed_entry_is_found() {
    let state = sample_fs();
    let listed = ls::execute(&state, Some("/app"), false).expect("ls");
    assert_eq!(listed, "a/\nb.txt\n");
    let found = find::execute(&state, "/app", None).expect("find");
    assert_eq!(found, "/app\n/app/a\n/app/a/deep.txt\n/app/b.txt\n");
    for name in ["a", "b.txt"] {
        assert!(found.lines().any(|l| l == format!("/app/{name}")));
    }
}

#[test]
fn ls_long_lists_kinds_and_link_targets() {
    let mut state = sample_fs();
    state.fs.insert(
        "/app/link".to_string(),
        FsNode::Symlink(demu::model::fs::SymlinkNode {
            target: "/usr/bin/python3".to_string(),
            provenance: Provenance::new(ProvenanceSource::Workdir),
        }),
    );
    let out = ls::execute(&state, Some("/app"), true).expect("ls");
    assert_eq!(out, "drwxr-xr-x a/\n-rw-r--r-- b.txt\nlrwxrwxrwx link -> /usr/bin/python3\n");
}

#[test]
fn glob_without_wildcards_matches_only_itself() {
    assert!(glob_match("main.rs", "main.rs"));
    assert!(!glob_match("main.rs", "main.rsx"));
    assert!(!glob_match("main.rs", "Main.rs"));
}

#[test]
fn star_matches_every_name() {
    for n in ["", "a", "main.rs", "日本語"] {
        assert!(glob_match("*", n));
    }
}

#[test]
fn question_mark_matches_one_character() {
    assert!(glob_match("?", "a"));
    assert!(!glob_match("?", ""));
    assert!(!glob_match("?", "ab"));
}

#[test]
fn cd_then_pwd_shows_the_new_directory() {
    let mut state = sample_fs();
    dispatch(&mut state, parse_input("cd /app/a/.."), None).expect("cd");
    let (_, out) = dispatch(&mut state, parse_input("pwd"), None).expect("pwd");
    assert_eq!(out, "/app\n");
}

#[test]
fn only_cd_changes_the_state() {
    let mut state = sample_fs();
    let before = format!("{state:?}");
    for line in ["ls", "find /", "cat /app/b.txt", "env", "help", ":history", "which x", "bogus"] {
        let _ = dispatch(&mut state, parse_input(line), None);
        assert_eq!(format!("{state:?}"), before, "`{line}` changed the state");
    }
}

#[test]
fn unknown_command_is_reported_with_its_text() {
    let mut state = PreviewState::default();
    match dispatch(&mut state, parse_input("  frobnicate now "), None) {
        Err(e) => assert_eq!(e.describe(), "unknown command: 'frobnicate now'. Type 'help' for available commands."),
        Ok(_) => panic!("expected an error"),
    }
}

#[test]
fn sanitizing_twice_changes_nothing() {
    let once = sanitize_for_terminal("a\x1b[2J\u{9b}b\rc");
    assert_eq!(once, "a[2Jbc");
    assert_eq!(sanitize_for_terminal(&once), once);
}

#[test]
fn last_environment_entry_for_a_key_wins() {
    let service = Service {
        name: "svc".to_string(),
        build: None,
        image: None,
        environment: vec![
            EnvEntry::KeyValue { key: "K".to_string(), value: "first".to_string() },
            EnvEntry::KeyValue { key: "K".to_string(), value: "second".to_string() },
        ],
        env_file: vec![".env".to_string()],
        volumes: vec![],
        working_dir: None,
        depends_on: vec![],
        ports: vec![],
    };
    let mut state = PreviewState::default();
    state.env.insert("K".to_string(), "dockerfile".to_string());
    apply_compose_overrides(&mut state, &service, &vec![Some("K=file\n".to_string())]);
    assert_eq!(state.env.get("K").map(String::as_str), Some("second"));
}

#[test]
fn run_never_moves_cwd_or_touches_env() {
    let mut state = PreviewState::default();
    state.cwd = "/work".to_string();
    state.env.insert("A".to_string(), "1".to_string());
    handle_run(&mut state, "mkdir -p sub && cd sub && touch f && export A=2", 3);
    assert_eq!(state.cwd, "/work");
    assert_eq!(state.env.get("A").map(String::as_str), Some("1"));
    assert!(state.fs.contains("/work/sub"));
    assert!(state.fs.contains("/work/f"), "`cd` inside RUN does not move later sub-commands");
}

#[test]
fn history_and_layers_grow_together() {
    let instrs = vec![
        Instruction::From { image: "alpine".to_string(), alias: None },
        Instruction::Workdir { path: "/app".to_string() },
        Instruction::Env { key: "X".to_string(), value: "1".to_string() },
        Instruction::Run { command: "touch a".to_string() },
        Instruction::Unknown { raw: "expose 80".to_string() },
    ];
    let hosts = vec![HostSource::Missing; instrs.len()];
    let out = run(instrs, &hosts, "/ctx").expect("run");
    assert_eq!(out.state.history.len(), 5);
    assert_eq!(out.state.layers.len(), 5);
}

// The keyword of an unsupported instruction is reported upper-cased.
#[test]
fn unknown_instruction_keyword_is_upper_cased() {
    let instrs = vec![Instruction::Unknown { raw: "expose 80".to_string() }];
    let out = run(instrs, &vec![HostSource::Missing], "/ctx").expect("run");
    assert_eq!(out.state.layers[0].instruction_type, "EXPOSE");
    assert!(out.state.warnings.iter().any(
        |w| matches!(w, Warning::UnsupportedInstruction { instruction, line } if instruction == "EXPOSE" && *line == 1)
    ));
}

// The history shows a COPY source with its path quoted.
#[test]
fn copy_history_quotes_the_source() {
    let instrs = vec![Instruction::Copy { source: CopySource::Host("a b.txt".to_string()), dest: "/x".to_string() }];
    let out = run(instrs, &vec![HostSource::File { content: b"hi".to_vec() }], "/ctx").expect("run");
    assert!(out.state.history[0].instruction.contains("\"a b.txt\""), "got {}", out.state.history[0].instruction);
    match out.state.fs.get("/x") {
        Some(FsNode::File(f)) => {
            assert_eq!(f.content, b"hi");
            assert_eq!(f.provenance.created_by, ProvenanceSource::CopyFromHost { host_path: "/ctx/a b.txt".to_string() });
        }
        other => panic!("expected a file, got {other:?}"),
    }
}

// Invalid UTF-8 in a file is shown with replacement characters.
#[test]
fn cat_replaces_invalid_utf8() {
    let mut state = PreviewState::default();
    state.fs.insert("/bin.dat".to_string(), file(&[b'o', b'k', 0xff, b'!']));
    assert_eq!(cat::execute(&state, "/bin.dat").expect("cat"), "ok\u{fffd}!");
}

// An unreadable host source stops the run with the host's error.
#[test]
fn unreadable_host_source_is_an_error() {
    let instrs = vec![
        Instruction::Env { key: "A".to_string(), value: "1".to_string() },
        Instruction::Copy { source: CopySource::Host("secret".to_string()), dest: "/s".to_string() },
    ];
    let hosts = vec![
        HostSource::Missing,
        HostSource::Unreadable { path: "/ctx/secret".to_string(), message: "permission denied".to_string() },
    ];
    match run(instrs, &hosts, "/ctx") {
        Err(e) => assert_eq!(e.describe(), "I/O error reading '/ctx/secret': permission denied"),
        Ok(_) => panic!("expected an error"),
    }
}

// A directory COPY re-creates the host tree below the destination.
#[test]
fn directory_copy_recreates_tree() {
    let entries = vec![
        HostEntry { rel_path: "sub".to_string(), host_path: "/ctx/src/sub".to_string(), is_dir: true, content: vec![] },
        HostEntry { rel_path: "sub/f.txt".to_string(), host_path: "/ctx/src/sub/f.txt".to_string(), is_dir: false, content: b"f".to_vec() },
    ];
    let instrs = vec![Instruction::Copy { source: CopySource::Host("src".to_string()), dest: "/app".to_string() }];
    let out = run(instrs, &vec![HostSource::Dir { entries }], "/ctx").expect("run");
    assert!(out.state.fs.contains("/app/sub"));
    assert!(matches!(out.state.fs.get("/app/sub/f.txt"), Some(FsNode::File(f)) if f.content == b"f"));
}

#[test]
fn resolved_paths_are_canonical_and_stable() {
    let r = resolve_path("/app/src", "../lib/./x/..");
    assert_eq!(r, "/app/lib");
    assert_eq!(resolve_path("/elsewhere", &r), r);
    assert_eq!(resolve_path("/", "/etc/../usr"), resolve_path("/deep/dir", "/etc/../usr"));
    assert_eq!(resolve_path("/", "../../.."), "/");
}

#[test]
fn final_stage_history_starts_at_its_from() {
    let ins = vec![
        Instruction::From { image: "a".to_string(), alias: None },
        Instruction::Env { key: "K".to_string(), value: "v".to_string() },
        Instruction::From { image: "b".to_string(), alias: None },
        Instruction::Workdir { path: "/w".to_string() },
        Instruction::Unknown { raw: "expose 80".to_string() },
    ];
    let hosts: Vec<HostSource> = ins.iter().map(|_| HostSource::Missing).collect();
    let out = run(ins, &hosts, "/ctx").expect("run");
    let lines: Vec<usize> = out.state.history.iter().map(|h| h.line).collect();
    assert_eq!(lines, vec![3, 4, 5]);
    let kinds: Vec<&str> = out.state.layers.iter().map(|l| l.instruction_type.as_str()).collect();
    assert_eq!(kinds, vec!["FROM", "WORKDIR", "EXPOSE"]);
    assert_eq!(out.stages.len(), 2);
}

#[test]
fn inserting_a_new_path_adds_one_entry_and_overwriting_adds_none() {
    let mut fs = VirtualFs::new();
    fs.insert("/a".to_string(), dir());
    assert_eq!(fs.iter().count(), 1);
    fs.insert("/a/".to_string(), dir());
    assert_eq!(fs.iter().count(), 1);
    fs.insert("/b".to_string(), dir());
    assert_eq!(fs.iter().count(), 2);
}
