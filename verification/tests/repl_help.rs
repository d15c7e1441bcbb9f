use demu::model::fs::{DirNode, FileNode, FsNode, SymlinkNode, VirtualFs};
use demu::model::provenance::{Provenance, ProvenanceSource};
use demu::model::state::PreviewState;
use demu::repl::error::ReplError;
use demu::repl::commands::help::execute;


fn run() -> String {
    execute()
}

// --- All commands appear ---

#[test]
fn help_contains_ls() {
    assert!(run().contains("ls"), "output must mention 'ls'");
}

#[test]
fn help_contains_cd() {
    assert!(run().contains("cd"), "output must mention 'cd'");
}

#[test]
fn help_contains_pwd() {
    assert!(run().contains("pwd"), "output must mention 'pwd'");
}

#[test]
fn help_contains_cat() {
    assert!(run().contains("cat"), "output must mention 'cat'");
}

#[test]
fn help_contains_find() {
    assert!(run().contains("find"), "output must mention 'find'");
}

#[test]
fn help_contains_env() {
    assert!(run().contains("env"), "output must mention 'env'");
}

#[test]
fn help_contains_exit() {
    assert!(run().contains("exit"), "output must mention 'exit'");
}

#[test]
fn help_contains_help() {
    assert!(run().contains("help"), "output must mention 'help'");
}

// --- Output is non-trivial ---

#[test]
fn help_output_is_non_empty() {
    assert!(!run().is_empty(), "help output must not be empty");
}

// --- New commands from issue #23 ---

#[test]
fn help_contains_apt_list_installed() {
    assert!(
        run().contains("apt list --installed"),
        "output must mention 'apt list --installed'"
    );
}

#[test]
fn help_contains_pip_list() {
    assert!(run().contains("pip list"), "output must mention 'pip list'");
}

#[test]
fn help_contains_reload() {
    assert!(
        run().contains(":reload"),
        "output must mention ':reload' in the custom commands section"
    );
}

