use demu::repl::parse::{parse_input, ParsedCommand};


// --- Empty input ---

#[test]
fn empty_string_returns_empty() {
    assert_eq!(parse_input(""), ParsedCommand::Empty);
}

#[test]
fn whitespace_only_returns_empty() {
    assert_eq!(parse_input("   "), ParsedCommand::Empty);
}

#[test]
fn tab_only_returns_empty() {
    assert_eq!(parse_input("\t"), ParsedCommand::Empty);
}

// --- ls ---

#[test]
fn ls_bare_returns_ls_with_no_path_no_long() {
    assert_eq!(
        parse_input("ls"),
        ParsedCommand::Ls {
            path: None,
            long: false
        }
    );
}

#[test]
fn ls_with_path_no_flags() {
    assert_eq!(
        parse_input("ls /app"),
        ParsedCommand::Ls {
            path: Some("/app".to_string()),
            long: false
        }
    );
}

#[test]
fn ls_l_flag_sets_long() {
    assert_eq!(
        parse_input("ls -l"),
        ParsedCommand::Ls {
            path: None,
            long: true
        }
    );
}

#[test]
fn ls_la_flag_sets_long() {
    assert_eq!(
        parse_input("ls -la /app"),
        ParsedCommand::Ls {
            path: Some("/app".to_string()),
            long: true
        }
    );
}

#[test]
fn ls_al_flag_sets_long() {
    assert_eq!(
        parse_input("ls -al /app"),
        ParsedCommand::Ls {
            path: Some("/app".to_string()),
            long: true
        }
    );
}

#[test]
fn ls_path_before_flag() {
    // ls /app -l — unusual ordering but should still work
    assert_eq!(
        parse_input("ls /app -l"),
        ParsedCommand::Ls {
            path: Some("/app".to_string()),
            long: true
        }
    );
}

// --- cd ---

#[test]
fn cd_with_path() {
    assert_eq!(
        parse_input("cd /app"),
        ParsedCommand::Cd {
            path: "/app".to_string()
        }
    );
}

#[test]
fn cd_no_args_defaults_to_root() {
    assert_eq!(
        parse_input("cd"),
        ParsedCommand::Cd {
            path: "/".to_string()
        }
    );
}

#[test]
fn cd_relative_path() {
    assert_eq!(
        parse_input("cd src"),
        ParsedCommand::Cd {
            path: "src".to_string()
        }
    );
}

#[test]
fn cd_dotdot() {
    assert_eq!(
        parse_input("cd .."),
        ParsedCommand::Cd {
            path: "..".to_string()
        }
    );
}

// --- pwd ---

#[test]
fn pwd_returns_pwd() {
    assert_eq!(parse_input("pwd"), ParsedCommand::Pwd);
}

#[test]
fn pwd_with_trailing_whitespace() {
    assert_eq!(parse_input("pwd  "), ParsedCommand::Pwd);
}

// --- cat ---

#[test]
fn cat_with_path() {
    assert_eq!(
        parse_input("cat /app/main.rs"),
        ParsedCommand::Cat {
            path: "/app/main.rs".to_string()
        }
    );
}

#[test]
fn cat_with_relative_path() {
    assert_eq!(
        parse_input("cat README.md"),
        ParsedCommand::Cat {
            path: "README.md".to_string()
        }
    );
}

#[test]
fn cat_no_args_returns_empty_path() {
    // cat with no args — handler will produce an error, parser just records empty path.
    assert_eq!(
        parse_input("cat"),
        ParsedCommand::Cat {
            path: String::new()
        }
    );
}

// --- find ---

#[test]
fn find_with_path_only() {
    assert_eq!(
        parse_input("find /"),
        ParsedCommand::Find {
            path: "/".to_string(),
            name_pattern: None
        }
    );
}

#[test]
fn find_with_name_flag() {
    assert_eq!(
        parse_input("find / -name *.rs"),
        ParsedCommand::Find {
            path: "/".to_string(),
            name_pattern: Some("*.rs".to_string())
        }
    );
}

#[test]
fn find_no_args_defaults_to_root() {
    assert_eq!(
        parse_input("find"),
        ParsedCommand::Find {
            path: "/".to_string(),
            name_pattern: None
        }
    );
}

#[test]
fn find_non_root_path_with_name() {
    assert_eq!(
        parse_input("find /app -name *.txt"),
        ParsedCommand::Find {
            path: "/app".to_string(),
            name_pattern: Some("*.txt".to_string())
        }
    );
}

// --- env ---

#[test]
fn env_returns_env() {
    assert_eq!(parse_input("env"), ParsedCommand::Env);
}

// --- exit / quit ---

#[test]
fn exit_returns_exit() {
    assert_eq!(parse_input("exit"), ParsedCommand::Exit);
}

#[test]
fn quit_returns_exit() {
    assert_eq!(parse_input("quit"), ParsedCommand::Exit);
}

// --- help ---

#[test]
fn help_returns_help() {
    assert_eq!(parse_input("help"), ParsedCommand::Help);
}

// --- Unknown ---

#[test]
fn unknown_command_returns_unknown_with_full_input() {
    assert_eq!(
        parse_input("frobnicate foo bar"),
        ParsedCommand::Unknown {
            input: "frobnicate foo bar".to_string()
        }
    );
}

#[test]
fn unknown_single_word_returns_unknown() {
    assert_eq!(
        parse_input("rm"),
        ParsedCommand::Unknown {
            input: "rm".to_string()
        }
    );
}

// --- Case sensitivity ---

#[test]
fn ls_uppercase_is_unknown() {
    // Commands are case-sensitive — LS is not ls.
    assert_eq!(
        parse_input("LS"),
        ParsedCommand::Unknown {
            input: "LS".to_string()
        }
    );
}

// --- :layers ---

#[test]
fn layers_bare_returns_layers() {
    assert_eq!(parse_input(":layers"), ParsedCommand::Layers);
}

#[test]
fn layers_with_trailing_whitespace_returns_layers() {
    assert_eq!(parse_input(":layers  "), ParsedCommand::Layers);
}

#[test]
fn layers_uppercase_is_unknown() {
    // Custom commands are case-sensitive — :LAYERS is not :layers.
    assert_eq!(
        parse_input(":LAYERS"),
        ParsedCommand::Unknown {
            input: ":LAYERS".to_string()
        }
    );
}

// --- :history ---

#[test]
fn history_bare_returns_history() {
    assert_eq!(parse_input(":history"), ParsedCommand::History);
}

#[test]
fn history_with_trailing_whitespace_returns_history() {
    assert_eq!(parse_input(":history  "), ParsedCommand::History);
}

#[test]
fn history_uppercase_is_unknown() {
    assert_eq!(
        parse_input(":HISTORY"),
        ParsedCommand::Unknown {
            input: ":HISTORY".to_string()
        }
    );
}


// --- :installed ---

#[test]
fn installed_bare_returns_installed() {
    assert_eq!(parse_input(":installed"), ParsedCommand::Installed);
}

#[test]
fn installed_with_trailing_whitespace() {
    assert_eq!(parse_input(":installed  "), ParsedCommand::Installed);
}

#[test]
fn installed_uppercase_is_unknown() {
    // Custom commands are case-sensitive.
    assert_eq!(
        parse_input(":INSTALLED"),
        ParsedCommand::Unknown {
            input: ":INSTALLED".to_string()
        }
    );
}

// --- apt ---

#[test]
fn apt_list_installed_returns_apt_list_installed_true() {
    assert_eq!(
        parse_input("apt list --installed"),
        ParsedCommand::AptList { installed: true }
    );
}

#[test]
fn apt_list_returns_apt_list_installed_false() {
    assert_eq!(
        parse_input("apt list"),
        ParsedCommand::AptList { installed: false }
    );
}

#[test]
fn apt_bare_returns_unknown() {
    assert_eq!(
        parse_input("apt"),
        ParsedCommand::Unknown {
            input: "apt".to_string()
        }
    );
}

#[test]
fn apt_install_returns_unknown() {
    assert_eq!(
        parse_input("apt install curl"),
        ParsedCommand::Unknown {
            input: "apt install curl".to_string()
        }
    );
}

#[test]
fn apt_update_returns_unknown() {
    assert_eq!(
        parse_input("apt update"),
        ParsedCommand::Unknown {
            input: "apt update".to_string()
        }
    );
}

#[test]
fn apt_uppercase_is_unknown() {
    // Commands are case-sensitive — APT is not apt.
    assert_eq!(
        parse_input("APT list --installed"),
        ParsedCommand::Unknown {
            input: "APT list --installed".to_string()
        }
    );
}

#[test]
fn apt_list_installed_with_extra_args_is_unknown() {
    // Extra tokens after --installed are not recognised; the parser rejects
    // to Unknown so the REPL surfaces an unsupported-command message.
    assert_eq!(
        parse_input("apt list --installed --verbose"),
        ParsedCommand::Unknown {
            input: "apt list --installed --verbose".to_string()
        }
    );
}

// --- pip ---

#[test]
fn pip_list_returns_pip_list() {
    assert_eq!(parse_input("pip list"), ParsedCommand::PipList);
}

#[test]
fn pip_bare_returns_unknown() {
    assert_eq!(
        parse_input("pip"),
        ParsedCommand::Unknown {
            input: "pip".to_string()
        }
    );
}

#[test]
fn pip_install_returns_unknown() {
    assert_eq!(
        parse_input("pip install requests"),
        ParsedCommand::Unknown {
            input: "pip install requests".to_string()
        }
    );
}

#[test]
fn pip_uppercase_is_unknown() {
    // Commands are case-sensitive — PIP is not pip.
    assert_eq!(
        parse_input("PIP list"),
        ParsedCommand::Unknown {
            input: "PIP list".to_string()
        }
    );
}

#[test]
fn pip_list_with_extra_flag_is_unknown() {
    // `pip list --outdated` is not a modeled command; extra flags after
    // `list` fall through to Unknown so the REPL surfaces the rejection.
    assert_eq!(
        parse_input("pip list --outdated"),
        ParsedCommand::Unknown {
            input: "pip list --outdated".to_string()
        }
    );
}

// --- which ---

#[test]
fn which_with_cmd_returns_which() {
    assert_eq!(
        parse_input("which curl"),
        ParsedCommand::Which {
            cmd: "curl".to_string()
        }
    );
}

#[test]
fn which_no_args_returns_which_empty_cmd() {
    assert_eq!(
        parse_input("which"),
        ParsedCommand::Which { cmd: String::new() }
    );
}

#[test]
fn which_uppercase_is_unknown() {
    // Commands are case-sensitive — WHICH is not which.
    assert_eq!(
        parse_input("WHICH curl"),
        ParsedCommand::Unknown {
            input: "WHICH curl".to_string()
        }
    );
}


// --- inspection commands with and without arguments ---

#[test]
fn explain_with_path() {
    assert_eq!(parse_input(":explain /app/main.rs"), ParsedCommand::Explain { path: "/app/main.rs".to_string() });
    assert_eq!(parse_input(":explain"), ParsedCommand::Explain { path: "".to_string() });
}

#[test]
fn compose_inspection_commands() {
    assert_eq!(parse_input(":services"), ParsedCommand::Services);
    assert_eq!(parse_input(":mounts"), ParsedCommand::Mounts);
    assert_eq!(parse_input(":depends"), ParsedCommand::Depends);
    assert_eq!(parse_input(":reload"), ParsedCommand::Reload);
}
