//! The preview shell: command parsing, path resolution, the handlers that
//! answer each command from a `PreviewState`, and the dispatcher that routes
//! a parsed command to its handler.
//!
//! Handlers produce their output as text; the interactive loop that reads
//! lines and prints the text lives with the program.

pub mod commands;
pub mod config;
pub mod custom;
pub mod error;
pub mod parse;
pub mod path;
pub mod properties;

use vstd::prelude::*;
use crate::model::state::{hviews, lviews, mviews, opt_view, PreviewState};
use crate::repl::commands::apt::apt_output;
use crate::repl::commands::cat::cat_outcome;
use crate::repl::commands::cd::cd_outcome;
use crate::repl::commands::env_cmd::env_output;
use crate::repl::commands::find::find_outcome;
use crate::repl::commands::help::HELP_TEXT;
use crate::repl::commands::ls::ls_outcome;
use crate::repl::commands::pip::pip_output;
use crate::repl::commands::which::which_outcome;
use crate::repl::commands::{apt, cat, cd, env_cmd, find, help, ls, pip, pwd, which};
use crate::repl::config::ComposeContext;
use crate::repl::custom::depends::depends_output;
use crate::repl::custom::explain::explain_outcome;
use crate::repl::custom::history::history_output;
use crate::repl::custom::installed::installed_output;
use crate::repl::custom::layers::layers_output;
use crate::repl::custom::mounts::{guard_message, mounts_output};
use crate::repl::custom::services::services_output;
use crate::repl::custom::{depends, explain, history, installed, layers, mounts, services};
use crate::repl::error::ReplError;
use crate::repl::parse::ParsedCommand;

verus! {

/// The interactive shell; its loop is driven by the program, which calls
/// [`dispatch`] for each line.
pub struct Repl;

/// The text a dispatch result shows, with the continue flag dropped.
pub open spec fn shown(r: Result<(bool, String), ReplError>) -> Result<String, ReplError> {
    match r {
        Ok((_, s)) => Ok(s),
        Err(e) => Err(e),
    }
}

/// The text of a command that always succeeds.
pub open spec fn text_is(r: Result<(bool, String), ReplError>, t: Seq<char>) -> bool {
    r matches Ok((true, s)) && s@ == t
}

/// What a Compose-only command prints: its guard message outside Compose
/// mode, else `f` of the context.
pub open spec fn compose_text(
    ctx: Option<&ComposeContext>,
    name: Seq<char>,
    f: spec_fn(ComposeContext) -> Seq<char>,
) -> Seq<char> {
    match ctx {
        Some(c) => f(*c),
        None => guard_message(name),
    }
}

/// Runs `cmd` against `state` and returns whether the shell goes on
/// together with the text to print. Only `cd` changes the state; `exit`
/// stops the shell; unknown input is an error.  `:reload` is answered by
/// the program itself and is not dispatched.
pub fn dispatch(state: &mut PreviewState, cmd: ParsedCommand, compose_ctx: Option<&ComposeContext>) -> (r: Result<
    (bool, String),
    ReplError,
>)
    requires
        !(cmd is Reload),
    ensures
        !(cmd is Cd) ==> *final(state) == *old(state),
        r matches Ok((false, _)) ==> cmd is Exit,
        match cmd {
            ParsedCommand::Pwd => text_is(r, old(state).cwd@.push('\n')),
            ParsedCommand::Env => text_is(r, env_output(old(state).env@)),
            ParsedCommand::Help => text_is(r, HELP_TEXT@),
            ParsedCommand::Ls { path, long } => ls_outcome(old(state).fs@, old(state).cwd@, opt_view(path), long, shown(r)),
            ParsedCommand::Cat { path } => cat_outcome(old(state).fs@, old(state).cwd@, path@, shown(r)),
            ParsedCommand::Cd { path } => match r {
                Ok((c, s)) => c && s@.len() == 0 && cd_outcome(*old(state), *final(state), path@, Ok(())),
                Err(e) => cd_outcome(*old(state), *final(state), path@, Err(e)),
            },
            ParsedCommand::Find { path, name_pattern } => find_outcome(
                old(state).fs@,
                old(state).cwd@,
                path@,
                opt_view(name_pattern),
                shown(r),
            ),
            ParsedCommand::Layers => text_is(r, layers_output(lviews(old(state).layers@))),
            ParsedCommand::History => text_is(r, history_output(hviews(old(state).history@))),
            ParsedCommand::Installed => text_is(r, installed_output(old(state).installed@)),
            ParsedCommand::AptList { installed } => text_is(r, apt_output(installed, old(state).installed.apt@)),
            ParsedCommand::PipList => text_is(r, pip_output(old(state).installed.pip@)),
            ParsedCommand::Which { cmd } => which_outcome(old(state).installed@, cmd@, shown(r)),
            ParsedCommand::Explain { path } => explain_outcome(old(state).fs@, old(state).cwd@, path@, shown(r)),
            ParsedCommand::Services => text_is(
                r,
                compose_text(
                    compose_ctx,
                    ":services"@,
                    |c: ComposeContext| services_output(c.compose_file.services@, c.selected_service@),
                ),
            ),
            ParsedCommand::Mounts => text_is(
                r,
                match compose_ctx {
                    Some(_) => mounts_output(mviews(old(state).mounts@)),
                    None => guard_message(":mounts"@),
                },
            ),
            ParsedCommand::Depends => text_is(
                r,
                compose_text(
                    compose_ctx,
                    ":depends"@,
                    |c: ComposeContext| depends_output(c.compose_file.services@, c.selected_service@),
                ),
            ),
            ParsedCommand::Exit => r matches Ok((false, s)) && s@.len() == 0,
            ParsedCommand::Empty => text_is(r, seq![]),
            ParsedCommand::Unknown { input } => r matches Err(ReplError::UnknownCommand { input: i }) && i == input,
            ParsedCommand::Reload => false,
        },
{
    match cmd {
        ParsedCommand::Pwd => Ok((true, pwd::execute(state))),
        ParsedCommand::Env => Ok((true, env_cmd::execute(state))),
        ParsedCommand::Help => Ok((true, help::execute())),
        ParsedCommand::Ls { path, long } => {
            let p = match &path {
                Some(s) => Some(s.as_str()),
                None => None,
            };
            let out = ls::execute(state, p, long)?;
            Ok((true, out))
        },
        ParsedCommand::Cat { path } => {
            let out = cat::execute(state, path.as_str())?;
            Ok((true, out))
        },
        ParsedCommand::Cd { path } => {
            cd::execute(state, path.as_str())?;
            Ok((true, String::new()))
        },
        ParsedCommand::Find { path, name_pattern } => {
            let p = match &name_pattern {
                Some(s) => Some(s.as_str()),
                None => None,
            };
            let out = find::execute(state, path.as_str(), p)?;
            Ok((true, out))
        },
        ParsedCommand::Layers => Ok((true, layers::execute(state))),
        ParsedCommand::History => Ok((true, history::execute(state))),
        ParsedCommand::Installed => Ok((true, installed::execute(state))),
        ParsedCommand::AptList { installed } => Ok((true, apt::execute(state, installed))),
        ParsedCommand::PipList => Ok((true, pip::execute(state))),
        ParsedCommand::Which { cmd } => {
            let out = which::execute(state, cmd.as_str())?;
            Ok((true, out))
        },
        ParsedCommand::Explain { path } => {
            let out = explain::execute(state, path.as_str())?;
            Ok((true, out))
        },
        ParsedCommand::Services => Ok((true, services::execute(compose_ctx))),
        ParsedCommand::Mounts => Ok((true, mounts::execute(state, compose_ctx))),
        ParsedCommand::Depends => Ok((true, depends::execute(compose_ctx))),
        ParsedCommand::Exit => Ok((false, String::new())),
        ParsedCommand::Empty => Ok((true, String::new())),
        ParsedCommand::Unknown { input } => Err(ReplError::UnknownCommand { input }),
        ParsedCommand::Reload => Ok((true, String::new())),
    }
}

} // verus!
