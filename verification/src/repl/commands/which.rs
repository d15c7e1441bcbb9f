//! `which <cmd>`: where a simulated install put a command.

use vstd::prelude::*;
use crate::model::state::{which_dir, InstalledV, PreviewState};
use crate::output::sanitize::{sanitize_for_terminal, sanitized};
use crate::repl::error::ReplError;
use crate::text::{append_str, string_of};

verus! {

/// What `which cmd` answers given what was installed.
pub open spec fn which_outcome(installed: InstalledV, cmd: Seq<char>, r: Result<String, ReplError>) -> bool {
    &&& cmd.len() == 0 ==> (r matches Err(ReplError::InvalidArguments { command, message }) && command@
        == "which"@ && message@ == "missing command name"@)
    &&& cmd.len() > 0 ==> match r {
        Ok(s) => which_dir(installed, cmd) is Some && s@ == which_dir(installed, cmd)->0 + "/"@
            + sanitized(cmd) + "\n"@,
        Err(ReplError::PathNotFound { path }) => path@ == cmd && which_dir(installed, cmd) is None,
        Err(_) => false,
    }
}

/// Prints the simulated path of `cmd`: `/usr/bin` for apt and apk
/// packages, `/usr/local/bin` for pip, npm and go ones. A missing name is
/// an argument error; a command no manager installed is not found.
pub fn execute(state: &PreviewState, cmd: &str) -> (r: Result<String, ReplError>)
    ensures
        which_outcome(state.installed@, cmd@, r),
{
    if cmd.unicode_len() == 0 {
        return Err(ReplError::InvalidArguments { command: "which".to_string(), message: "missing command name".to_string() });
    }
    match state.installed.which_prefix(cmd) {
        None => Err(ReplError::PathNotFound { path: cmd.to_string() }),
        Some(prefix) => {
            let mut v: Vec<char> = Vec::new();
            append_str(&mut v, prefix);
            append_str(&mut v, "/");
            append_str(&mut v, sanitize_for_terminal(cmd).as_str());
            append_str(&mut v, "\n");
            Ok(string_of(&v))
        },
    }
}

} // verus!
