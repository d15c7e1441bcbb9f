//! `help`: the command reference.

use vstd::prelude::*;

verus! {

/// The command reference printed by `help`.
pub const HELP_TEXT: &'static str = "demu — Docker preview shell\n\nCOMMANDS\n  ls [-l] [path]           list directory contents\n  cd [path]                change working directory (default: /)\n  pwd                      print working directory\n  cat <path>               print file contents\n  find <path> [-name pat]  search filesystem for files\n  env                      print environment variables\n  apt list --installed     list simulated apt packages\n  pip list                 list simulated pip packages\n  which <cmd>              show simulated binary path for a command\n  help                     show this help message\n  exit                     leave the REPL\n\nCUSTOM COMMANDS (prefix with :)\n  :explain <path>          show where a file came from\n  :layers                  show layer-by-layer changes\n  :history                 show instruction history\n  :installed               show simulated package installs\n  :warnings                show simulation warnings\n  :reload                  re-read and re-process the Dockerfile\n\nNOTE: demu is a preview shell. Commands show simulated state, not real containers.\n";

/// Prints the command reference.
pub fn execute() -> (r: String)
    ensures
        r@ == HELP_TEXT@,
{
    HELP_TEXT.to_string()
}

} // verus!
