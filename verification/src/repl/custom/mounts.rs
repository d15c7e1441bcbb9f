//! `:mounts`: the volume mount shadows of a Compose service.

use vstd::prelude::*;
use crate::model::provenance::MountV;
use crate::model::state::{mviews, PreviewState};
use crate::output::sanitize::{sanitize_for_terminal, sanitized};
use crate::repl::config::ComposeContext;
use crate::text::{append_chars, append_str, decimal, decimal_exec, string_of};

verus! {

/// What the Compose-only commands print outside Compose mode.
pub open spec fn guard_message(command: Seq<char>) -> Seq<char> {
    command + " is only available in compose mode\n"@ + "  Usage: demu --compose -f compose.yaml --service <name>\n"@
}

/// Appends the Compose-mode guard message for `command`.
pub fn push_guard(v: &mut Vec<char>, command: &str)
    ensures
        final(v)@ == old(v)@ + guard_message(command@),
{
    append_str(v, command);
    append_str(v, " is only available in compose mode\n");
    append_str(v, "  Usage: demu --compose -f compose.yaml --service <name>\n");
}

/// One mount row.
pub open spec fn mount_row(m: MountV) -> Seq<char> {
    "  "@ + sanitized(m.container_path) + "  "@ + sanitized(m.description) + "  ["@ + (if m.read_only {
        "ro"@
    } else {
        "rw"@
    }) + "]\n"@
}

/// The rows of `ms`, in order.
pub open spec fn mount_rows(ms: Seq<MountV>) -> Seq<char>
    decreases ms.len(),
{
    if ms.len() == 0 {
        seq![]
    } else {
        mount_rows(ms.drop_last()) + mount_row(ms.last())
    }
}

/// What `:mounts` prints in Compose mode.
pub open spec fn mounts_output(ms: Seq<MountV>) -> Seq<char> {
    if ms.len() == 0 {
        "No mount shadows recorded.\n"@
    } else {
        "Mount shadows ("@ + decimal(ms.len()) + " total):\n"@ + mount_rows(ms)
    }
}

/// Prints the mount shadows (Compose mode only).
pub fn execute(state: &PreviewState, compose_ctx: Option<&ComposeContext>) -> (r: String)
    ensures
        compose_ctx is None ==> r@ == guard_message(":mounts"@),
        compose_ctx is Some ==> r@ == mounts_output(mviews(state.mounts@)),
{
    let mut v: Vec<char> = Vec::new();
    if compose_ctx.is_none() {
        push_guard(&mut v, ":mounts");
        return string_of(&v);
    }
    let ghost ms = mviews(state.mounts@);
    let n = state.mounts.len();
    if n == 0 {
        append_str(&mut v, "No mount shadows recorded.\n");
        return string_of(&v);
    }
    append_str(&mut v, "Mount shadows (");
    let d = decimal_exec(n);
    append_chars(&mut v, &d);
    append_str(&mut v, " total):\n");
    let ghost base = v@;
    let mut i: usize = 0;
    while i < n
        invariant
            i <= n,
            n == state.mounts@.len(),
            ms == mviews(state.mounts@),
            v@ == base + mount_rows(ms.take(i as int)),
        decreases n - i,
    {
        let m = &state.mounts[i];
        append_str(&mut v, "  ");
        append_str(&mut v, sanitize_for_terminal(m.container_path.as_str()).as_str());
        append_str(&mut v, "  ");
        append_str(&mut v, sanitize_for_terminal(m.description.as_str()).as_str());
        if m.read_only {
            append_str(&mut v, "  [ro]\n");
        } else {
            append_str(&mut v, "  [rw]\n");
        }
        proof {
            reveal_strlit("  [ro]\n");
            reveal_strlit("  [rw]\n");
            reveal_strlit("  [");
            reveal_strlit("]\n");
            reveal_strlit("ro");
            reveal_strlit("rw");
        }
        assert(ms.take(i + 1).drop_last() =~= ms.take(i as int));
        assert(ms.take(i + 1).last() == m@);
        assert(v@ =~= base + mount_rows(ms.take(i + 1)));
        i = i + 1;
    }
    assert(ms.take(n as int) =~= ms);
    string_of(&v)
}

} // verus!
