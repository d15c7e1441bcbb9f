//! Path resolution for shell commands: pure path arithmetic, no host
//! filesystem access.

use vstd::prelude::*;
use crate::path::resolve;
use crate::text::{chars_of, string_of};

verus! {

/// Resolves `input` against `cwd`: an input starting with `/` is taken as
/// it is, anything else is joined to `cwd`; then `.` is dropped and `..`
/// pops a segment, never above `/`. The result is always absolute.
pub fn resolve_path(cwd: &str, input: &str) -> (r: String)
    ensures
        r@ == resolve(cwd@, input@),
{
    let c = chars_of(cwd);
    let i = chars_of(input);
    let r = crate::path::resolve_exec(&c, &i);
    string_of(&r)
}

} // verus!
