//! `pwd`: the working directory.

use vstd::prelude::*;
use crate::model::state::PreviewState;
use crate::text::{append_str, string_of};

verus! {

/// Prints the working directory, then a newline.
pub fn execute(state: &PreviewState) -> (r: String)
    ensures
        r@ == state.cwd@.push('\n'),
{
    let mut v: Vec<char> = Vec::new();
    append_str(&mut v, state.cwd.as_str());
    v.push('\n');
    string_of(&v)
}

} // verus!
