//! `:layers`: what each instruction changed.

use vstd::prelude::*;
use crate::model::state::{lviews, LayerV, PreviewState};
use crate::output::sanitize::{sanitize_for_terminal, sanitized};
use crate::text::{append_chars, append_str, chars_of, decimal, decimal_exec, pad_left, pad_right, push_padded_left, push_padded_right, string_of};

verus! {

/// One layer row (`n` is the 1-based layer number, `w` the number width).
pub open spec fn layer_row(l: LayerV, n: nat, w: nat) -> Seq<char> {
    "Layer "@ + pad_left(decimal(n), w) + "  "@ + pad_right(sanitized(l.kind), 11) + "  "@
        + decimal(l.files.len()) + " file(s) changed, "@ + decimal(l.env.len()) + " env var(s) changed\n"@
}

/// The rows of `ls`, numbered from 1.
pub open spec fn layer_rows(ls: Seq<LayerV>, w: nat) -> Seq<char>
    decreases ls.len(),
{
    if ls.len() == 0 {
        seq![]
    } else {
        layer_rows(ls.drop_last(), w) + layer_row(ls.last(), ls.len(), w)
    }
}

/// What `:layers` prints: one numbered row per layer.
pub open spec fn layers_output(ls: Seq<LayerV>) -> Seq<char> {
    if ls.len() == 0 {
        "No layers recorded.\n"@
    } else {
        layer_rows(ls, decimal(ls.len()).len())
    }
}

/// Prints the layer summary.
pub fn execute(state: &PreviewState) -> (r: String)
    ensures
        r@ == layers_output(lviews(state.layers@)),
{
    let ghost ls = lviews(state.layers@);
    let mut v: Vec<char> = Vec::new();
    let n = state.layers.len();
    if n == 0 {
        append_str(&mut v, "No layers recorded.\n");
        return string_of(&v);
    }
    let width = decimal_exec(n).len();
    let mut i: usize = 0;
    while i < n
        invariant
            i <= n,
            n == state.layers@.len(),
            ls == lviews(state.layers@),
            width == decimal(n as nat).len(),
            v@ == layer_rows(ls.take(i as int), width as nat),
        decreases n - i,
    {
        let l = &state.layers[i];
        append_str(&mut v, "Layer ");
        let num = decimal_exec(i + 1);
        push_padded_left(&mut v, &num, width);
        append_str(&mut v, "  ");
        let kind = chars_of(sanitize_for_terminal(l.instruction_type.as_str()).as_str());
        push_padded_right(&mut v, &kind, 11);
        append_str(&mut v, "  ");
        let fc = decimal_exec(l.files_changed.len());
        append_chars(&mut v, &fc);
        append_str(&mut v, " file(s) changed, ");
        let ec = decimal_exec(l.env_changed.len());
        append_chars(&mut v, &ec);
        append_str(&mut v, " env var(s) changed\n");
        assert(ls.take(i + 1).drop_last() =~= ls.take(i as int));
        assert(ls.take(i + 1).last() == l@);
        assert(ls.take(i + 1).len() == i + 1);
        assert(v@ =~= layer_rows(ls.take(i + 1), width as nat));
        i = i + 1;
    }
    assert(ls.take(n as int) =~= ls);
    string_of(&v)
}

} // verus!
