//! `:history`: the instruction timeline.

use vstd::prelude::*;
use crate::model::state::{hviews, HistV, PreviewState};
use crate::text::{append_str, decimal, decimal_exec, pad_left, push_padded_left, string_of};

verus! {

/// The largest line number among `h` (0 when empty).
pub open spec fn max_line(h: Seq<HistV>) -> nat
    decreases h.len(),
{
    if h.len() == 0 {
        0
    } else {
        let m = max_line(h.drop_last());
        if h.last().line > m {
            h.last().line
        } else {
            m
        }
    }
}

/// One history row, its line number right-aligned to `w` characters.
pub open spec fn history_row(e: HistV, w: nat) -> Seq<char> {
    pad_left(decimal(e.line), w) + "  "@ + e.instruction + "  ->  "@ + e.effect + "\n"@
}

/// The rows of `h`, in order.
pub open spec fn history_rows(h: Seq<HistV>, w: nat) -> Seq<char>
    decreases h.len(),
{
    if h.len() == 0 {
        seq![]
    } else {
        history_rows(h.drop_last(), w) + history_row(h.last(), w)
    }
}

/// What `:history` prints: one row per instruction, line numbers aligned
/// to the widest one.
pub open spec fn history_output(h: Seq<HistV>) -> Seq<char> {
    if h.len() == 0 {
        "No history recorded.\n"@
    } else {
        history_rows(h, decimal(max_line(h)).len())
    }
}

/// Prints the instruction history.
pub fn execute(state: &PreviewState) -> (r: String)
    ensures
        r@ == history_output(hviews(state.history@)),
{
    let ghost h = hviews(state.history@);
    let mut v: Vec<char> = Vec::new();
    if state.history.len() == 0 {
        append_str(&mut v, "No history recorded.\n");
        return string_of(&v);
    }
    let mut max: usize = 0;
    let mut i: usize = 0;
    while i < state.history.len()
        invariant
            i <= state.history@.len(),
            h == hviews(state.history@),
            max == max_line(h.take(i as int)),
        decreases state.history.len() - i,
    {
        assert(h.take(i + 1).drop_last() =~= h.take(i as int));
        assert(h.take(i + 1).last() == state.history@[i as int]@);
        if state.history[i].line > max {
            max = state.history[i].line;
        }
        i = i + 1;
    }
    assert(h.take(state.history@.len() as int) =~= h);
    let width = decimal_exec(max).len();
    let mut j: usize = 0;
    while j < state.history.len()
        invariant
            j <= state.history@.len(),
            h == hviews(state.history@),
            width == decimal(max_line(h)).len(),
            v@ == history_rows(h.take(j as int), width as nat),
        decreases state.history.len() - j,
    {
        let e = &state.history[j];
        let d = decimal_exec(e.line);
        push_padded_left(&mut v, &d, width);
        append_str(&mut v, "  ");
        append_str(&mut v, e.instruction.as_str());
        append_str(&mut v, "  ->  ");
        append_str(&mut v, e.effect.as_str());
        append_str(&mut v, "\n");
        assert(h.take(j + 1).drop_last() =~= h.take(j as int));
        assert(h.take(j + 1).last() == e@);
        assert(v@ =~= history_rows(h.take(j + 1), width as nat));
        j = j + 1;
    }
    assert(h.take(state.history@.len() as int) =~= h);
    string_of(&v)
}

} // verus!
