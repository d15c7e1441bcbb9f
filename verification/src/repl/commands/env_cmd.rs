//! `env`: the environment variables, in key order.

use vstd::prelude::*;
use crate::model::sorted::{in_order, kv_map, lemma_in_order, lemma_kv_map, strictly_sorted};
use crate::model::state::PreviewState;
use crate::output::sanitize::{sanitize_for_terminal, sanitized};
use crate::text::{append_str, concat_map, string_of};

verus! {

/// One printed variable of `m`.
pub open spec fn env_line(m: Map<Seq<char>, String>) -> spec_fn(Seq<char>) -> Seq<char> {
    |k: Seq<char>| sanitized(k) + "="@ + sanitized(m[k]@) + "\n"@
}

/// What `env` prints: `KEY=value` lines in increasing key order, both
/// sides sanitized.
pub open spec fn env_output(m: Map<Seq<char>, String>) -> Seq<char> {
    concat_map(in_order(m.dom()), env_line(m))
}

/// Prints the environment.
pub fn execute(state: &PreviewState) -> (r: String)
    ensures
        r@ == env_output(state.env@),
{
    let es = state.env.entries();
    let ghost q = Seq::new(es@.len(), |i: int| es@[i].0@);
    proof {
        lemma_kv_map(es@);
        assert(strictly_sorted(q));
        assert forall|k: Seq<char>| state.env@.dom().contains(k) <==> q.contains(k) by {
            if q.contains(k) {
                let i = choose|i: int| 0 <= i < q.len() && q[i] == k;
                assert(es@[i].0@ == k);
            }
            if state.env@.dom().contains(k) {
                let i = choose|i: int| 0 <= i < es@.len() && #[trigger] es@[i].0@ == k;
                assert(q[i] == k);
            }
        }
        lemma_in_order(state.env@.dom(), q);
    }
    let mut v: Vec<char> = Vec::new();
    let mut i: usize = 0;
    while i < es.len()
        invariant
            i <= es@.len(),
            q == Seq::new(es@.len(), |i: int| es@[i].0@),
            forall|j: int| 0 <= j < es@.len() ==> state.env@[#[trigger] es@[j].0@] == es@[j].1,
            v@ == concat_map(q.take(i as int), env_line(state.env@)),
        decreases es.len() - i,
    {
        append_str(&mut v, sanitize_for_terminal(es[i].0.as_str()).as_str());
        append_str(&mut v, "=");
        append_str(&mut v, sanitize_for_terminal(es[i].1.as_str()).as_str());
        append_str(&mut v, "\n");
        assert(q.take(i + 1).drop_last() =~= q.take(i as int));
        assert(q.take(i + 1).last() == es@[i as int].0@);
        assert(state.env@[es@[i as int].0@] == es@[i as int].1);
        assert(v@ =~= concat_map(q.take(i + 1), env_line(state.env@)));
        i = i + 1;
    }
    assert(q.take(es@.len() as int) =~= q);
    string_of(&v)
}

} // verus!
