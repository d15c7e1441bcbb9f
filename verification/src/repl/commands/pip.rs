//! `pip list`: the simulated pip packages, in pip's two-column layout.

use vstd::prelude::*;
use crate::model::sorted::{in_order, lemma_in_order, strictly_sorted};
use crate::model::state::PreviewState;
use crate::output::sanitize::{sanitize_for_terminal, sanitized};
use crate::text::{append_str, chars_of, concat_map, pad_right, push_padded_right, string_of, sviews};

verus! {

/// Width of the package-name column.
pub const PKG_COL_WIDTH: usize = 10;

/// One listed package.
pub open spec fn pip_line() -> spec_fn(Seq<char>) -> Seq<char> {
    |p: Seq<char>| pad_right(sanitized(p), PKG_COL_WIDTH as nat) + " (simulated)\n"@
}

/// What `pip list` prints: a header, then the packages in increasing order.
pub open spec fn pip_output(pkgs: Set<Seq<char>>) -> Seq<char> {
    "Package    Version\n"@ + "---------- -------\n"@ + concat_map(in_order(pkgs), pip_line())
}

/// Lists the simulated pip packages.
pub fn execute(state: &PreviewState) -> (r: String)
    ensures
        r@ == pip_output(state.installed.pip@),
{
    let mut v: Vec<char> = Vec::new();
    append_str(&mut v, "Package    Version\n");
    append_str(&mut v, "---------- -------\n");
    let packages = state.installed.list("pip");
    let ghost q = sviews(packages@);
    proof {
        assert(strictly_sorted(q)) by {
            assert forall|i: int, j: int| 0 <= i < j < q.len() implies crate::model::sorted::lex_lt(q[i], q[j]) by {
                assert(q[i] == packages@[i]@ && q[j] == packages@[j]@);
            }
        }
        reveal_strlit("apt");
        reveal_strlit("pip");
        assert("pip"@ != "apt"@) by {
            assert("pip"@[0] != "apt"@[0]);
        }
        assert(state.installed.set_of("pip"@) == Some(state.installed.pip@));
        assert forall|k: Seq<char>| state.installed.pip@.contains(k) <==> q.contains(k) by {}
        lemma_in_order(state.installed.pip@, q);
    }
    let ghost base = v@;
    let mut i: usize = 0;
    while i < packages.len()
        invariant
            i <= packages@.len(),
            q == sviews(packages@),
            v@ == base + concat_map(q.take(i as int), pip_line()),
        decreases packages.len() - i,
    {
        let safe = chars_of(sanitize_for_terminal(packages[i].as_str()).as_str());
        push_padded_right(&mut v, &safe, PKG_COL_WIDTH);
        append_str(&mut v, " (simulated)\n");
        assert(q.take(i + 1).drop_last() =~= q.take(i as int));
        assert(q.take(i + 1).last() == packages@[i as int]@);
        assert(v@ =~= base + concat_map(q.take(i + 1), pip_line()));
        i = i + 1;
    }
    assert(q.take(packages@.len() as int) =~= q);
    string_of(&v)
}

} // verus!
