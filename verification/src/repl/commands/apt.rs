//! `apt list --installed`: the simulated apt packages, Debian style.

use vstd::prelude::*;
use crate::model::sorted::{in_order, lemma_in_order, strictly_sorted};
use crate::model::state::PreviewState;
use crate::output::sanitize::{sanitize_for_terminal, sanitized};
use crate::text::{append_str, concat_map, string_of, sviews};

verus! {

/// One listed package.
pub open spec fn apt_line() -> spec_fn(Seq<char>) -> Seq<char> {
    |p: Seq<char>| sanitized(p) + "/simulated [installed,simulated]\n"@
}

/// What `apt list` prints: a usage line without `--installed`; otherwise
/// the packages in increasing order, or a note that there are none.
pub open spec fn apt_output(installed: bool, pkgs: Set<Seq<char>>) -> Seq<char> {
    if !installed {
        "Usage: apt list --installed\n"@
    } else if in_order(pkgs).len() == 0 {
        "Listing...\n"@ + "(no packages recorded)\n"@
    } else {
        "Listing...\n"@ + concat_map(in_order(pkgs), apt_line())
    }
}

/// Lists the simulated apt packages.
pub fn execute(state: &PreviewState, installed: bool) -> (r: String)
    ensures
        r@ == apt_output(installed, state.installed.apt@),
{
    let mut v: Vec<char> = Vec::new();
    if !installed {
        append_str(&mut v, "Usage: apt list --installed\n");
        return string_of(&v);
    }
    append_str(&mut v, "Listing...\n");
    let packages = state.installed.list("apt");
    let ghost q = sviews(packages@);
    proof {
        assert(strictly_sorted(q)) by {
            assert forall|i: int, j: int| 0 <= i < j < q.len() implies crate::model::sorted::lex_lt(q[i], q[j]) by {
                assert(q[i] == packages@[i]@ && q[j] == packages@[j]@);
            }
        }
        reveal_strlit("apt");
        reveal_strlit("pip");
        assert("pip"@ != "apt"@) by {
            assert("pip"@[0] != "apt"@[0]);
        }
        assert(state.installed.set_of("apt"@) == Some(state.installed.apt@));
        assert forall|k: Seq<char>| state.installed.apt@.contains(k) <==> q.contains(k) by {}
        lemma_in_order(state.installed.apt@, q);
    }
    if packages.len() == 0 {
        append_str(&mut v, "(no packages recorded)\n");
    } else {
        let ghost base = v@;
        let mut i: usize = 0;
        while i < packages.len()
            invariant
                i <= packages@.len(),
                q == sviews(packages@),
                v@ == base + concat_map(q.take(i as int), apt_line()),
            decreases packages.len() - i,
        {
            let safe = sanitize_for_terminal(packages[i].as_str());
            append_str(&mut v, safe.as_str());
            append_str(&mut v, "/simulated [installed,simulated]\n");
            assert(q.take(i + 1).drop_last() =~= q.take(i as int));
            assert(q.take(i + 1).last() == packages@[i as int]@);
            assert(v@ =~= base + concat_map(q.take(i + 1), apt_line()));
            i = i + 1;
        }
        assert(q.take(packages@.len() as int) =~= q);
    }
    string_of(&v)
}

} // verus!
