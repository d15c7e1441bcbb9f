//! `:installed`: the simulated packages of every manager.

use vstd::prelude::*;
use crate::model::sorted::{in_order, lemma_in_order, strictly_sorted};
use crate::model::state::{InstalledV, PreviewState};
use crate::output::sanitize::{sanitize_for_terminal, sanitized};
use crate::text::{append_str, join, string_of, sviews};

verus! {

/// The sanitized forms of `ps`.
pub open spec fn sanitized_all(ps: Seq<Seq<char>>) -> Seq<Seq<char>> {
    Seq::new(ps.len(), |i: int| sanitized(ps[i]))
}

/// The line for one manager: its packages in increasing order, or nothing
/// when it has none.
pub open spec fn manager_line(name: Seq<char>, pkgs: Set<Seq<char>>) -> Seq<char> {
    if in_order(pkgs).len() == 0 {
        seq![]
    } else {
        name + ": "@ + join(sanitized_all(in_order(pkgs)), ", "@) + "\n"@
    }
}

/// What `:installed` prints: a line per manager with packages, in the order
/// apt, pip, npm, apk, go; or a note that there are none.
pub open spec fn installed_output(r: InstalledV) -> Seq<char> {
    let body = manager_line("apt"@, r.apt) + manager_line("pip"@, r.pip) + manager_line("npm"@, r.npm)
        + manager_line("apk"@, r.apk) + manager_line("go"@, r.go_pkgs);
    if body.len() == 0 {
        "No packages recorded.\n"@
    } else {
        body
    }
}

fn manager_line_exec(state: &PreviewState, manager: &str) -> (r: Vec<char>)
    requires
        state.installed.set_of(manager@) is Some,
    ensures
        r@ == manager_line(manager@, state.installed.set_of(manager@)->0),
{
    let packages = state.installed.list(manager);
    let ghost s = state.installed.set_of(manager@)->0;
    let ghost q = sviews(packages@);
    proof {
        assert(strictly_sorted(q)) by {
            assert forall|i: int, j: int| 0 <= i < j < q.len() implies crate::model::sorted::lex_lt(q[i], q[j]) by {
                assert(q[i] == packages@[i]@ && q[j] == packages@[j]@);
            }
        }
        assert forall|k: Seq<char>| s.contains(k) <==> q.contains(k) by {}
        lemma_in_order(s, q);
    }
    let mut v: Vec<char> = Vec::new();
    if packages.len() == 0 {
        return v;
    }
    let mut safe: Vec<String> = Vec::new();
    let mut i: usize = 0;
    while i < packages.len()
        invariant
            i <= packages@.len(),
            q == sviews(packages@),
            sviews(safe@) == sanitized_all(q.take(i as int)),
        decreases packages.len() - i,
    {
        let ghost s0 = safe@;
        let t = sanitize_for_terminal(packages[i].as_str());
        safe.push(t);
        proof {
            crate::text::lemma_sviews_push(s0, t);
            assert(sanitized_all(q.take(i + 1)) =~= sanitized_all(q.take(i as int)).push(sanitized(q[i as int])));
        }
        i = i + 1;
    }
    assert(q.take(packages@.len() as int) =~= q);
    append_str(&mut v, manager);
    append_str(&mut v, ": ");
    let joined = crate::model::warning::join_strings(&safe, ", ");
    crate::text::append_chars(&mut v, &joined);
    append_str(&mut v, "\n");
    v
}

/// Prints the simulated packages, grouped by manager.
pub fn execute(state: &PreviewState) -> (r: String)
    ensures
        r@ == installed_output(state.installed@),
{
    proof {
        reveal_strlit("apt");
        reveal_strlit("pip");
        reveal_strlit("npm");
        reveal_strlit("apk");
        reveal_strlit("go");
        assert("pip"@ != "apt"@) by { assert("pip"@[0] != "apt"@[0]); }
        assert("npm"@ != "apt"@) by { assert("npm"@[0] != "apt"@[0]); }
        assert("npm"@ != "pip"@) by { assert("npm"@[0] != "pip"@[0]); }
        assert("go"@ != "apt"@) by { assert("go"@[0] != "apt"@[0]); }
        assert("go"@ != "pip"@) by { assert("go"@[0] != "pip"@[0]); }
        assert("go"@ != "npm"@) by { assert("go"@[0] != "npm"@[0]); }
        assert("apk"@ != "apt"@) by { assert("apk"@[2] != "apt"@[2]); }
        assert("apk"@ != "pip"@) by { assert("apk"@[0] != "pip"@[0]); }
        assert("apk"@ != "npm"@) by { assert("apk"@[0] != "npm"@[0]); }
        assert("apk"@ != "go"@) by { assert("apk"@.len() != "go"@.len()); }
    }
    let mut v: Vec<char> = Vec::new();
    let a = manager_line_exec(state, "apt");
    crate::text::append_chars(&mut v, &a);
    let p = manager_line_exec(state, "pip");
    crate::text::append_chars(&mut v, &p);
    let n = manager_line_exec(state, "npm");
    crate::text::append_chars(&mut v, &n);
    let k = manager_line_exec(state, "apk");
    crate::text::append_chars(&mut v, &k);
    let g = manager_line_exec(state, "go");
    crate::text::append_chars(&mut v, &g);
    if v.len() == 0 {
        append_str(&mut v, "No packages recorded.\n");
    }
    string_of(&v)
}

} // verus!
