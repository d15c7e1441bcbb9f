//! `:depends`: the dependency tree of the selected Compose service.

use vstd::prelude::*;
use crate::model::compose::Service;
use crate::model::sorted::SortedMap;
use crate::model::state::StringSet;
use crate::output::sanitize::{sanitize_for_terminal, sanitized};
use crate::repl::config::ComposeContext;
use crate::repl::custom::mounts::{guard_message, push_guard};
use crate::text::{append_str, string_of, sviews};

verus! {

/// Two spaces per level.
pub open spec fn indent(depth: nat) -> Seq<char> {
    Seq::new(2 * depth, |i: int| ' ')
}

/// Adding a member of `s` that `v` lacks shrinks what `s` has beyond `v`.
pub proof fn lemma_difference_shrinks(s: Set<Seq<char>>, v: Set<Seq<char>>, name: Seq<char>)
    requires
        s.finite(),
        s.contains(name),
        !v.contains(name),
    ensures
        s.difference(v.insert(name)).len() < s.difference(v).len(),
{
    vstd::set::axiom_set_difference_finite(s, v);
    assert(s.difference(v.insert(name)) =~= s.difference(v).remove(name));
    vstd::set::axiom_set_remove_len(s.difference(v), name);
}

/// The tree lines for the dependencies `names` at `depth`: each name is
/// printed once per path; a name already on the current path is marked as
/// a cycle; a known service's own dependencies follow one level deeper.
pub open spec fn dep_forest(
    m: Map<Seq<char>, Service>,
    names: Seq<Seq<char>>,
    visited: Set<Seq<char>>,
    depth: nat,
) -> Seq<char>
    decreases m.dom().difference(visited).len(), names.len(),
    when m.dom().finite()
{
    if names.len() == 0 {
        seq![]
    } else {
        let rest = dep_forest(m, names.drop_last(), visited, depth);
        let name = names.last();
        let line = indent(depth) + "└─ "@ + sanitized(name);
        if visited.contains(name) {
            rest + line + "  [cycle detected]\n"@
        } else if m.contains_key(name) {
            proof {
                lemma_difference_shrinks(m.dom(), visited, name);
            }
            rest + line + "\n"@ + dep_forest(m, sviews(m[name].depends_on@), visited.insert(name), depth + 1)
        } else {
            rest + line + "\n"@
        }
    }
}

/// What `:depends` prints in Compose mode: the selected service, then its
/// dependency tree.
pub open spec fn depends_output(m: Map<Seq<char>, Service>, root: Seq<char>) -> Seq<char> {
    sanitized(root) + "\n"@ + if m.contains_key(root) {
        dep_forest(m, sviews(m[root].depends_on@), set![root], 1)
    } else {
        seq![]
    }
}

fn push_indent(v: &mut Vec<char>, depth: usize)
    ensures
        final(v)@ == old(v)@ + indent(depth as nat),
{
    let mut k: usize = 0;
    while k < depth
        invariant
            k <= depth,
            v@ == old(v)@ + indent(k as nat),
        decreases depth - k,
    {
        v.push(' ');
        v.push(' ');
        assert(indent((k + 1) as nat) =~= indent(k as nat).push(' ').push(' '));
        assert(v@ =~= old(v)@ + indent((k + 1) as nat));
        k = k + 1;
    }
}

/// Appends the tree lines for `names` (see `dep_forest`).
pub fn print_dep_tree(
    services: &SortedMap<Service>,
    names: &Vec<String>,
    visited: &StringSet,
    depth: usize,
    out: &mut Vec<char>,
)
    requires
        services@.dom().finite(),
        depth + services@.dom().difference(visited@).len() <= usize::MAX,
    ensures
        final(out)@ == old(out)@ + dep_forest(services@, sviews(names@), visited@, depth as nat),
    decreases services@.dom().difference(visited@).len(),
{
    let ghost nv = sviews(names@);
    let mut i: usize = 0;
    while i < names.len()
        invariant
            i <= names@.len(),
            nv == sviews(names@),
            services@.dom().finite(),
            depth + services@.dom().difference(visited@).len() <= usize::MAX,
            out@ == old(out)@ + dep_forest(services@, nv.take(i as int), visited@, depth as nat),
        decreases names.len() - i,
    {
        let name = &names[i];
        let ghost before = out@;
        push_indent(out, depth);
        append_str(out, "└─ ");
        append_str(out, sanitize_for_terminal(name.as_str()).as_str());
        assert(nv.take(i + 1).drop_last() =~= nv.take(i as int));
        assert(nv.take(i + 1).last() == name@);
        if visited.contains(name.as_str()) {
            append_str(out, "  [cycle detected]\n");
            assert(out@ =~= old(out)@ + dep_forest(services@, nv.take(i + 1), visited@, depth as nat));
        } else {
            match services.get(name.as_str()) {
                Some(svc) => {
                    append_str(out, "\n");
                    let mut inner = visited.dup();
                    inner.insert(name.clone());
                    proof {
                        lemma_difference_shrinks(services@.dom(), visited@, name@);
                    }
                    let ghost mid = out@;
                    print_dep_tree(services, &svc.depends_on, &inner, depth + 1, out);
                    assert(out@ =~= old(out)@ + dep_forest(services@, nv.take(i + 1), visited@, depth as nat));
                },
                None => {
                    append_str(out, "\n");
                    assert(out@ =~= old(out)@ + dep_forest(services@, nv.take(i + 1), visited@, depth as nat));
                },
            }
        }
        i = i + 1;
    }
    assert(nv.take(names@.len() as int) =~= nv);
}

/// Prints the dependency tree of the selected service (Compose mode only).
pub fn execute(ctx: Option<&ComposeContext>) -> (r: String)
    ensures
        ctx is None ==> r@ == guard_message(":depends"@),
        match ctx {
            Some(c) => r@ == depends_output(c.compose_file.services@, c.selected_service@),
            None => true,
        },
{
    let mut v: Vec<char> = Vec::new();
    let c = match ctx {
        Some(c) => c,
        None => {
            push_guard(&mut v, ":depends");
            return string_of(&v);
        },
    };
    let root = &c.selected_service;
    append_str(&mut v, sanitize_for_terminal(root.as_str()).as_str());
    append_str(&mut v, "\n");
    let services = &c.compose_file.services;
    let es = services.entries();
    let n_services = es.len();
    proof {
        crate::model::sorted::lemma_kv_map(es@);
    }
    match services.get(root.as_str()) {
        Some(svc) => {
            let mut visited = StringSet::new();
            visited.insert(root.clone());
            proof {
                let d = services@.dom();
                assert(visited@ =~= set![root@]);
                vstd::set::axiom_set_difference_finite(d, visited@);
                assert(d.difference(visited@) =~= d.remove(root@));
                vstd::set::axiom_set_remove_len(d, root@);
                assert(d.len() == es@.len());
                assert(d.contains(root@));
                assert(es@.len() == n_services);
                assert(d.difference(visited@).len() == d.len() - 1);
            }
            print_dep_tree(services, &svc.depends_on, &visited, 1, &mut v);
        },
        None => {},
    }
    string_of(&v)
}

} // verus!
