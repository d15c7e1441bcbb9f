//! `:services`: the services of the Compose file.

use vstd::prelude::*;
use crate::model::compose::Service;
use crate::model::sorted::{in_order, lemma_in_order, lemma_kv_map, strictly_sorted};
use crate::output::sanitize::{sanitize_for_terminal, sanitized};
use crate::repl::config::ComposeContext;
use crate::repl::custom::installed::sanitized_all;
use crate::repl::custom::mounts::{guard_message, push_guard};
use crate::text::{append_chars, append_str, chars_of, concat_map, decimal, decimal_exec, join, pad_right, push_padded_right, string_of, sviews};

verus! {

/// The length of `s` in UTF-8 bytes, as `str::len` reports it.
pub open spec fn byte_len(s: Seq<char>) -> nat {
    (vstd::utf8::encode_utf8(s).len() as usize) as nat
}

/// The widest key of `ks` in bytes, and at least 8.
pub open spec fn name_width(ks: Seq<Seq<char>>) -> nat
    decreases ks.len(),
{
    if ks.len() == 0 {
        8
    } else {
        let w = name_width(ks.drop_last());
        if byte_len(ks.last()) > w {
            byte_len(ks.last())
        } else {
            w
        }
    }
}

/// How a service is built: its Dockerfile, or its image.
pub open spec fn service_kind(s: Service) -> Seq<char> {
    match s.build {
        Some(b) => "build: "@ + sanitized(b.dockerfile@),
        None => match s.image {
            Some(i) => "image: "@ + sanitized(i@),
            None => "image: <unknown>"@,
        },
    }
}

/// The dependencies of a service, or nothing.
pub open spec fn depends_part(s: Service) -> Seq<char> {
    if s.depends_on@.len() == 0 {
        seq![]
    } else {
        "  depends: "@ + join(sanitized_all(sviews(s.depends_on@)), ", "@)
    }
}

/// One service row; the selected service is marked with `*`.
pub open spec fn service_row(m: Map<Seq<char>, Service>, selected: Seq<char>, w: nat) -> spec_fn(Seq<char>) -> Seq<char> {
    |k: Seq<char>| seq![if k == selected { '*' } else { ' ' }, ' '] + pad_right(sanitized(k), w) + "  "@
        + service_kind(m[k]) + depends_part(m[k]) + "\n"@
}

/// What `:services` prints in Compose mode: a count, then one row per
/// service in name order, names padded to the widest one.
pub open spec fn services_output(m: Map<Seq<char>, Service>, selected: Seq<char>) -> Seq<char> {
    "Services ("@ + decimal(in_order(m.dom()).len()) + " total):\n"@ + concat_map(
        in_order(m.dom()),
        service_row(m, selected, name_width(in_order(m.dom()))),
    )
}

fn service_row_exec(name: &String, svc: &Service, selected: &String, w: usize) -> (r: Vec<char>)
    ensures
        r@ == seq![if name@ == selected@ { '*' } else { ' ' }, ' '] + pad_right(sanitized(name@), w as nat) + "  "@
            + service_kind(*svc) + depends_part(*svc) + "\n"@,
{
    let mut v: Vec<char> = Vec::new();
    let same = crate::text::chars_eq(&chars_of(name.as_str()), &chars_of(selected.as_str()));
    v.push(if same { '*' } else { ' ' });
    v.push(' ');
    let safe = chars_of(sanitize_for_terminal(name.as_str()).as_str());
    push_padded_right(&mut v, &safe, w);
    append_str(&mut v, "  ");
    match &svc.build {
        Some(b) => {
            append_str(&mut v, "build: ");
            append_str(&mut v, sanitize_for_terminal(b.dockerfile.as_str()).as_str());
        },
        None => match &svc.image {
            Some(i) => {
                append_str(&mut v, "image: ");
                append_str(&mut v, sanitize_for_terminal(i.as_str()).as_str());
            },
            None => append_str(&mut v, "image: <unknown>"),
        },
    }
    if svc.depends_on.len() > 0 {
        append_str(&mut v, "  depends: ");
        let mut safe_deps: Vec<String> = Vec::new();
        let ghost q = sviews(svc.depends_on@);
        let mut i: usize = 0;
        while i < svc.depends_on.len()
            invariant
                i <= svc.depends_on@.len(),
                q == sviews(svc.depends_on@),
                sviews(safe_deps@) == sanitized_all(q.take(i as int)),
            decreases svc.depends_on.len() - i,
        {
            let ghost s0 = safe_deps@;
            let t = sanitize_for_terminal(svc.depends_on[i].as_str());
            safe_deps.push(t);
            proof {
                crate::text::lemma_sviews_push(s0, t);
                assert(sanitized_all(q.take(i + 1)) =~= sanitized_all(q.take(i as int)).push(sanitized(q[i as int])));
            }
            i = i + 1;
        }
        assert(q.take(svc.depends_on@.len() as int) =~= q);
        let joined = crate::model::warning::join_strings(&safe_deps, ", ");
        append_chars(&mut v, &joined);
    }
    append_str(&mut v, "\n");
    assert(v@ =~= seq![if name@ == selected@ { '*' } else { ' ' }, ' '] + pad_right(sanitized(name@), w as nat) + "  "@
        + service_kind(*svc) + depends_part(*svc) + "\n"@);
    v
}

/// Lists the Compose services (Compose mode only).
pub fn execute(ctx: Option<&ComposeContext>) -> (r: String)
    ensures
        ctx is None ==> r@ == guard_message(":services"@),
        match ctx {
            Some(c) => r@ == services_output(c.compose_file.services@, c.selected_service@),
            None => true,
        },
{
    let mut v: Vec<char> = Vec::new();
    let c = match ctx {
        Some(c) => c,
        None => {
            push_guard(&mut v, ":services");
            return string_of(&v);
        },
    };
    let es = c.compose_file.services.entries();
    let ghost m = c.compose_file.services@;
    let ghost q = Seq::new(es@.len(), |i: int| es@[i].0@);
    proof {
        lemma_kv_map(es@);
        assert(strictly_sorted(q));
        assert forall|k: Seq<char>| m.dom().contains(k) <==> q.contains(k) by {
            if q.contains(k) {
                let i = choose|i: int| 0 <= i < q.len() && q[i] == k;
                assert(es@[i].0@ == k);
            }
            if m.dom().contains(k) {
                let i = choose|i: int| 0 <= i < es@.len() && #[trigger] es@[i].0@ == k;
                assert(q[i] == k);
            }
        }
        lemma_in_order(m.dom(), q);
    }
    let mut w: usize = 8;
    let mut i: usize = 0;
    while i < es.len()
        invariant
            i <= es@.len(),
            q == Seq::new(es@.len(), |i: int| es@[i].0@),
            w == name_width(q.take(i as int)),
        decreases es.len() - i,
    {
        let bl = es[i].0.as_str().len();
        assert(bl == byte_len(es@[i as int].0@));
        assert(q.take(i + 1).drop_last() =~= q.take(i as int));
        assert(q.take(i + 1).last() == es@[i as int].0@);
        if bl > w {
            w = bl;
        }
        i = i + 1;
    }
    assert(q.take(es@.len() as int) =~= q);
    append_str(&mut v, "Services (");
    let d = decimal_exec(es.len());
    append_chars(&mut v, &d);
    append_str(&mut v, " total):\n");
    let ghost base = v@;
    let mut j: usize = 0;
    while j < es.len()
        invariant
            j <= es@.len(),
            q == Seq::new(es@.len(), |i: int| es@[i].0@),
            forall|k: int| 0 <= k < es@.len() ==> m[#[trigger] es@[k].0@] == es@[k].1,
            w == name_width(q),
            v@ == base + concat_map(q.take(j as int), service_row(m, c.selected_service@, w as nat)),
        decreases es.len() - j,
    {
        let row = service_row_exec(&es[j].0, &es[j].1, &c.selected_service, w);
        append_chars(&mut v, &row);
        assert(q.take(j + 1).drop_last() =~= q.take(j as int));
        assert(q.take(j + 1).last() == es@[j as int].0@);
        assert(m[es@[j as int].0@] == es@[j as int].1);
        assert(v@ =~= base + concat_map(q.take(j + 1), service_row(m, c.selected_service@, w as nat)));
        j = j + 1;
    }
    assert(q.take(es@.len() as int) =~= q);
    string_of(&v)
}

} // verus!
