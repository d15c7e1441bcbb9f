//! `find [path] [-name pattern]`: paths at or below a directory.

use vstd::prelude::*;
use crate::engine::copy::file_name;
use crate::model::fs::{entries_view, es_has, NodeV};
use crate::model::sorted::{in_order, lemma_in_order, strictly_sorted};
use crate::model::state::{PreviewState, StringSet};
use crate::path::{is_under, resolve};
use crate::repl::error::ReplError;
use crate::repl::path::resolve_path;
use crate::text::{append_str, chars_of, concat_map, string_of, sviews};

verus! {

/// `name` matches the glob `pattern`: `*` matches any run of characters,
/// `?` exactly one character, anything else itself.
pub open spec fn glob(pattern: Seq<char>, name: Seq<char>) -> bool
    decreases pattern.len(), name.len(),
{
    if pattern.len() == 0 {
        name.len() == 0
    } else if pattern.last() == '*' {
        glob(pattern.drop_last(), name) || (name.len() > 0 && glob(pattern, name.drop_last()))
    } else {
        name.len() > 0 && (pattern.last() == '?' || pattern.last() == name.last()) && glob(
            pattern.drop_last(),
            name.drop_last(),
        )
    }
}

/// Whether `name` matches the glob `pattern`.
pub fn glob_match(pattern: &str, name: &str) -> (b: bool)
    ensures
        b == glob(pattern@, name@),
{
    let p = chars_of(pattern);
    let n = chars_of(name);
    let ghost ps = p@;
    let ghost ns = n@;
    let m = p.len();
    let k = n.len();
    // row i of the table: prev[j] == glob(ps.take(i), ns.take(j))
    let mut prev: Vec<bool> = Vec::new();
    prev.push(true);
    let mut j: usize = 0;
    while j < k
        invariant
            j <= k,
            k == ns.len(),
            prev@.len() == j + 1,
            forall|q: int| 0 <= q <= j ==> prev@[q] == glob(ps.take(0), #[trigger] ns.take(q)),
        decreases k - j,
    {
        assert(ps.take(0).len() == 0);
        prev.push(false);
        j = j + 1;
    }
    let mut i: usize = 0;
    while i < m
        invariant
            i <= m,
            m == ps.len(),
            k == ns.len(),
            ps == p@,
            ns == n@,
            prev@.len() == k + 1,
            forall|q: int| 0 <= q <= k ==> prev@[q] == glob(ps.take(i as int), #[trigger] ns.take(q)),
        decreases m - i,
    {
        let c = p[i];
        let ghost pi = ps.take(i as int + 1);
        assert(pi.drop_last() =~= ps.take(i as int));
        assert(pi.last() == c);
        let mut cur: Vec<bool> = Vec::new();
        let first = c == '*' && prev[0];
        assert(ns.take(0).len() == 0);
        cur.push(first);
        let mut j: usize = 0;
        while j < k
            invariant
                j <= k,
                k == ns.len(),
                ns == n@,
                prev@.len() == k + 1,
                pi == ps.take(i as int + 1),
                pi.drop_last() == ps.take(i as int),
                pi.last() == c,
                pi.len() > 0,
                forall|q: int| 0 <= q <= k ==> prev@[q] == glob(ps.take(i as int), #[trigger] ns.take(q)),
                cur@.len() == j + 1,
                forall|q: int| 0 <= q <= j ==> cur@[q] == glob(pi, #[trigger] ns.take(q)),
            decreases k - j,
        {
            let ghost nj = ns.take(j as int + 1);
            assert(nj.drop_last() =~= ns.take(j as int));
            assert(nj.last() == ns[j as int]);
            let v = if c == '*' {
                prev[j + 1] || cur[j]
            } else if c == '?' || c == n[j] {
                prev[j]
            } else {
                false
            };
            assert(v == glob(pi, nj));
            cur.push(v);
            j = j + 1;
        }
        prev = cur;
        i = i + 1;
    }
    assert(ps.take(m as int) =~= ps);
    assert(ns.take(k as int) =~= ns);
    prev[k]
}

/// `k` passes the optional `-name` pattern (matched against its last
/// segment; a path without one never matches).
pub open spec fn name_ok(k: Seq<char>, pattern: Option<Seq<char>>) -> bool {
    match pattern {
        None => true,
        Some(p) => match file_name(k) {
            Some(n) => glob(p, n),
            None => false,
        },
    }
}

/// The paths `find` reports: those at or below `base` that pass the pattern.
pub open spec fn find_matches(fs: Map<Seq<char>, NodeV>, base: Seq<char>, pattern: Option<Seq<char>>) -> Set<Seq<char>> {
    Set::new(|k: Seq<char>| fs.contains_key(k) && is_under(base, k) && name_ok(k, pattern))
}

/// One reported path.
pub open spec fn find_line() -> spec_fn(Seq<char>) -> Seq<char> {
    |m: Seq<char>| m + "\n"@
}

/// `base` can be searched: it is the root, it exists, or something lies
/// below it.
pub open spec fn find_base_exists(fs: Map<Seq<char>, NodeV>, base: Seq<char>) -> bool {
    base == seq!['/'] || fs.contains_key(base) || exists|k: Seq<char>| fs.contains_key(k) && is_under(base, k) && k != base
}

/// What `find path [-name pattern]` answers in a state with filesystem `fs`
/// and working directory `cwd`.
pub open spec fn find_outcome(
    fs: Map<Seq<char>, NodeV>,
    cwd: Seq<char>,
    path: Seq<char>,
    pattern: Option<Seq<char>>,
    r: Result<String, ReplError>,
) -> bool {
    let base = resolve(cwd, path);
    match r {
        Ok(s) => find_base_exists(fs, base) && s@ == concat_map(in_order(find_matches(fs, base, pattern)), find_line()),
        Err(ReplError::PathNotFound { path: q }) => q@ == base && !find_base_exists(fs, base),
        Err(_) => false,
    }
}

/// Lists, in increasing order, the paths at or below `path` (resolved
/// against the working directory) that pass the optional pattern.
pub fn execute(state: &PreviewState, path: &str, name_pattern: Option<&str>) -> (r: Result<String, ReplError>)
    ensures
        find_outcome(
            state.fs@,
            state.cwd@,
            path@,
            match name_pattern {
                Some(p) => Some(p@),
                None => None,
            },
            r,
        ),
{
    let base_s = resolve_path(state.cwd.as_str(), path);
    let base = chars_of(base_s.as_str());
    let ghost pat = match name_pattern {
        Some(p) => Some(p@),
        None => None,
    };
    let es = state.fs.entries();
    let ghost ev = state.fs.ev();
    proof {
        crate::model::fs::lemma_es_map(ev);
        crate::model::fs::lemma_es_map_keys(ev);
    }
    let mut exists = base.len() == 1 && base[0] == '/';
    assert(exists ==> base@ == seq!['/']) by {
        if exists {
            assert(base@ =~= seq!['/']);
        }
    }
    let mut found = StringSet::new();
    let mut i: usize = 0;
    while i < es.len()
        invariant
            i <= es@.len(),
            entries_view(es@) == ev,
            ev == state.fs.ev(),
            base@ == resolve(state.cwd@, path@),
            exists ==> find_base_exists(state.fs@, base@),
            pat == match name_pattern {
                Some(p) => Some(p@),
                None => None::<Seq<char>>,
            },
            !exists ==> base@ != seq!['/'] && forall|q: int| 0 <= q < i ==> !(ev[q].0 == base@ || is_under(base@, ev[q].0)),
            forall|x: Seq<char>| found@.contains(x) <==> exists|q: int| 0 <= q < i && ev[q].0 == x && is_under(base@, x) && name_ok(x, pat),
        decreases es.len() - i,
    {
        let key = &es[i].0;
        assert(ev[i as int].0 == key@);
        proof {
            crate::model::fs::lemma_es_map_keys(ev);
        }
        let under = crate::path::is_under_exec(&base, key);
        if crate::text::chars_eq(key, &base) || under {
            proof {
                assert(state.fs@.contains_key(key@));
            }
            exists = true;
        }
        let ok = match name_pattern {
            None => true,
            Some(p) => match crate::engine::copy::file_name_of(key) {
                Some(n) => {
                    let nstr = string_of(&n);
                    let b = glob_match(p, nstr.as_str());
                    assert(file_name(key@) == Some(n@));
                    assert(pat == Some(p@));
                    assert(b == name_ok(key@, pat));
                    b
                },
                None => false,
            },
        };
        assert(ok == name_ok(key@, pat));
        let ghost f0 = found@;
        if under && ok {
            found.insert(string_of(key));
        }
        proof {
            assert forall|x: Seq<char>| found@.contains(x) <==> exists|q: int| 0 <= q < i + 1 && ev[q].0 == x && is_under(base@, x) && name_ok(x, pat) by {
                if x == key@ {
                    assert(ev[i as int].0 == x);
                } else if exists|q: int| 0 <= q < i + 1 && ev[q].0 == x && is_under(base@, x) && name_ok(x, pat) {
                    let q = choose|q: int| 0 <= q < i + 1 && ev[q].0 == x && is_under(base@, x) && name_ok(x, pat);
                    assert(q != i);
                }
            }
        }
        i = i + 1;
    }
    if !exists {
        proof {
            assert forall|k: Seq<char>| !(state.fs@.contains_key(k) && is_under(base@, k) && k != base@) by {
                if state.fs@.contains_key(k) && is_under(base@, k) {
                    let q = choose|q: int| 0 <= q < ev.len() && ev[q].0 == k;
                }
            }
            if state.fs@.contains_key(base@) {
                let q = choose|q: int| 0 <= q < ev.len() && ev[q].0 == base@;
            }
        }
        return Err(ReplError::PathNotFound { path: base_s });
    }
    let list = found.to_vec();
    let ghost q = sviews(list@);
    proof {
        assert(strictly_sorted(q)) by {
            assert forall|a: int, b: int| 0 <= a < b < q.len() implies crate::model::sorted::lex_lt(q[a], q[b]) by {
                assert(q[a] == list@[a]@ && q[b] == list@[b]@);
            }
        }
        let ms = find_matches(state.fs@, base@, pat);
        assert forall|k: Seq<char>| ms.contains(k) <==> q.contains(k) by {
            if ms.contains(k) {
                let j = choose|j: int| 0 <= j < ev.len() && ev[j].0 == k;
                assert(found@.contains(k));
            }
            if q.contains(k) {
                assert(found@.contains(k));
                let j = choose|j: int| 0 <= j < es@.len() && ev[j].0 == k && is_under(base@, k) && name_ok(k, pat);
                assert(state.fs@.contains_key(k));
            }
        }
        lemma_in_order(ms, q);
    }
    let mut v: Vec<char> = Vec::new();
    let mut j: usize = 0;
    while j < list.len()
        invariant
            j <= list@.len(),
            q == sviews(list@),
            v@ == concat_map(q.take(j as int), find_line()),
        decreases list.len() - j,
    {
        append_str(&mut v, list[j].as_str());
        append_str(&mut v, "\n");
        assert(q.take(j + 1).drop_last() =~= q.take(j as int));
        assert(q.take(j + 1).last() == list@[j as int]@);
        assert(v@ =~= concat_map(q.take(j + 1), find_line()));
        j = j + 1;
    }
    assert(q.take(list@.len() as int) =~= q);
    Ok(string_of(&v))
}

} // verus!
