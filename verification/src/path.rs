//! Pure path arithmetic over `/`-separated character sequences.
//!
//! A path is viewed as its list of segments: the pieces between `/`
//! separators, with empty pieces and `.` dropped (as `Path::components`
//! does for absolute paths). `..` is kept by `join_path` and resolved by
//! `resolve`.

use vstd::prelude::*;
use crate::text::{
    append_chars, chars_eq, copy_chars, join, lemma_vviews_drop_last, lemma_vviews_push, scan, tokens,
    vviews,
};

verus! {

pub open spec fn slash_sep() -> spec_fn(char) -> bool {
    |c: char| c == '/'
}

pub open spec fn seg_keep() -> spec_fn(Seq<char>) -> bool {
    |w: Seq<char>| w.len() > 0 && w != seq!['.']
}

/// The segments of `p`.
pub open spec fn segs(p: Seq<char>) -> Seq<Seq<char>> {
    tokens(p, slash_sep(), seg_keep())
}

/// `p` starts at the root.
pub open spec fn is_abs(p: Seq<char>) -> bool {
    p.len() > 0 && p[0] == '/'
}

/// The absolute path made of `ss`: `/` followed by the segments joined by `/`.
pub open spec fn abs_path(ss: Seq<Seq<char>>) -> Seq<char> {
    seq!['/'] + join(ss, seq!['/'])
}

pub open spec fn dotdot() -> Seq<char> {
    seq!['.', '.']
}

/// Resolves `..` segments: each pops the previous segment, never above root.
pub open spec fn norm(ss: Seq<Seq<char>>) -> Seq<Seq<char>>
    decreases ss.len(),
{
    if ss.len() == 0 {
        seq![]
    } else {
        let st = norm(ss.drop_last());
        if ss.last() == dotdot() {
            if st.len() > 0 {
                st.drop_last()
            } else {
                st
            }
        } else {
            st.push(ss.last())
        }
    }
}

/// The segments of `p` taken relative to `cwd` when `p` is relative.
pub open spec fn joined_segs(cwd: Seq<char>, p: Seq<char>) -> Seq<Seq<char>> {
    if is_abs(p) {
        segs(p)
    } else {
        segs(cwd) + segs(p)
    }
}

/// `p` joined onto `cwd` (when relative), without resolving `..`.
pub open spec fn join_path(cwd: Seq<char>, p: Seq<char>) -> Seq<char> {
    abs_path(joined_segs(cwd, p))
}

/// `p` joined onto `cwd` (when relative), with `.` and `..` resolved.
pub open spec fn resolve(cwd: Seq<char>, p: Seq<char>) -> Seq<char> {
    abs_path(norm(joined_segs(cwd, p)))
}

/// `c` is a direct child of `parent`: same rootedness, one more segment, and
/// `parent`'s segments are a prefix of `c`'s.
pub open spec fn is_direct_child(parent: Seq<char>, c: Seq<char>) -> bool {
    &&& is_abs(parent) == is_abs(c)
    &&& segs(c).len() == segs(parent).len() + 1
    &&& segs(parent).is_prefix_of(segs(c))
}

/// `c` is `root` or lies below it.
pub open spec fn is_under(root: Seq<char>, c: Seq<char>) -> bool {
    &&& is_abs(root) == is_abs(c)
    &&& segs(root).is_prefix_of(segs(c))
}

/// Every segment is non-empty, not `.`, and holds no `/`.
pub open spec fn wf_segs(ss: Seq<Seq<char>>) -> bool {
    forall|i: int|
        0 <= i < ss.len() ==> (#[trigger] ss[i]).len() > 0 && ss[i] != seq!['.'] && !ss[i].contains(
            '/',
        )
}

/// The canonical spelling of `p`: its segments joined by single `/`,
/// rooted when `p` is.
pub open spec fn canon(p: Seq<char>) -> Seq<char> {
    if is_abs(p) {
        abs_path(segs(p))
    } else {
        join(segs(p), seq!['/'])
    }
}

// ───────────────────────── lemmas ─────────────────────────

proof fn lemma_scan_append_plain(b: Seq<char>, x: Seq<char>)
    requires
        !x.contains('/'),
    ensures
        scan(b + x, slash_sep(), seg_keep()) == (
            scan(b, slash_sep(), seg_keep()).0,
            scan(b, slash_sep(), seg_keep()).1 + x,
        ),
    decreases x.len(),
{
    if x.len() == 0 {
        assert(b + x =~= b);
        assert(scan(b, slash_sep(), seg_keep()).1 + x =~= scan(b, slash_sep(), seg_keep()).1);
    } else {
        let y = x.drop_last();
        assert(!y.contains('/')) by {
            if y.contains('/') {
                let k = choose|k: int| 0 <= k < y.len() && y[k] == '/';
                assert(x[k] == '/');
            }
        }
        lemma_scan_append_plain(b, y);
        assert((b + x).drop_last() =~= b + y);
        assert((b + x).last() == x.last());
        assert(x.last() != '/') by {
            assert(x[x.len() - 1] == x.last());
        }
        assert(scan(b, slash_sep(), seg_keep()).1 + x =~= (scan(b, slash_sep(), seg_keep()).1
            + y).push(x.last()));
    }
}

proof fn lemma_scan_after_slash(a: Seq<char>, b: Seq<char>)
    ensures
        scan(a + seq!['/'] + b, slash_sep(), seg_keep()) == (
            segs(a) + scan(b, slash_sep(), seg_keep()).0,
            scan(b, slash_sep(), seg_keep()).1,
        ),
    decreases b.len(),
{
    let a1 = a + seq!['/'];
    if b.len() == 0 {
        assert(a1 + b =~= a1);
        assert(a1.drop_last() =~= a);
        assert(a1.last() == '/');
        assert(segs(a) + Seq::<Seq<char>>::empty() =~= segs(a));
    } else {
        lemma_scan_after_slash(a, b.drop_last());
        assert((a1 + b).drop_last() =~= a1 + b.drop_last());
        assert((a1 + b).last() == b.last());
        let (d, c) = scan(b.drop_last(), slash_sep(), seg_keep());
        assert((segs(a) + d).push(c) =~= segs(a) + d.push(c));
    }
}

/// Splitting `a/b` gives the segments of `a`, then those of `b`.
pub proof fn lemma_segs_slash(a: Seq<char>, b: Seq<char>)
    ensures
        segs(a + seq!['/'] + b) == segs(a) + segs(b),
{
    lemma_scan_after_slash(a, b);
    let (d, c) = scan(b, slash_sep(), seg_keep());
    assert((segs(a) + d).push(c) =~= segs(a) + d.push(c));
}

/// Splitting a path built from well-formed segments gives those segments back.
pub proof fn lemma_segs_abs_path(ss: Seq<Seq<char>>)
    requires
        wf_segs(ss),
    ensures
        segs(abs_path(ss)) == ss,
    decreases ss.len(),
{
    let root = seq!['/'];
    lemma_scan_root();
    if ss.len() == 0 {
        assert(abs_path(ss) =~= root);
    } else {
        let t = ss.drop_last();
        let x = ss.last();
        assert(wf_segs(t)) by {
            assert forall|i: int| 0 <= i < t.len() implies (#[trigger] t[i]).len() > 0 && t[i]
                != seq!['.'] && !t[i].contains('/') by {
                assert(t[i] == ss[i]);
            }
        }
        assert(x == ss[ss.len() - 1]);
        if t.len() == 0 {
            assert(ss =~= seq![x]);
            assert(abs_path(ss) =~= root + x);
            lemma_scan_append_plain(root, x);
            assert(Seq::<char>::empty() + x =~= x);
        } else {
            lemma_segs_abs_path(t);
            let a = abs_path(t);
            assert(abs_path(ss) =~= a.push('/') + x);
            assert(a.push('/').drop_last() =~= a);
            lemma_scan_append_plain(a.push('/'), x);
            assert(Seq::<char>::empty() + x =~= x);
        }
    }
}

/// Canonicalizing twice changes nothing.
pub proof fn lemma_canon_idempotent(p: Seq<char>)
    ensures
        canon(canon(p)) == canon(p),
{
    lemma_segs_wf(p);
    if is_abs(p) {
        lemma_canon_abs_path(segs(p));
    } else {
        lemma_segs_join(segs(p));
        let j = join(segs(p), seq!['/']);
        if is_abs(j) {
            // a relative path's first segment is non-empty and holds no `/`
            lemma_join_first(segs(p));
        }
    }
}

/// Joining well-formed segments and splitting again gives them back.
pub proof fn lemma_segs_join(ss: Seq<Seq<char>>)
    requires
        wf_segs(ss),
    ensures
        segs(join(ss, seq!['/'])) == ss,
{
    lemma_segs_abs_path(ss);
    let j = join(ss, seq!['/']);
    let a = seq!['/'] + j;
    // splitting "/" + j and j give the same tokens: the leading separator
    // only closes an empty piece
    lemma_scan_prefix_slash(j);
}

proof fn lemma_scan_prefix_slash(j: Seq<char>)
    ensures
        tokens(seq!['/'] + j, slash_sep(), seg_keep()) == tokens(j, slash_sep(), seg_keep()),
    decreases j.len(),
{
    lemma_scan_prefix_slash_gen(j);
}

proof fn lemma_scan_root()
    ensures
        scan(seq!['/'], slash_sep(), seg_keep()) == (Seq::<Seq<char>>::empty(), Seq::<char>::empty()),
{
    let root = seq!['/'];
    assert(root.drop_last() =~= Seq::<char>::empty());
    assert(scan(Seq::<char>::empty(), slash_sep(), seg_keep()) == (
        Seq::<Seq<char>>::empty(),
        Seq::<char>::empty(),
    ));
    assert(!seg_keep()(Seq::<char>::empty()));
    assert(root.last() == '/');
}

proof fn lemma_scan_prefix_slash_gen(j: Seq<char>)
    ensures
        scan(seq!['/'] + j, slash_sep(), seg_keep()) == scan(j, slash_sep(), seg_keep()),
    decreases j.len(),
{
    if j.len() == 0 {
        let a = seq!['/'];
        assert(a + j =~= a);
        lemma_scan_root();
    } else {
        lemma_scan_prefix_slash_gen(j.drop_last());
        assert((seq!['/'] + j).drop_last() =~= seq!['/'] + j.drop_last());
        assert((seq!['/'] + j).last() == j.last());
    }
}

proof fn lemma_join_first(ss: Seq<Seq<char>>)
    requires
        wf_segs(ss),
    ensures
        !is_abs(join(ss, seq!['/'])),
    decreases ss.len(),
{
    if ss.len() > 1 {
        let t = ss.drop_last();
        assert(wf_segs(t)) by {
            assert forall|i: int| 0 <= i < t.len() implies (#[trigger] t[i]).len() > 0 && t[i]
                != seq!['.'] && !t[i].contains('/') by {
                assert(t[i] == ss[i]);
            }
        }
        lemma_join_first(t);
        if t.len() > 0 {
            lemma_join_len(t);
        }
    } else if ss.len() == 1 {
        assert(ss[0].len() > 0);
        if ss[0][0] == '/' {
            assert(ss[0].contains('/'));
        }
    }
}

/// Paths built from well-formed segments are already canonical.
pub proof fn lemma_canon_abs_path(ss: Seq<Seq<char>>)
    requires
        wf_segs(ss),
    ensures
        canon(abs_path(ss)) == abs_path(ss),
        is_abs(abs_path(ss)),
{
    lemma_segs_abs_path(ss);
    lemma_abs_path_root(ss);
}


proof fn lemma_scan_wf(s: Seq<char>)
    ensures
        wf_segs(scan(s, slash_sep(), seg_keep()).0),
        !scan(s, slash_sep(), seg_keep()).1.contains('/'),
    decreases s.len(),
{
    if s.len() > 0 {
        lemma_scan_wf(s.drop_last());
        let (d, c) = scan(s.drop_last(), slash_sep(), seg_keep());
        if s.last() != '/' {
            assert forall|k: int| 0 <= k < c.push(s.last()).len() implies c.push(s.last())[k]
                != '/' by {
                if k < c.len() {
                    assert(c[k] != '/') by {
                        if c[k] == '/' {
                            assert(c.contains('/'));
                        }
                    }
                }
            }
        }
    }
}

pub proof fn lemma_segs_wf(p: Seq<char>)
    ensures
        wf_segs(segs(p)),
{
    lemma_scan_wf(p);
}

pub proof fn lemma_norm_wf(ss: Seq<Seq<char>>)
    requires
        wf_segs(ss),
    ensures
        wf_segs(norm(ss)),
        forall|i: int| 0 <= i < norm(ss).len() ==> #[trigger] norm(ss)[i] != dotdot(),
    decreases ss.len(),
{
    if ss.len() > 0 {
        let t = ss.drop_last();
        assert(wf_segs(t)) by {
            assert forall|i: int| 0 <= i < t.len() implies (#[trigger] t[i]).len() > 0 && t[i]
                != seq!['.'] && !t[i].contains('/') by {
                assert(t[i] == ss[i]);
            }
        }
        lemma_norm_wf(t);
    }
}

/// Resolving `..` in segments that hold none changes nothing.
pub proof fn lemma_norm_fixed(ss: Seq<Seq<char>>)
    requires
        forall|i: int| 0 <= i < ss.len() ==> #[trigger] ss[i] != dotdot(),
    ensures
        norm(ss) == ss,
    decreases ss.len(),
{
    if ss.len() > 0 {
        let t = ss.drop_last();
        assert forall|i: int| 0 <= i < t.len() implies #[trigger] t[i] != dotdot() by {
            assert(t[i] == ss[i]);
        }
        lemma_norm_fixed(t);
        assert(ss.last() == ss[ss.len() - 1]);
        assert(t.push(ss.last()) =~= ss);
    }
}

pub proof fn lemma_segs_append_wf(a: Seq<Seq<char>>, b: Seq<Seq<char>>)
    requires
        wf_segs(a),
        wf_segs(b),
    ensures
        wf_segs(a + b),
{
    assert forall|i: int| 0 <= i < (a + b).len() implies (#[trigger] (a + b)[i]).len() > 0 && (a
        + b)[i] != seq!['.'] && !(a + b)[i].contains('/') by {
        if i < a.len() {
            assert((a + b)[i] == a[i]);
        } else {
            assert((a + b)[i] == b[i - a.len()]);
        }
    }
}

/// The root path is exactly the path with no segments.
pub proof fn lemma_abs_path_root(ss: Seq<Seq<char>>)
    requires
        wf_segs(ss),
    ensures
        (abs_path(ss) == seq!['/']) <==> ss.len() == 0,
        abs_path(ss).len() >= 1,
        abs_path(ss)[0] == '/',
{
    if ss.len() > 0 {
        lemma_join_len(ss);
        assert(abs_path(ss).len() > 1);
    } else {
        assert(abs_path(ss) =~= seq!['/']);
    }
}

proof fn lemma_join_len(ss: Seq<Seq<char>>)
    requires
        wf_segs(ss),
        ss.len() > 0,
    ensures
        join(ss, seq!['/']).len() >= 1,
    decreases ss.len(),
{
    if ss.len() > 1 {
        let t = ss.drop_last();
        assert(wf_segs(t)) by {
            assert forall|i: int| 0 <= i < t.len() implies (#[trigger] t[i]).len() > 0 && t[i]
                != seq!['.'] && !t[i].contains('/') by {
                assert(t[i] == ss[i]);
            }
        }
        lemma_join_len(t);
    } else {
        assert(ss[0].len() > 0);
    }
}

// ───────────────────────── executable functions ─────────────────────────

/// The segments of `v`.
pub fn segs_exec(v: &Vec<char>) -> (r: Vec<Vec<char>>)
    ensures
        vviews(r@) == segs(v@),
{
    let mut done: Vec<Vec<char>> = Vec::new();
    let mut cur: Vec<char> = Vec::new();
    let mut i: usize = 0;
    while i < v.len()
        invariant
            i <= v.len(),
            scan(v@.take(i as int), slash_sep(), seg_keep()) == (vviews(done@), cur@),
        decreases v.len() - i,
    {
        let ghost pre = v@.take(i as int);
        assert(v@.take(i + 1).drop_last() =~= pre);
        assert(v@.take(i + 1).last() == v@[i as int]);
        let c = v[i];
        if c == '/' {
            let keep = cur.len() > 0 && !(cur.len() == 1 && cur[0] == '.');
            assert(keep == seg_keep()(cur@)) by {
                if cur@ == seq!['.'] {
                    assert(cur@[0] == '.');
                }
                if cur.len() == 1 && cur@[0] == '.' {
                    assert(cur@ =~= seq!['.']);
                }
            }
            if keep {
                let w = cur;
                proof {
                    lemma_vviews_push(done@, w);
                }
                done.push(w);
            }
            cur = Vec::new();
            assert(cur@ =~= Seq::<char>::empty());
        } else {
            cur.push(c);
        }
        i = i + 1;
    }
    assert(v@.take(v.len() as int) =~= v@);
    let keep = cur.len() > 0 && !(cur.len() == 1 && cur[0] == '.');
    assert(keep == seg_keep()(cur@)) by {
        if cur@ == seq!['.'] {
            assert(cur@[0] == '.');
        }
        if cur.len() == 1 && cur@[0] == '.' {
            assert(cur@ =~= seq!['.']);
        }
    }
    if keep {
        proof {
            lemma_vviews_push(done@, cur);
        }
        done.push(cur);
    }
    done
}

/// The segments joined with `/`.
pub fn join_slash_exec(ss: &Vec<Vec<char>>) -> (r: Vec<char>)
    ensures
        r@ == join(vviews(ss@), seq!['/']),
{
    let ghost vs = vviews(ss@);
    let mut acc: Vec<char> = Vec::new();
    let mut i: usize = 0;
    while i < ss.len()
        invariant
            i <= ss.len(),
            vs == vviews(ss@),
            acc@ == join(vs.take(i as int), seq!['/']),
        decreases ss.len() - i,
    {
        assert(vs.take(i + 1).drop_last() =~= vs.take(i as int));
        assert(vs.take(i + 1).last() == ss@[i as int]@);
        if i > 0 {
            acc.push('/');
        }
        append_chars(&mut acc, &ss[i]);
        i = i + 1;
        proof {
            if i == 1 {
                assert(join(vs.take(1), seq!['/']) == vs.take(1)[0]);
                assert(acc@ =~= vs.take(1)[0]);
            } else {
                assert(acc@ =~= join(vs.take(i - 1), seq!['/']) + seq!['/'] + vs.take(i as int).last());
            }
        }
    }
    assert(vs.take(ss.len() as int) =~= vs);
    acc
}

/// `/` followed by the segments joined with `/`.
pub fn abs_path_exec(ss: &Vec<Vec<char>>) -> (r: Vec<char>)
    ensures
        r@ == abs_path(vviews(ss@)),
{
    let acc = join_slash_exec(ss);
    let mut r: Vec<char> = vec!['/'];
    append_chars(&mut r, &acc);
    assert(r@ =~= abs_path(vviews(ss@)));
    r
}

/// The canonical spelling of `p`.
pub fn canon_exec(p: &Vec<char>) -> (r: Vec<char>)
    ensures
        r@ == canon(p@),
{
    let ss = segs_exec(p);
    if p.len() > 0 && p[0] == '/' {
        abs_path_exec(&ss)
    } else {
        join_slash_exec(&ss)
    }
}

/// Resolves `..` segments in `ss`.
pub fn norm_exec(ss: &Vec<Vec<char>>) -> (r: Vec<Vec<char>>)
    ensures
        vviews(r@) == norm(vviews(ss@)),
{
    let ghost vs = vviews(ss@);
    let dd = vec!['.', '.'];
    assert(dd@ =~= dotdot());
    let mut st: Vec<Vec<char>> = Vec::new();
    let mut i: usize = 0;
    while i < ss.len()
        invariant
            i <= ss.len(),
            vs == vviews(ss@),
            dd@ == dotdot(),
            vviews(st@) == norm(vs.take(i as int)),
        decreases ss.len() - i,
    {
        assert(vs.take(i + 1).drop_last() =~= vs.take(i as int));
        assert(vs.take(i + 1).last() == ss@[i as int]@);
        if chars_eq(&ss[i], &dd) {
            if st.len() > 0 {
                proof {
                    lemma_vviews_drop_last(st@);
                }
                st.pop();
            }
        } else {
            let w = copy_chars(&ss[i]);
            proof {
                lemma_vviews_push(st@, w);
            }
            st.push(w);
        }
        i = i + 1;
    }
    assert(vs.take(ss.len() as int) =~= vs);
    st
}

/// The segments of `p` joined onto those of `cwd` when `p` is relative.
pub fn joined_segs_exec(cwd: &Vec<char>, p: &Vec<char>) -> (r: Vec<Vec<char>>)
    ensures
        vviews(r@) == joined_segs(cwd@, p@),
{
    if p.len() > 0 && p[0] == '/' {
        segs_exec(p)
    } else {
        let mut a = segs_exec(cwd);
        let b = segs_exec(p);
        let ghost a0 = vviews(a@);
        let mut i: usize = 0;
        while i < b.len()
            invariant
                i <= b.len(),
                vviews(a@) == a0 + vviews(b@).take(i as int),
            decreases b.len() - i,
        {
            let w = copy_chars(&b[i]);
            proof {
                lemma_vviews_push(a@, w);
            }
            a.push(w);
            i = i + 1;
            assert(a0 + vviews(b@).take(i as int) =~= (a0 + vviews(b@).take(i - 1)).push(w@));
        }
        assert(vviews(b@).take(b.len() as int) =~= vviews(b@));
        a
    }
}

/// `p` joined onto `cwd` when relative, `..` kept.
pub fn join_path_exec(cwd: &Vec<char>, p: &Vec<char>) -> (r: Vec<char>)
    ensures
        r@ == join_path(cwd@, p@),
{
    let ss = joined_segs_exec(cwd, p);
    abs_path_exec(&ss)
}

/// `p` resolved against `cwd`, `.` and `..` removed.
pub fn resolve_exec(cwd: &Vec<char>, p: &Vec<char>) -> (r: Vec<char>)
    ensures
        r@ == resolve(cwd@, p@),
{
    let ss = joined_segs_exec(cwd, p);
    let n = norm_exec(&ss);
    abs_path_exec(&n)
}

/// Whether the segments `a` are a prefix of the segments `b`.
pub fn segs_prefix_exec(a: &Vec<Vec<char>>, b: &Vec<Vec<char>>) -> (r: bool)
    ensures
        r == vviews(a@).is_prefix_of(vviews(b@)),
{
    if a.len() > b.len() {
        return false;
    }
    let mut i: usize = 0;
    while i < a.len()
        invariant
            a.len() <= b.len(),
            i <= a.len(),
            forall|j: int| 0 <= j < i ==> a@[j]@ == b@[j]@,
        decreases a.len() - i,
    {
        if !chars_eq(&a[i], &b[i]) {
            assert(vviews(a@)[i as int] != vviews(b@)[i as int]);
            return false;
        }
        i = i + 1;
    }
    assert(vviews(a@) =~= vviews(b@).take(a.len() as int));
    true
}

/// Whether `c` is a direct child of `parent`.
pub fn is_direct_child_exec(parent: &Vec<char>, c: &Vec<char>) -> (r: bool)
    ensures
        r == is_direct_child(parent@, c@),
{
    let pa = parent.len() > 0 && parent[0] == '/';
    let ca = c.len() > 0 && c[0] == '/';
    if pa != ca {
        return false;
    }
    let ps = segs_exec(parent);
    let cs = segs_exec(c);
    if cs.len() == 0 || cs.len() - 1 != ps.len() {
        return false;
    }
    segs_prefix_exec(&ps, &cs)
}

/// Whether `c` is `root` or lies below it.
pub fn is_under_exec(root: &Vec<char>, c: &Vec<char>) -> (r: bool)
    ensures
        r == is_under(root@, c@),
{
    let ra = root.len() > 0 && root[0] == '/';
    let ca = c.len() > 0 && c[0] == '/';
    if ra != ca {
        return false;
    }
    let rs = segs_exec(root);
    let cs = segs_exec(c);
    segs_prefix_exec(&rs, &cs)
}

} // verus!
