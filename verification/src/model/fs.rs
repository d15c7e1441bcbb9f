//! The virtual filesystem: a flat, insertion-ordered map from canonical
//! paths to nodes.
//!
//! Directory relationships are inferred from path segments at query time.
//! Paths are canonicalized on every public access, so `/app/` and `/app`
//! name the same node, as they do for `std::path::Path` comparisons.

use vstd::prelude::*;
use crate::model::provenance::{fresh_prov, MountInfo, MountV, ProvV, Provenance, ProvenanceSource, SrcV};
use crate::path::{canon, canon_exec, is_direct_child, is_direct_child_exec, is_under, is_under_exec};
use crate::text::{chars_eq, chars_of, copy_chars, string_of};

verus! {

/// A regular file node.
#[derive(Debug, Clone, PartialEq)]
pub struct FileNode {
    /// Raw byte content. Empty for placeholder files.
    pub content: Vec<u8>,
    /// Where this file came from.
    pub provenance: Provenance,
    /// Optional Unix permission bits; `None` means not modeled.
    pub permissions: Option<u32>,
}

/// A directory node.
#[derive(Debug, Clone, PartialEq)]
pub struct DirNode {
    /// Where this directory came from.
    pub provenance: Provenance,
    /// Optional Unix permission bits; `None` means not modeled.
    pub permissions: Option<u32>,
}

/// A symbolic link node.
#[derive(Debug, Clone, PartialEq)]
pub struct SymlinkNode {
    /// The path the link points to (relative or absolute).
    pub target: String,
    /// Where this symlink came from.
    pub provenance: Provenance,
}

/// Any node that can exist at a path of the virtual filesystem.
#[derive(Debug, Clone, PartialEq)]
pub enum FsNode {
    /// A regular file.
    File(FileNode),
    /// A directory.
    Directory(DirNode),
    /// A symbolic link.
    Symlink(SymlinkNode),
}

/// The abstract value of an `FsNode`.
pub enum NodeV {
    File { content: Seq<u8>, prov: ProvV, permissions: Option<u32> },
    Dir { prov: ProvV, permissions: Option<u32> },
    Link { target: Seq<char>, prov: ProvV },
}

impl NodeV {
    /// The node's provenance.
    pub open spec fn prov(self) -> ProvV {
        match self {
            NodeV::File { prov, .. } => prov,
            NodeV::Dir { prov, .. } => prov,
            NodeV::Link { prov, .. } => prov,
        }
    }

    /// The same node with its provenance replaced.
    pub open spec fn with_prov(self, p: ProvV) -> NodeV {
        match self {
            NodeV::File { content, permissions, .. } => NodeV::File { content, prov: p, permissions },
            NodeV::Dir { permissions, .. } => NodeV::Dir { prov: p, permissions },
            NodeV::Link { target, .. } => NodeV::Link { target, prov: p },
        }
    }
}

/// A directory freshly created by `src`.
pub open spec fn fresh_dir_v(src: SrcV) -> NodeV {
    NodeV::Dir { prov: fresh_prov(src), permissions: None }
}

/// An empty file freshly created by `src`.
pub open spec fn empty_file_v(src: SrcV) -> NodeV {
    NodeV::File { content: seq![], prov: fresh_prov(src), permissions: None }
}

impl View for FsNode {
    type V = NodeV;

    open spec fn view(&self) -> NodeV {
        match self {
            FsNode::File(f) => NodeV::File {
                content: f.content@,
                prov: f.provenance@,
                permissions: f.permissions,
            },
            FsNode::Directory(d) => NodeV::Dir { prov: d.provenance@, permissions: d.permissions },
            FsNode::Symlink(s) => NodeV::Link { target: s.target@, prov: s.provenance@ },
        }
    }
}

impl FsNode {
    /// An identical copy of this node.
    pub fn dup(&self) -> (r: Self)
        ensures
            r@ == self@,
    {
        match self {
            FsNode::File(f) => {
                let c = f.content.clone();
                assert(c@ =~= f.content@);
                FsNode::File(FileNode { content: c, provenance: f.provenance.dup(), permissions: f.permissions })
            },
            FsNode::Directory(d) => FsNode::Directory(
                DirNode { provenance: d.provenance.dup(), permissions: d.permissions },
            ),
            FsNode::Symlink(l) => FsNode::Symlink(
                SymlinkNode { target: l.target.clone(), provenance: l.provenance.dup() },
            ),
        }
    }

    /// The provenance record embedded in this node, whatever its kind.
    pub fn provenance(&self) -> (p: &Provenance)
        ensures
            p@ == self@.prov(),
    {
        match self {
            FsNode::File(f) => &f.provenance,
            FsNode::Directory(d) => &d.provenance,
            FsNode::Symlink(s) => &s.provenance,
        }
    }
}

/// A fresh directory node created by `source`.
pub fn fresh_dir(source: ProvenanceSource) -> (n: FsNode)
    ensures
        n@ == fresh_dir_v(source@),
{
    FsNode::Directory(DirNode { provenance: Provenance::new(source), permissions: None })
}

/// A fresh empty file node created by `source`.
pub fn empty_file(source: ProvenanceSource) -> (n: FsNode)
    ensures
        n@ == empty_file_v(source@),
{
    let c: Vec<u8> = Vec::new();
    assert(c@ =~= Seq::<u8>::empty());
    FsNode::File(FileNode { content: c, provenance: Provenance::new(source), permissions: None })
}

// ───────────────────────── ordered entries ─────────────────────────

/// The position of key `k` in `es`.
pub open spec fn es_find(es: Seq<(Seq<char>, NodeV)>, k: Seq<char>) -> Option<int>
    decreases es.len(),
{
    if es.len() == 0 {
        None
    } else {
        match es_find(es.drop_last(), k) {
            Some(i) => Some(i),
            None => if es.last().0 == k {
                Some((es.len() - 1) as int)
            } else {
                None
            },
        }
    }
}

/// `es` holds key `k`.
pub open spec fn es_has(es: Seq<(Seq<char>, NodeV)>, k: Seq<char>) -> bool {
    es_find(es, k) is Some
}

/// The node under key `k` in `es`.
pub open spec fn es_get(es: Seq<(Seq<char>, NodeV)>, k: Seq<char>) -> NodeV {
    es[es_find(es, k)->0].1
}

/// `es` with `v` stored under `k`: replaced in place, or appended.
pub open spec fn es_put(es: Seq<(Seq<char>, NodeV)>, k: Seq<char>, v: NodeV) -> Seq<
    (Seq<char>, NodeV),
> {
    match es_find(es, k) {
        Some(i) => es.update(i, (k, v)),
        None => es.push((k, v)),
    }
}

/// `es` without key `k`.
pub open spec fn es_del(es: Seq<(Seq<char>, NodeV)>, k: Seq<char>) -> Seq<(Seq<char>, NodeV)> {
    match es_find(es, k) {
        Some(i) => es.remove(i),
        None => es,
    }
}

/// The entries of `es` whose keys satisfy `p`, in order.
pub open spec fn es_filter(es: Seq<(Seq<char>, NodeV)>, p: spec_fn(Seq<char>) -> bool) -> Seq<
    (Seq<char>, NodeV),
>
    decreases es.len(),
{
    if es.len() == 0 {
        seq![]
    } else {
        let f = es_filter(es.drop_last(), p);
        if p(es.last().0) {
            f.push(es.last())
        } else {
            f
        }
    }
}

/// Keys at or below `root`.
pub open spec fn under_pred(root: Seq<char>) -> spec_fn(Seq<char>) -> bool {
    |k: Seq<char>| is_under(root, k)
}

/// Keys outside `root`.
pub open spec fn outside_pred(root: Seq<char>) -> spec_fn(Seq<char>) -> bool {
    |k: Seq<char>| !is_under(root, k)
}

/// Keys that are direct children of `dir`.
pub open spec fn child_pred(dir: Seq<char>) -> spec_fn(Seq<char>) -> bool {
    |k: Seq<char>| is_direct_child(dir, k)
}

/// No key occurs twice.
pub open spec fn es_unique(es: Seq<(Seq<char>, NodeV)>) -> bool {
    forall|i: int, j: int| 0 <= i < j < es.len() ==> es[i].0 != es[j].0
}

/// The map held by the entries.
pub open spec fn es_map(es: Seq<(Seq<char>, NodeV)>) -> Map<Seq<char>, NodeV>
    decreases es.len(),
{
    if es.len() == 0 {
        Map::empty()
    } else {
        es_map(es.drop_last()).insert(es.last().0, es.last().1)
    }
}

pub proof fn lemma_es_find(es: Seq<(Seq<char>, NodeV)>, k: Seq<char>)
    ensures
        match es_find(es, k) {
            Some(i) => 0 <= i < es.len() && es[i].0 == k && forall|j: int|
                0 <= j < i ==> es[j].0 != k,
            None => forall|j: int| 0 <= j < es.len() ==> es[j].0 != k,
        },
    decreases es.len(),
{
    if es.len() > 0 {
        lemma_es_find(es.drop_last(), k);
        match es_find(es.drop_last(), k) {
            Some(i) => {
                assert forall|j: int| 0 <= j < i implies es[j].0 != k by {
                    assert(es[j] == es.drop_last()[j]);
                }
                assert(es[i] == es.drop_last()[i]);
            },
            None => {
                assert forall|j: int| 0 <= j < es.len() - 1 implies es[j].0 != k by {
                    assert(es[j] == es.drop_last()[j]);
                }
            },
        }
    }
}

/// Entries with the same keys, position by position, find every key at the
/// same place.
pub proof fn lemma_es_find_same_keys(a: Seq<(Seq<char>, NodeV)>, b: Seq<(Seq<char>, NodeV)>, x: Seq<char>)
    requires
        a.len() == b.len(),
        forall|j: int| 0 <= j < a.len() ==> #[trigger] a[j].0 == b[j].0,
    ensures
        es_find(a, x) == es_find(b, x),
    decreases a.len(),
{
    if a.len() > 0 {
        let ta = a.drop_last();
        let tb = b.drop_last();
        assert forall|j: int| 0 <= j < ta.len() implies #[trigger] ta[j].0 == tb[j].0 by {
            assert(ta[j] == a[j]);
            assert(tb[j] == b[j]);
        }
        lemma_es_find_same_keys(ta, tb, x);
        assert(a.last().0 == b.last().0) by {
            assert(a[a.len() - 1].0 == b[a.len() - 1].0);
        }
    }
}

/// Storing `v` under `k` makes `k` map to `v` and leaves every other key
/// as it was.
pub proof fn lemma_es_put(es: Seq<(Seq<char>, NodeV)>, k: Seq<char>, v: NodeV)
    ensures
        es_has(es_put(es, k, v), k),
        es_get(es_put(es, k, v), k) == v,
        forall|x: Seq<char>|
            x != k ==> (es_has(es_put(es, k, v), x) == es_has(es, x) && (es_has(es, x) ==> es_get(
                es_put(es, k, v),
                x,
            ) == es_get(es, x))),
{
    lemma_es_find(es, k);
    let n = es_put(es, k, v);
    match es_find(es, k) {
        Some(i) => {
            assert forall|j: int| 0 <= j < es.len() implies #[trigger] es[j].0 == n[j].0 by {}
            assert forall|x: Seq<char>| true implies es_find(n, x) == es_find(es, x) by {
                lemma_es_find_same_keys(es, n, x);
            }
            assert forall|x: Seq<char>| x != k && es_has(es, x) implies es_get(n, x) == es_get(es, x) by {
                lemma_es_find(es, x);
                lemma_es_find_same_keys(es, n, x);
                let j = es_find(es, x)->0;
                assert(j != i);
                assert(n[j] == es[j]);
            }
        },
        None => {
            assert(n.drop_last() =~= es);
            assert(n.last() == (k, v));
            lemma_es_find(n, k);
            assert forall|x: Seq<char>| x != k implies es_find(n, x) == es_find(es, x) by {
                assert(n.drop_last() =~= es);
            }
            assert forall|x: Seq<char>| x != k && es_has(es, x) implies es_get(n, x) == es_get(es, x) by {
                lemma_es_find(es, x);
                let j = es_find(es, x)->0;
                assert(n[j] == es[j]);
            }
        },
    }
}

/// With unique keys, key `k` is at position `i` exactly when `es_find` says so.
pub proof fn lemma_es_find_unique(es: Seq<(Seq<char>, NodeV)>, i: int)
    requires
        es_unique(es),
        0 <= i < es.len(),
    ensures
        es_find(es, es[i].0) == Some(i),
{
    lemma_es_find(es, es[i].0);
}

pub proof fn lemma_es_map(es: Seq<(Seq<char>, NodeV)>)
    requires
        es_unique(es),
    ensures
        forall|k: Seq<char>| #[trigger] es_map(es).contains_key(k) <==> es_has(es, k),
        forall|k: Seq<char>| es_has(es, k) ==> #[trigger] es_map(es)[k] == es_get(es, k),
        es_map(es).dom().finite(),
        es_map(es).dom().len() == es.len(),
    decreases es.len(),
{
    if es.len() > 0 {
        let t = es.drop_last();
        assert(es_unique(t)) by {
            assert forall|i: int, j: int| 0 <= i < j < t.len() implies t[i].0 != t[j].0 by {
                assert(t[i] == es[i]);
                assert(t[j] == es[j]);
            }
        }
        lemma_es_map(t);
        lemma_es_find(t, es.last().0);
        assert forall|k: Seq<char>| #[trigger] es_map(es).contains_key(k) <==> es_has(es, k) by {
            lemma_es_find(t, k);
        }
        assert forall|k: Seq<char>| es_has(es, k) implies #[trigger] es_map(es)[k] == es_get(es, k) by {
            lemma_es_find(t, k);
            if k != es.last().0 {
                let i = es_find(t, k)->0;
                assert(es[i] == t[i]);
            } else {
                assert(es_find(t, k) is None) by {
                    if es_find(t, k) is Some {
                        let i = es_find(t, k)->0;
                        assert(es[i] == t[i]);
                    }
                }
            }
        }
        assert(!es_map(t).contains_key(es.last().0)) by {
            lemma_es_find(t, es.last().0);
            if es_has(t, es.last().0) {
                let i = es_find(t, es.last().0)->0;
                assert(es[i] == t[i]);
            }
        }
        assert(es_map(es).dom() =~= es_map(t).dom().insert(es.last().0));
    }
}

/// Every key of the entries is a key of their map, and conversely.
pub proof fn lemma_es_map_keys(es: Seq<(Seq<char>, NodeV)>)
    ensures
        forall|j: int| 0 <= j < es.len() ==> es_map(es).contains_key(#[trigger] es[j].0),
        forall|k: Seq<char>| #[trigger] es_map(es).contains_key(k) ==> exists|j: int| 0 <= j < es.len() && es[j].0 == k,
    decreases es.len(),
{
    if es.len() > 0 {
        let t = es.drop_last();
        lemma_es_map_keys(t);
        assert forall|j: int| 0 <= j < es.len() implies es_map(es).contains_key(#[trigger] es[j].0) by {
            if j < t.len() {
                assert(es[j] == t[j]);
            }
        }
        assert forall|k: Seq<char>| #[trigger] es_map(es).contains_key(k) implies exists|j: int| 0 <= j < es.len() && es[j].0 == k by {
            if k != es.last().0 {
                assert(es_map(t).contains_key(k));
                let j = choose|j: int| 0 <= j < t.len() && t[j].0 == k;
                assert(es[j] == t[j]);
            } else {
                assert(es[es.len() - 1].0 == k);
            }
        }
    }
}

/// Filtering keeps exactly the map entries whose keys satisfy `p`, and
/// keeps keys unique and canonical.
pub proof fn lemma_es_filter(es: Seq<(Seq<char>, NodeV)>, p: spec_fn(Seq<char>) -> bool)
    ensures
        forall|k: Seq<char>| #[trigger] es_map(es_filter(es, p)).contains_key(k) <==> (es_map(es).contains_key(k) && p(k)),
        forall|k: Seq<char>| #[trigger] es_map(es_filter(es, p)).contains_key(k) ==> es_map(es_filter(es, p))[k] == es_map(es)[k],
        es_unique(es) ==> es_unique(es_filter(es, p)),
        es_canon(es) ==> es_canon(es_filter(es, p)),
        forall|j: int| 0 <= j < es_filter(es, p).len() ==> p(#[trigger] es_filter(es, p)[j].0),
    decreases es.len(),
{
    if es.len() > 0 {
        let t = es.drop_last();
        let e = es.last();
        lemma_es_filter(t, p);
        let ft = es_filter(t, p);
        let f = es_filter(es, p);
        assert(f == if p(e.0) { ft.push(e) } else { ft });
        if p(e.0) {
            assert(ft.push(e).drop_last() =~= ft);
            assert(es_map(f) == es_map(ft).insert(e.0, e.1));
        }
        assert(es_map(es) == es_map(t).insert(e.0, e.1));
        assert forall|k: Seq<char>| #[trigger] es_map(f).contains_key(k) <==> (es_map(es).contains_key(k) && p(k)) by {
            if k != e.0 {
                assert(es_map(ft).contains_key(k) <==> (es_map(t).contains_key(k) && p(k)));
            }
        }
        assert forall|k: Seq<char>| #[trigger] es_map(f).contains_key(k) implies es_map(f)[k] == es_map(es)[k] by {
            if k != e.0 {
                assert(es_map(ft).contains_key(k) <==> (es_map(t).contains_key(k) && p(k)));
                if p(e.0) {
                    assert(es_map(f)[k] == es_map(ft)[k]);
                }
                assert(es_map(es)[k] == es_map(t)[k]);
            }
        }
        assert forall|j: int| 0 <= j < f.len() implies p(#[trigger] f[j].0) by {
            if j < ft.len() {
                assert(f[j] == ft[j]);
            }
        }
        if es_unique(es) {
            assert(es_unique(t)) by {
                assert forall|i: int, j: int| 0 <= i < j < t.len() implies t[i].0 != t[j].0 by {
                    assert(t[i] == es[i]);
                    assert(t[j] == es[j]);
                }
            }
            if p(e.0) {
                lemma_es_map_keys(ft);
                lemma_es_map_keys(t);
                assert forall|i: int, j: int| 0 <= i < j < f.len() implies f[i].0 != f[j].0 by {
                    if j < ft.len() {
                        assert(f[i] == ft[i]);
                        assert(f[j] == ft[j]);
                    } else {
                        assert(f[i] == ft[i]);
                        assert(es_map(ft).contains_key(ft[i].0));
                        let q = choose|q: int| 0 <= q < t.len() && t[q].0 == ft[i].0;
                        assert(es[q] == t[q]);
                    }
                }
            }
        }
        if es_canon(es) {
            assert(es_canon(t)) by {
                assert forall|i: int| 0 <= i < t.len() implies canon(#[trigger] t[i].0) == t[i].0 by {
                    assert(t[i] == es[i]);
                }
            }
            assert forall|i: int| 0 <= i < f.len() implies canon(#[trigger] f[i].0) == f[i].0 by {
                if i < ft.len() {
                    assert(f[i] == ft[i]);
                }
            }
        }
    }
}

/// The entries view of a vector of (key, node) pairs.
pub open spec fn entries_view(s: Seq<(Vec<char>, FsNode)>) -> Seq<(Seq<char>, NodeV)> {
    Seq::new(s.len(), |i: int| (s[i].0@, s[i].1@))
}

/// Every key is canonical.
pub open spec fn es_canon(es: Seq<(Seq<char>, NodeV)>) -> bool {
    forall|i: int| 0 <= i < es.len() ==> canon(#[trigger] es[i].0) == es[i].0
}

/// The entries of `v` in reverse order.
fn reversed(v: Vec<(Vec<char>, FsNode)>) -> (r: Vec<(Vec<char>, FsNode)>)
    ensures
        entries_view(r@) == entries_view(v@).reverse(),
{
    let mut v = v;
    let mut r: Vec<(Vec<char>, FsNode)> = Vec::new();
    let ghost v0 = entries_view(v@);
    while v.len() > 0
        invariant
            entries_view(r@) + entries_view(v@).reverse() == v0.reverse(),
        decreases v.len(),
    {
        let ghost pre = v@;
        let e = v.pop().unwrap();
        let ghost r0 = r@;
        r.push(e);
        assert(entries_view(pre) =~= entries_view(v@).push((e.0@, e.1@)));
        assert(entries_view(r@) =~= entries_view(r0).push((e.0@, e.1@)));
        assert(entries_view(pre).reverse() =~= seq![(e.0@, e.1@)] + entries_view(v@).reverse());
    }
    assert(entries_view(r@) + entries_view(v@).reverse() =~= entries_view(r@));
    r
}

// ───────────────────────── the filesystem ─────────────────────────

/// An in-memory virtual filesystem backed by a flat path-to-node map.
#[derive(Debug, PartialEq)]
pub struct VirtualFs {
    nodes: Vec<(Vec<char>, FsNode)>,
}

impl View for VirtualFs {
    type V = Map<Seq<char>, NodeV>;

    open spec fn view(&self) -> Map<Seq<char>, NodeV> {
        es_map(self.ev())
    }
}

impl Clone for VirtualFs {
    /// A copy holding the same paths (each node cloned).
    fn clone(&self) -> (r: Self)
        ensures
            r@.dom() == self@.dom(),
    {
        proof {
            use_type_invariant(self);
        }
        let mut nodes: Vec<(Vec<char>, FsNode)> = Vec::new();
        let mut i: usize = 0;
        while i < self.nodes.len()
            invariant
                i <= self.nodes@.len(),
                nodes@.len() == i,
                forall|j: int| 0 <= j < i ==> (#[trigger] nodes@[j]).0@ == self.nodes@[j].0@,
            decreases self.nodes.len() - i,
        {
            let k = copy_chars(&self.nodes[i].0);
            let n = self.nodes[i].1.clone();
            nodes.push((k, n));
            i = i + 1;
        }
        proof {
            let a = entries_view(nodes@);
            let b = entries_view(self.nodes@);
            assert forall|j: int| 0 <= j < a.len() implies #[trigger] a[j].0 == b[j].0 by {}
            assert(es_unique(a));
            assert(es_canon(a)) by {
                assert forall|j: int| 0 <= j < a.len() implies canon(#[trigger] a[j].0) == a[j].0 by {
                    assert(a[j].0 == b[j].0);
                }
            }
            lemma_es_map(a);
            lemma_es_map(b);
            assert(es_map(a).dom() =~= es_map(b).dom()) by {
                assert forall|k: Seq<char>| es_map(a).dom().contains(k) <==> es_map(b).dom().contains(k) by {
                    lemma_es_find(a, k);
                    lemma_es_find(b, k);
                    if es_has(a, k) {
                        let j = es_find(a, k)->0;
                        assert(b[j].0 == k);
                    }
                    if es_has(b, k) {
                        let j = es_find(b, k)->0;
                        assert(a[j].0 == k);
                    }
                }
            }
        }
        VirtualFs { nodes }
    }
}

impl VirtualFs {
    /// The entries, in insertion order.
    pub closed spec fn ev(&self) -> Seq<(Seq<char>, NodeV)> {
        entries_view(self.nodes@)
    }

    #[verifier::type_invariant]
    closed spec fn inv(self) -> bool {
        es_unique(self.ev()) && es_canon(self.ev())
    }

    /// An identical copy of this filesystem.
    pub fn dup(&self) -> (r: Self)
        ensures
            r.ev() == self.ev(),
            r@ == self@,
    {
        proof {
            use_type_invariant(self);
        }
        let mut nodes: Vec<(Vec<char>, FsNode)> = Vec::new();
        let mut i: usize = 0;
        while i < self.nodes.len()
            invariant
                i <= self.nodes@.len(),
                entries_view(nodes@) == entries_view(self.nodes@).take(i as int),
            decreases self.nodes.len() - i,
        {
            let ghost n0 = nodes@;
            let k = copy_chars(&self.nodes[i].0);
            let n = self.nodes[i].1.dup();
            nodes.push((k, n));
            assert(entries_view(nodes@) =~= entries_view(n0).push((k@, n@)));
            assert(entries_view(self.nodes@).take(i + 1) =~= entries_view(self.nodes@).take(i as int).push(
                (k@, n@),
            ));
            i = i + 1;
        }
        assert(entries_view(self.nodes@).take(self.nodes@.len() as int) =~= entries_view(self.nodes@));
        VirtualFs { nodes }
    }

    /// Creates an empty virtual filesystem.
    pub fn new() -> (fs: Self)
        ensures
            fs@ == Map::<Seq<char>, NodeV>::empty(),
            fs.ev() == Seq::<(Seq<char>, NodeV)>::empty(),
    {
        let fs = VirtualFs { nodes: Vec::new() };
        assert(fs.ev() =~= Seq::<(Seq<char>, NodeV)>::empty());
        fs
    }

    /// The position of the entry whose key is `key`.
    fn index_of(&self, key: &Vec<char>) -> (r: Option<usize>)
        ensures
            match r {
                Some(i) => es_find(self.ev(), key@) == Some(i as int) && i < self.nodes@.len(),
                None => es_find(self.ev(), key@) is None,
            },
    {
        let ghost es = self.ev();
        let mut i: usize = 0;
        while i < self.nodes.len()
            invariant
                i <= self.nodes@.len(),
                es == self.ev(),
                forall|j: int| 0 <= j < i ==> es[j].0 != key@,
            decreases self.nodes.len() - i,
        {
            assert(es[i as int].0 == self.nodes@[i as int].0@);
            if chars_eq(&self.nodes[i].0, key) {
                proof {
                    lemma_es_find(es, key@);
                    if es_find(es, key@) is Some {
                        let f = es_find(es, key@)->0;
                        assert(!(f < i));
                        assert(!(f > i));
                    }
                }
                return Some(i);
            }
            i = i + 1;
        }
        proof {
            lemma_es_find(es, key@);
        }
        None
    }

    /// The node stored under the canonical key `key`.
    pub fn get_key(&self, key: &Vec<char>) -> (r: Option<&FsNode>)
        ensures
            match r {
                Some(n) => es_has(self.ev(), key@) && n@ == es_get(self.ev(), key@)
                    && self@.contains_key(key@) && n@ == self@[key@],
                None => !es_has(self.ev(), key@) && !self@.contains_key(key@),
            },
    {
        proof {
            use_type_invariant(self);
            lemma_es_map(self.ev());
        }
        match self.index_of(key) {
            Some(i) => Some(&self.nodes[i].1),
            None => None,
        }
    }

    /// Whether a node is stored under the canonical key `key`.
    pub fn contains_key(&self, key: &Vec<char>) -> (b: bool)
        ensures
            b == es_has(self.ev(), key@),
            b == self@.contains_key(key@),
    {
        proof {
            use_type_invariant(self);
            lemma_es_map(self.ev());
        }
        self.index_of(key).is_some()
    }

    /// Stores `node` under the canonical key `key`, replacing any node there
    /// in place.
    pub fn insert_key(&mut self, key: Vec<char>, node: FsNode)
        requires
            canon(key@) == key@,
        ensures
            final(self).ev() == es_put(old(self).ev(), key@, node@),
            final(self)@ == old(self)@.insert(key@, node@),
    {
        proof {
            use_type_invariant(&*self);
            lemma_es_map(self.ev());
        }
        let ghost old_es = self.ev();
        let ghost k = key@;
        let ghost nv = node@;
        let found = self.index_of(&key);
        let mut nodes: Vec<(Vec<char>, FsNode)> = Vec::new();
        std::mem::swap(&mut nodes, &mut self.nodes);
        match found {
            Some(i) => {
                nodes.set(i, (key, node));
                assert(entries_view(nodes@) =~= old_es.update(i as int, (k, nv)));
            },
            None => {
                nodes.push((key, node));
                assert(entries_view(nodes@) =~= old_es.push((k, nv)));
            },
        }
        proof {
            let es = entries_view(nodes@);
            lemma_es_find(old_es, k);
            assert(es_unique(es)) by {
                assert forall|a: int, b: int| 0 <= a < b < es.len() implies es[a].0 != es[b].0 by {
                    if let Some(i) = found {
                        assert(a != i ==> es[a] == old_es[a]);
                        assert(b != i ==> es[b] == old_es[b]);
                    } else {
                        if b < old_es.len() {
                            assert(es[a] == old_es[a]);
                            assert(es[b] == old_es[b]);
                        } else {
                            assert(es[a] == old_es[a]);
                        }
                    }
                }
            }
            assert(es_canon(es)) by {
                assert forall|a: int| 0 <= a < es.len() implies canon(#[trigger] es[a].0) == es[a].0 by {
                    if a < old_es.len() && (found matches Some(i) ==> a != i) {
                        assert(es[a] == old_es[a]);
                    }
                }
            }
            lemma_es_map(es);
            assert(es_map(es) =~= es_map(old_es).insert(k, nv)) by {
                assert forall|q: Seq<char>| #[trigger] es_map(es).contains_key(q)
                    <==> es_map(old_es).insert(k, nv).contains_key(q) by {
                    lemma_es_find(es, q);
                    lemma_es_find(old_es, q);
                    if es_has(es, q) {
                        let j = es_find(es, q)->0;
                        if j < old_es.len() && (found matches Some(i) ==> j != i) {
                            assert(old_es[j] == es[j]);
                        }
                    }
                    if es_has(old_es, q) {
                        let j = es_find(old_es, q)->0;
                        if let Some(i) = found {
                            if j != i {
                                assert(es[j] == old_es[j]);
                            }
                        } else {
                            assert(es[j] == old_es[j]);
                        }
                    }
                    if q == k {
                        if let Some(i) = found {
                            assert(es[i as int].0 == k);
                        } else {
                            assert(es[old_es.len() as int].0 == k);
                        }
                    }
                }
                assert forall|q: Seq<char>| #[trigger] es_map(es).contains_key(q) implies es_map(es)[q]
                    == es_map(old_es).insert(k, nv)[q] by {
                    lemma_es_find(es, q);
                    lemma_es_find(old_es, q);
                    let j = es_find(es, q)->0;
                    if q != k {
                        if j < old_es.len() && (found matches Some(i) ==> j != i) {
                            assert(old_es[j] == es[j]);
                            lemma_es_find_unique(old_es, j);
                        } else {
                            if let Some(i) = found {
                                assert(j == i);
                                assert(es[j].0 == k);
                            } else {
                                assert(es[j].0 == k);
                            }
                        }
                    } else {
                        if let Some(i) = found {
                            lemma_es_find_unique(es, i as int);
                        } else {
                            lemma_es_find_unique(es, old_es.len() as int);
                        }
                    }
                }
            }
        }
        self.nodes = nodes;
    }

    /// Removes and returns the node stored under the canonical key `key`;
    /// the other entries keep their order.
    pub fn remove_key(&mut self, key: &Vec<char>) -> (r: Option<FsNode>)
        ensures
            final(self).ev() == es_del(old(self).ev(), key@),
            final(self)@ == old(self)@.remove(key@),
            match r {
                Some(n) => es_has(old(self).ev(), key@) && n@ == es_get(old(self).ev(), key@)
                    && old(self)@.contains_key(key@) && n@ == old(self)@[key@],
                None => !es_has(old(self).ev(), key@) && !old(self)@.contains_key(key@),
            },
    {
        proof {
            use_type_invariant(&*self);
            lemma_es_map(self.ev());
        }
        let ghost old_es = self.ev();
        match self.index_of(key) {
            Some(i) => {
                let mut nodes: Vec<(Vec<char>, FsNode)> = Vec::new();
                std::mem::swap(&mut nodes, &mut self.nodes);
                let (_, n) = nodes.remove(i);
                proof {
                    lemma_es_find(old_es, key@);
                    let es = entries_view(nodes@);
                    assert(es =~= old_es.remove(i as int));
                    assert forall|a: int| 0 <= a < es.len() implies #[trigger] es[a] == (if a < i {
                        old_es[a]
                    } else {
                        old_es[a + 1]
                    }) by {}
                    assert(es_unique(es)) by {
                        assert forall|a: int, b: int| 0 <= a < b < es.len() implies es[a].0 != es[b].0 by {
                            let aa = if a < i { a } else { a + 1 };
                            let bb = if b < i { b } else { b + 1 };
                            assert(es[a] == old_es[aa]);
                            assert(es[b] == old_es[bb]);
                        }
                    }
                    assert(es_canon(es)) by {
                        assert forall|a: int| 0 <= a < es.len() implies canon(#[trigger] es[a].0) == es[a].0 by {
                            let aa = if a < i { a } else { a + 1 };
                            assert(es[a] == old_es[aa]);
                        }
                    }
                    lemma_es_map(es);
                    assert(es_map(es) =~= es_map(old_es).remove(key@)) by {
                        assert forall|q: Seq<char>| #[trigger] es_map(es).contains_key(q)
                            <==> es_map(old_es).remove(key@).contains_key(q) by {
                            lemma_es_find(es, q);
                            lemma_es_find(old_es, q);
                            if es_has(es, q) {
                                let j = es_find(es, q)->0;
                                let jj = if j < i { j } else { j + 1 };
                                assert(es[j] == old_es[jj]);
                                assert(jj != i ==> old_es[jj].0 != old_es[i as int].0);
                            }
                            if es_has(old_es, q) && q != key@ {
                                let j = es_find(old_es, q)->0;
                                assert(j != i);
                                let jj = if j < i { j } else { j - 1 };
                                assert(es[jj] == old_es[j]);
                            }
                        }
                        assert forall|q: Seq<char>| #[trigger] es_map(es).contains_key(q) implies es_map(es)[q]
                            == es_map(old_es).remove(key@)[q] by {
                            lemma_es_find(es, q);
                            let j = es_find(es, q)->0;
                            let jj = if j < i { j } else { j + 1 };
                            assert(es[j] == old_es[jj]);
                            lemma_es_find_unique(old_es, jj);
                        }
                    }
                }
                self.nodes = nodes;
                Some(n)
            },
            None => {
                assert(es_map(old_es).remove(key@) =~= es_map(old_es));
                None
            },
        }
    }

    /// Removes every entry at or below `root`, returning them in order; the
    /// remaining entries keep their order.
    pub fn take_under(&mut self, root: &Vec<char>) -> (r: Vec<(Vec<char>, FsNode)>)
        ensures
            final(self).ev() == es_filter(old(self).ev(), outside_pred(root@)),
            entries_view(r@) == es_filter(old(self).ev(), under_pred(root@)),
            forall|k: Seq<char>| #[trigger] final(self)@.contains_key(k) <==> (old(self)@.contains_key(k) && !is_under(root@, k)),
            forall|k: Seq<char>| #[trigger] final(self)@.contains_key(k) ==> final(self)@[k] == old(self)@[k],
    {
        proof {
            use_type_invariant(&*self);
        }
        let ghost old_es = self.ev();
        let mut nodes: Vec<(Vec<char>, FsNode)> = Vec::new();
        std::mem::swap(&mut nodes, &mut self.nodes);
        let ghost n0 = nodes@;
        // consume from the back, collecting in reverse, then restore order
        let mut rk: Vec<(Vec<char>, FsNode)> = Vec::new();
        let mut rt: Vec<(Vec<char>, FsNode)> = Vec::new();
        while nodes.len() > 0
            invariant
                entries_view(n0) == old_es,
                nodes@ == n0.take(nodes@.len() as int),
                nodes@.len() <= n0.len(),
                es_filter(old_es, outside_pred(root@)) == es_filter(entries_view(nodes@), outside_pred(root@)) + entries_view(rk@).reverse(),
                es_filter(old_es, under_pred(root@)) == es_filter(entries_view(nodes@), under_pred(root@)) + entries_view(rt@).reverse(),
            decreases nodes.len(),
        {
            let ghost pre = nodes@;
            let e = nodes.pop().unwrap();
            proof {
                assert(entries_view(pre).drop_last() =~= entries_view(nodes@));
                assert(entries_view(pre).last() == (e.0@, e.1@));
                assert(nodes@ =~= n0.take(nodes@.len() as int));
            }
            let ghost rt0 = rt@;
            let ghost rk0 = rk@;
            if is_under_exec(root, &e.0) {
                rt.push(e);
                assert(entries_view(rt@).reverse() =~= seq![(e.0@, e.1@)] + entries_view(rt0).reverse());
                assert(es_filter(entries_view(pre), under_pred(root@)) == es_filter(entries_view(nodes@), under_pred(root@)).push((e.0@, e.1@)));
                assert(es_filter(entries_view(nodes@), under_pred(root@)).push((e.0@, e.1@)) + entries_view(rt0).reverse()
                    =~= es_filter(entries_view(nodes@), under_pred(root@)) + entries_view(rt@).reverse());
            } else {
                rk.push(e);
                assert(entries_view(rk@).reverse() =~= seq![(e.0@, e.1@)] + entries_view(rk0).reverse());
                assert(es_filter(entries_view(pre), outside_pred(root@)) == es_filter(entries_view(nodes@), outside_pred(root@)).push((e.0@, e.1@)));
                assert(es_filter(entries_view(nodes@), outside_pred(root@)).push((e.0@, e.1@)) + entries_view(rk0).reverse()
                    =~= es_filter(entries_view(nodes@), outside_pred(root@)) + entries_view(rk@).reverse());
            }
        }
        assert(entries_view(nodes@) =~= Seq::<(Seq<char>, NodeV)>::empty());
        assert(es_filter(entries_view(nodes@), outside_pred(root@)) =~= Seq::<(Seq<char>, NodeV)>::empty());
        assert(es_filter(entries_view(nodes@), under_pred(root@)) =~= Seq::<(Seq<char>, NodeV)>::empty());
        let keep = reversed(rk);
        let taken = reversed(rt);
        assert(entries_view(keep@) =~= es_filter(old_es, outside_pred(root@)));
        assert(entries_view(taken@) =~= es_filter(old_es, under_pred(root@)));
        proof {
            lemma_es_filter(old_es, outside_pred(root@));
        }
        self.nodes = keep;
        taken
    }

    /// Replaces the provenance shadow of the node under `key` with `m`.
    /// Copies of the entries at or below `root`, in order.
    pub fn clone_under(&self, root: &Vec<char>) -> (r: Vec<(Vec<char>, FsNode)>)
        ensures
            entries_view(r@) == es_filter(self.ev(), under_pred(root@)),
    {
        let ghost es = self.ev();
        let mut r: Vec<(Vec<char>, FsNode)> = Vec::new();
        let mut i: usize = 0;
        while i < self.nodes.len()
            invariant
                i <= self.nodes@.len(),
                es == self.ev(),
                entries_view(r@) == es_filter(es.take(i as int), under_pred(root@)),
            decreases self.nodes.len() - i,
        {
            let entry = &self.nodes[i];
            let ghost r0 = r@;
            assert(es.take(i + 1).drop_last() =~= es.take(i as int));
            assert(es.take(i + 1).last() == (entry.0@, entry.1@));
            if is_under_exec(root, &entry.0) {
                let k = copy_chars(&entry.0);
                let n = entry.1.dup();
                r.push((k, n));
                assert(entries_view(r@) =~= entries_view(r0).push((entry.0@, entry.1@)));
            }
            i = i + 1;
        }
        assert(es.take(self.nodes@.len() as int) =~= es);
        r
    }

    pub fn set_shadow(&mut self, key: &Vec<char>, m: MountInfo)
        ensures
            final(self).ev() == (match es_find(old(self).ev(), key@) {
                Some(i) => old(self).ev().update(i, (key@, es_get(old(self).ev(), key@).with_prov(
                    ProvV { shadowed_by_mount: Some(m@), ..es_get(old(self).ev(), key@).prov() },
                ))),
                None => old(self).ev(),
            }),
    {
        proof {
            use_type_invariant(&*self);
        }
        let ghost old_es = self.ev();
        match self.index_of(key) {
            Some(i) => {
                let mut nodes: Vec<(Vec<char>, FsNode)> = Vec::new();
                std::mem::swap(&mut nodes, &mut self.nodes);
                let (k, mut n) = nodes.remove(i);
                let ghost nv = n@;
                match &mut n {
                    FsNode::File(f) => {
                        f.provenance.shadowed_by_mount = Some(m);
                    },
                    FsNode::Directory(d) => {
                        d.provenance.shadowed_by_mount = Some(m);
                    },
                    FsNode::Symlink(s) => {
                        s.provenance.shadowed_by_mount = Some(m);
                    },
                }
                nodes.insert(i, (k, n));
                proof {
                    lemma_es_find(old_es, key@);
                    let es = entries_view(nodes@);
                    assert(n@ == nv.with_prov(ProvV { shadowed_by_mount: Some(m@), ..nv.prov() }));
                    assert(es =~= old_es.update(i as int, (key@, n@)));
                    assert(es_unique(es)) by {
                        assert forall|a: int, b: int| 0 <= a < b < es.len() implies es[a].0 != es[b].0 by {
                            assert(a != i ==> es[a] == old_es[a]);
                            assert(b != i ==> es[b] == old_es[b]);
                        }
                    }
                    assert(es_canon(es)) by {
                        assert forall|a: int| 0 <= a < es.len() implies canon(#[trigger] es[a].0) == es[a].0 by {
                            assert(a != i ==> es[a] == old_es[a]);
                        }
                    }
                }
                self.nodes = nodes;
            },
            None => {},
        }
    }

    /// Inserts `node` at `path`, overwriting any node already there.
    pub fn insert(&mut self, path: String, node: FsNode)
        ensures
            final(self)@ == old(self)@.insert(canon(path@), node@),
    {
        let v = chars_of(path.as_str());
        let k = canon_exec(&v);
        proof {
            crate::path::lemma_canon_idempotent(v@);
        }
        self.insert_key(k, node);
        proof {
            use_type_invariant(&*self);
            lemma_es_map(self.ev());
        }
    }

    /// The node at `path`, if any.
    pub fn get(&self, path: &str) -> (r: Option<&FsNode>)
        ensures
            match r {
                Some(n) => self@.contains_key(canon(path@)) && n@ == self@[canon(path@)],
                None => !self@.contains_key(canon(path@)),
            },
    {
        let v = chars_of(path);
        let k = canon_exec(&v);
        self.get_key(&k)
    }

    /// Whether a node exists at `path`.
    pub fn contains(&self, path: &str) -> (b: bool)
        ensures
            b == self@.contains_key(canon(path@)),
    {
        let v = chars_of(path);
        let k = canon_exec(&v);
        self.contains_key(&k)
    }

    /// Removes and returns the node at `path`.
    pub fn remove(&mut self, path: &str) -> (r: Option<FsNode>)
        ensures
            final(self)@ == old(self)@.remove(canon(path@)),
            match r {
                Some(n) => old(self)@.contains_key(canon(path@)) && n@ == old(self)@[canon(path@)],
                None => !old(self)@.contains_key(canon(path@)),
            },
    {
        let v = chars_of(path);
        let k = canon_exec(&v);
        self.remove_key(&k)
    }

    /// The direct children of `dir`, each paired with its node, in insertion
    /// order.
    pub fn list_dir(&self, dir: &str) -> (r: Vec<(String, &FsNode)>)
        ensures
            Seq::new(r@.len(), |i: int| (r@[i].0@, r@[i].1@)) == es_filter(self.ev(), child_pred(dir@)),
            forall|i: int|
                0 <= i < r@.len() ==> {
                    &&& is_direct_child(dir@, (#[trigger] r@[i]).0@)
                    &&& self@.contains_key(r@[i].0@)
                    &&& r@[i].1@ == self@[r@[i].0@]
                },
            forall|k: Seq<char>|
                #![trigger self@.contains_key(k)]
                self@.contains_key(k) && is_direct_child(dir@, k) ==> exists|i: int|
                    0 <= i < r@.len() && (#[trigger] r@[i]).0@ == k,
            forall|i: int, j: int| 0 <= i < j < r@.len() ==> r@[i].0@ != r@[j].0@,
    {
        proof {
            use_type_invariant(self);
        }
        let ghost es = self.ev();
        let d = chars_of(dir);
        let mut r: Vec<(String, &FsNode)> = Vec::new();
        let mut i: usize = 0;
        while i < self.nodes.len()
            invariant
                i <= self.nodes@.len(),
                d@ == dir@,
                es == self.ev(),
                Seq::new(r@.len(), |a: int| (r@[a].0@, r@[a].1@)) == es_filter(es.take(i as int), child_pred(dir@)),
            decreases self.nodes.len() - i,
        {
            let entry = &self.nodes[i];
            let ghost r0 = r@;
            assert(es.take(i + 1).drop_last() =~= es.take(i as int));
            assert(es.take(i + 1).last() == (entry.0@, entry.1@));
            if is_direct_child_exec(&d, &entry.0) {
                let name = string_of(&entry.0);
                r.push((name, &entry.1));
                assert(Seq::new(r@.len(), |a: int| (r@[a].0@, r@[a].1@)) =~= Seq::new(r0.len(), |a: int| (r0[a].0@, r0[a].1@)).push((entry.0@, entry.1@)));
            }
            i = i + 1;
        }
        assert(es.take(self.nodes@.len() as int) =~= es);
        proof {
            let f = es_filter(es, child_pred(dir@));
            let rv = Seq::new(r@.len(), |a: int| (r@[a].0@, r@[a].1@));
            lemma_es_filter(es, child_pred(dir@));
            lemma_es_map(f);
            lemma_es_map_keys(f);
            lemma_es_map(es);
            assert forall|a: int| 0 <= a < r@.len() implies {
                &&& is_direct_child(dir@, (#[trigger] r@[a]).0@)
                &&& self@.contains_key(r@[a].0@)
                &&& r@[a].1@ == self@[r@[a].0@]
            } by {
                assert(rv[a] == f[a]);
                assert(es_map(f).contains_key(f[a].0));
                lemma_es_find_unique(f, a);
            }
            assert forall|k: Seq<char>|
                #![trigger self@.contains_key(k)]
                self@.contains_key(k) && is_direct_child(dir@, k) implies exists|a: int|
                    0 <= a < r@.len() && (#[trigger] r@[a]).0@ == k by {
                assert(es_map(f).contains_key(k));
                let a = choose|a: int| 0 <= a < f.len() && f[a].0 == k;
                assert(rv[a] == f[a]);
            }
            assert forall|a: int, b: int| 0 <= a < b < r@.len() implies r@[a].0@ != r@[b].0@ by {
                assert(rv[a] == f[a]);
                assert(rv[b] == f[b]);
            }
        }
        r
    }

    /// The (path, node) entries in insertion order: one per stored path.
    pub fn entries(&self) -> (r: &Vec<(Vec<char>, FsNode)>)
        ensures
            entries_view(r@) == self.ev(),
            es_unique(self.ev()),
            es_canon(self.ev()),
            self@.dom().finite(),
            r@.len() == self@.dom().len(),
    {
        proof {
            use_type_invariant(self);
            lemma_es_map(self.ev());
        }
        &self.nodes
    }

    /// The (path, node) entries in insertion order: one per stored path.
    pub fn iter(&self) -> (r: std::slice::Iter<'_, (Vec<char>, FsNode)>)
        ensures
            entries_view(vstd::std_specs::slice::into_iter_elts(r)) == self.ev(),
            self@.dom().finite(),
            vstd::std_specs::slice::into_iter_elts(r).len() == self@.dom().len(),
    {
        proof {
            use_type_invariant(self);
            lemma_es_map(self.ev());
        }
        let sl = self.nodes.as_slice();
        let r = sl.iter();
        proof {
            vstd::std_specs::slice::axiom_spec_slice_iter(sl);
            assert(vstd::std_specs::slice::into_iter_elts(r) =~= self.nodes@);
        }
        r
    }
}

} // verus!
