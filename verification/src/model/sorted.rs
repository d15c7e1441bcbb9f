//! An ordered map from string keys to values, kept sorted by key.
//!
//! Keys are ordered by comparing their characters' code points, which is
//! the order `String`'s `Ord` gives for UTF-8 text.

use vstd::prelude::*;
use crate::text::{chars_of, lemma_sviews_push, sviews};

verus! {

/// Strict lexicographic order on character sequences (by code point).
pub open spec fn lex_lt(a: Seq<char>, b: Seq<char>) -> bool
    decreases a.len(),
{
    if a.len() == 0 {
        b.len() > 0
    } else if b.len() == 0 {
        false
    } else if a[0] != b[0] {
        a[0] < b[0]
    } else {
        lex_lt(a.drop_first(), b.drop_first())
    }
}

pub proof fn lemma_lex_irrefl(a: Seq<char>)
    ensures
        !lex_lt(a, a),
    decreases a.len(),
{
    if a.len() > 0 {
        lemma_lex_irrefl(a.drop_first());
    }
}

pub proof fn lemma_lex_trans(a: Seq<char>, b: Seq<char>, c: Seq<char>)
    requires
        lex_lt(a, b),
        lex_lt(b, c),
    ensures
        lex_lt(a, c),
    decreases a.len(),
{
    if a.len() > 0 && b.len() > 0 && c.len() > 0 {
        if a[0] == b[0] && b[0] == c[0] {
            lemma_lex_trans(a.drop_first(), b.drop_first(), c.drop_first());
        }
    }
}

pub proof fn lemma_lex_total(a: Seq<char>, b: Seq<char>)
    ensures
        a == b || lex_lt(a, b) || lex_lt(b, a),
    decreases a.len(),
{
    if a.len() > 0 && b.len() > 0 && a[0] == b[0] {
        lemma_lex_total(a.drop_first(), b.drop_first());
        if a.drop_first() == b.drop_first() {
            assert(a =~= seq![a[0]] + a.drop_first());
            assert(b =~= seq![b[0]] + b.drop_first());
        }
    } else if a.len() == 0 && b.len() == 0 {
        assert(a =~= b);
    }
}

pub proof fn lemma_lex_asym(a: Seq<char>, b: Seq<char>)
    requires
        lex_lt(a, b),
    ensures
        !lex_lt(b, a),
{
    if lex_lt(b, a) {
        lemma_lex_trans(a, b, a);
        lemma_lex_irrefl(a);
    }
}

/// The result of comparing two keys.
pub enum KeyOrder {
    Less,
    Equal,
    Greater,
}

/// Compares `a` and `b` in code-point lexicographic order.
pub fn compare_chars(a: &Vec<char>, b: &Vec<char>) -> (r: KeyOrder)
    ensures
        r is Less <==> lex_lt(a@, b@),
        r is Equal <==> a@ == b@,
        r is Greater <==> lex_lt(b@, a@),
{
    let mut i: usize = 0;
    while i < a.len() && i < b.len() && a[i] == b[i]
        invariant
            i <= a.len(),
            i <= b.len(),
            a@.take(i as int) == b@.take(i as int),
        decreases a.len() - i,
    {
        assert(a@.take(i + 1) =~= a@.take(i as int).push(a@[i as int]));
        assert(b@.take(i + 1) =~= b@.take(i as int).push(b@[i as int]));
        i = i + 1;
    }
    proof {
        lemma_lex_skip(a@, b@, i as int);
        lemma_lex_total(a@, b@);
        lemma_lex_irrefl(a@);
        if lex_lt(a@, b@) {
            lemma_lex_asym(a@, b@);
        }
    }
    if i == a.len() && i == b.len() {
        assert(a@ =~= a@.take(i as int));
        assert(b@ =~= b@.take(i as int));
        KeyOrder::Equal
    } else if i == a.len() {
        KeyOrder::Less
    } else if i == b.len() {
        KeyOrder::Greater
    } else if a[i] < b[i] {
        KeyOrder::Less
    } else {
        KeyOrder::Greater
    }
}

/// Comparing after a common prefix of length `i`.
proof fn lemma_lex_skip(a: Seq<char>, b: Seq<char>, i: int)
    requires
        0 <= i <= a.len(),
        i <= b.len(),
        a.take(i) == b.take(i),
    ensures
        lex_lt(a, b) == lex_lt(a.skip(i), b.skip(i)),
    decreases i,
{
    if i > 0 {
        assert(a[0] == a.take(i)[0]);
        assert(b[0] == b.take(i)[0]);
        assert(a.drop_first().take(i - 1) =~= a.take(i).drop_first());
        assert(b.drop_first().take(i - 1) =~= b.take(i).drop_first());
        lemma_lex_skip(a.drop_first(), b.drop_first(), i - 1);
        assert(a.drop_first().skip(i - 1) =~= a.skip(i));
        assert(b.drop_first().skip(i - 1) =~= b.skip(i));
    } else {
        assert(a.skip(0) =~= a);
        assert(b.skip(0) =~= b);
    }
}

/// The map held by a sequence of (key, value) entries.
pub open spec fn kv_map<V>(s: Seq<(String, V)>) -> Map<Seq<char>, V>
    decreases s.len(),
{
    if s.len() == 0 {
        Map::empty()
    } else {
        kv_map(s.drop_last()).insert(s.last().0@, s.last().1)
    }
}

/// Keys strictly increase along the sequence.
pub open spec fn kv_sorted<V>(s: Seq<(String, V)>) -> bool {
    forall|i: int, j: int| 0 <= i < j < s.len() ==> lex_lt(s[i].0@, s[j].0@)
}

pub proof fn lemma_kv_map<V>(s: Seq<(String, V)>)
    requires
        kv_sorted(s),
    ensures
        forall|i: int|
            0 <= i < s.len() ==> kv_map(s).contains_key(#[trigger] s[i].0@) && kv_map(s)[s[i].0@]
                == s[i].1,
        forall|k: Seq<char>|
            kv_map(s).contains_key(k) ==> exists|i: int| 0 <= i < s.len() && #[trigger] s[i].0@ == k,
        kv_map(s).dom().finite(),
        kv_map(s).dom().len() == s.len(),
    decreases s.len(),
{
    if s.len() > 0 {
        let t = s.drop_last();
        lemma_kv_map(t);
        assert forall|i: int| 0 <= i < s.len() implies kv_map(s).contains_key(#[trigger] s[i].0@)
            && kv_map(s)[s[i].0@] == s[i].1 by {
            if i < s.len() - 1 {
                assert(t[i] == s[i]);
                assert(lex_lt(s[i].0@, s[s.len() - 1].0@));
                lemma_lex_irrefl(s[i].0@);
            }
        }
        assert forall|k: Seq<char>| kv_map(s).contains_key(k) implies exists|i: int|
            0 <= i < s.len() && #[trigger] s[i].0@ == k by {
            if k == s.last().0@ {
                assert(s[s.len() - 1].0@ == k);
            } else {
                let i = choose|i: int| 0 <= i < t.len() && #[trigger] t[i].0@ == k;
                assert(s[i] == t[i]);
            }
        }
        assert(!kv_map(t).contains_key(s.last().0@)) by {
            if kv_map(t).contains_key(s.last().0@) {
                let i = choose|i: int| 0 <= i < t.len() && #[trigger] t[i].0@ == s.last().0@;
                assert(lex_lt(s[i].0@, s[s.len() - 1].0@));
                lemma_lex_irrefl(s[i].0@);
            }
        }
    }
}

/// A map from string keys to values, ordered by key.
#[derive(Debug, PartialEq)]
pub struct SortedMap<V> {
    entries: Vec<(String, V)>,
}

impl<V: Clone> Clone for SortedMap<V> {
    /// A copy holding the same keys (each value cloned).
    fn clone(&self) -> (r: Self)
        ensures
            r@.dom() == self@.dom(),
    {
        proof {
            use_type_invariant(self);
            lemma_kv_map(self.entries@);
        }
        let mut entries: Vec<(String, V)> = Vec::new();
        let mut i: usize = 0;
        while i < self.entries.len()
            invariant
                i <= self.entries@.len(),
                entries@.len() == i,
                forall|j: int| 0 <= j < i ==> (#[trigger] entries@[j]).0 == self.entries@[j].0,
            decreases self.entries.len() - i,
        {
            let k = self.entries[i].0.clone();
            let v = self.entries[i].1.clone();
            entries.push((k, v));
            i = i + 1;
        }
        proof {
            assert(kv_sorted(entries@)) by {
                assert forall|a: int, b: int| 0 <= a < b < entries@.len() implies lex_lt(
                    entries@[a].0@,
                    entries@[b].0@,
                ) by {
                    assert(entries@[a].0 == self.entries@[a].0);
                    assert(entries@[b].0 == self.entries@[b].0);
                }
            }
            lemma_kv_map(entries@);
            assert(kv_map(entries@).dom() =~= kv_map(self.entries@).dom()) by {
                assert forall|k: Seq<char>| kv_map(entries@).dom().contains(k) implies kv_map(
                    self.entries@,
                ).dom().contains(k) by {
                    let j = choose|j: int| 0 <= j < entries@.len() && #[trigger] entries@[j].0@ == k;
                    assert(self.entries@[j].0@ == k);
                }
                assert forall|k: Seq<char>| kv_map(self.entries@).dom().contains(k) implies kv_map(
                    entries@,
                ).dom().contains(k) by {
                    let j = choose|j: int|
                        0 <= j < self.entries@.len() && #[trigger] self.entries@[j].0@ == k;
                    assert(entries@[j].0@ == k);
                }
            }
        }
        SortedMap { entries }
    }
}

impl<V> View for SortedMap<V> {
    type V = Map<Seq<char>, V>;

    closed spec fn view(&self) -> Map<Seq<char>, V> {
        kv_map(self.entries@)
    }
}

impl<V> SortedMap<V> {
    /// The keys in increasing order.
    pub closed spec fn key_seq(&self) -> Seq<Seq<char>> {
        Seq::new(self.entries@.len(), |i: int| self.entries@[i].0@)
    }

    #[verifier::type_invariant]
    closed spec fn inv(self) -> bool {
        kv_sorted(self.entries@)
    }

    /// Creates an empty map.
    pub fn new() -> (m: Self)
        ensures
            m@ == Map::<Seq<char>, V>::empty(),
    {
        SortedMap { entries: Vec::new() }
    }

    /// The position where `key` is or would be inserted.
    fn position(&self, key: &Vec<char>) -> (r: (usize, bool))
        ensures
            r.0 <= self.entries@.len(),
            forall|j: int| 0 <= j < r.0 ==> lex_lt(#[trigger] self.entries@[j].0@, key@),
            r.1 ==> r.0 < self.entries@.len() && self.entries@[r.0 as int].0@ == key@,
            !r.1 ==> forall|j: int|
                r.0 <= j < self.entries@.len() ==> lex_lt(key@, #[trigger] self.entries@[j].0@),
    {
        proof {
            use_type_invariant(self);
        }
        let mut i: usize = 0;
        while i < self.entries.len()
            invariant
                kv_sorted(self.entries@),
                i <= self.entries@.len(),
                forall|j: int| 0 <= j < i ==> lex_lt(#[trigger] self.entries@[j].0@, key@),
            decreases self.entries.len() - i,
        {
            let k = chars_of(self.entries[i].0.as_str());
            match compare_chars(&k, key) {
                KeyOrder::Less => {
                    i = i + 1;
                },
                KeyOrder::Equal => {
                    return (i, true);
                },
                KeyOrder::Greater => {
                    proof {
                        assert forall|j: int| i <= j < self.entries@.len() implies lex_lt(
                            key@,
                            #[trigger] self.entries@[j].0@,
                        ) by {
                            if j > i {
                                lemma_lex_trans(key@, self.entries@[i as int].0@, self.entries@[j].0@);
                            }
                        }
                    }
                    return (i, false);
                },
            }
        }
        (i, false)
    }

    /// The value stored under `key`.
    pub fn get(&self, key: &str) -> (r: Option<&V>)
        ensures
            match r {
                Some(v) => self@.contains_key(key@) && *v == self@[key@],
                None => !self@.contains_key(key@),
            },
    {
        let k = chars_of(key);
        self.get_chars(&k)
    }

    /// The value stored under the key spelled by `key`.
    pub fn get_chars(&self, key: &Vec<char>) -> (r: Option<&V>)
        ensures
            match r {
                Some(v) => self@.contains_key(key@) && *v == self@[key@],
                None => !self@.contains_key(key@),
            },
    {
        proof {
            use_type_invariant(self);
            lemma_kv_map(self.entries@);
        }
        let (i, found) = self.position(key);
        if found {
            Some(&self.entries[i].1)
        } else {
            proof {
                if self@.contains_key(key@) {
                    let j = choose|j: int|
                        0 <= j < self.entries@.len() && #[trigger] self.entries@[j].0@ == key@;
                    if j < i {
                        lemma_lex_irrefl(key@);
                    } else {
                        lemma_lex_irrefl(key@);
                    }
                }
            }
            None
        }
    }

    /// Whether a value is stored under `key`.
    pub fn contains_key(&self, key: &str) -> (b: bool)
        ensures
            b == self@.contains_key(key@),
    {
        self.get(key).is_some()
    }

    /// Stores `value` under `key`, replacing any value there.
    pub fn insert(&mut self, key: String, value: V)
        ensures
            final(self)@ == old(self)@.insert(key@, value),
    {
        proof {
            use_type_invariant(&*self);
        }
        let ghost old_e = self.entries@;
        let ghost k = key@;
        proof {
            lemma_kv_map(old_e);
        }
        let kc = chars_of(key.as_str());
        let (i, found) = self.position(&kc);
        let mut entries: Vec<(String, V)> = Vec::new();
        std::mem::swap(&mut entries, &mut self.entries);
        if found {
            entries.set(i, (key, value));
            proof {
                let s = entries@;
                assert(kv_sorted(s)) by {
                    assert forall|a: int, b: int| 0 <= a < b < s.len() implies lex_lt(
                        s[a].0@,
                        s[b].0@,
                    ) by {
                        assert(a != i ==> s[a] == old_e[a]);
                        assert(b != i ==> s[b] == old_e[b]);
                    }
                }
                lemma_kv_map(s);
                assert(kv_map(s) =~= kv_map(old_e).insert(k, value)) by {
                    assert forall|q: Seq<char>| #[trigger] kv_map(s).contains_key(q)
                        <==> kv_map(old_e).insert(k, value).contains_key(q) by {
                        if kv_map(s).contains_key(q) {
                            let j = choose|j: int| 0 <= j < s.len() && #[trigger] s[j].0@ == q;
                            if j != i {
                                assert(old_e[j] == s[j]);
                            }
                        }
                        if kv_map(old_e).contains_key(q) && q != k {
                            let j = choose|j: int| 0 <= j < old_e.len() && #[trigger] old_e[j].0@ == q;
                            assert(s[j] == old_e[j]);
                        }
                        if q == k {
                            assert(s[i as int].0@ == k);
                        }
                    }
                    assert forall|q: Seq<char>| #[trigger] kv_map(s).contains_key(q) implies kv_map(
                        s,
                    )[q] == kv_map(old_e).insert(k, value)[q] by {
                        let j = choose|j: int| 0 <= j < s.len() && #[trigger] s[j].0@ == q;
                        if j != i {
                            assert(old_e[j] == s[j]);
                            assert(s[i as int].0@ == k);
                            if j < i {
                                assert(lex_lt(s[j].0@, s[i as int].0@));
                            } else {
                                assert(lex_lt(s[i as int].0@, s[j].0@));
                            }
                            lemma_lex_irrefl(q);
                            assert(q != k);
                            assert(kv_map(s)[q] == s[j].1);
                            assert(kv_map(old_e)[q] == old_e[j].1);
                        } else {
                            assert(s[j] == (key, value));
                            assert(q == k);
                            assert(kv_map(old_e).insert(k, value)[q] == value);
                        }
                    }
                }
            }
        } else {
            entries.insert(i, (key, value));
            proof {
                let s = entries@;
                assert(s =~= old_e.insert(i as int, (key, value)));
                assert forall|a: int| 0 <= a < s.len() implies #[trigger] s[a] == (if a < i {
                    old_e[a]
                } else if a == i {
                    (key, value)
                } else {
                    old_e[a - 1]
                }) by {}
                assert(kv_sorted(s)) by {
                    assert forall|a: int, b: int| 0 <= a < b < s.len() implies lex_lt(
                        s[a].0@,
                        s[b].0@,
                    ) by {
                        if a < i && b == i {
                        } else if a < i && b > i {
                            assert(s[b] == old_e[b - 1]);
                        } else if a == i && b > i {
                            assert(s[b] == old_e[b - 1]);
                        } else if a > i {
                            assert(s[a] == old_e[a - 1]);
                            assert(s[b] == old_e[b - 1]);
                        }
                    }
                }
                lemma_kv_map(s);
                assert(kv_map(s) =~= kv_map(old_e).insert(k, value)) by {
                    assert forall|q: Seq<char>| #[trigger] kv_map(s).contains_key(q)
                        <==> kv_map(old_e).insert(k, value).contains_key(q) by {
                        if kv_map(s).contains_key(q) {
                            let j = choose|j: int| 0 <= j < s.len() && #[trigger] s[j].0@ == q;
                            if j < i {
                                assert(old_e[j] == s[j]);
                            } else if j > i {
                                assert(old_e[j - 1] == s[j]);
                            }
                        }
                        if kv_map(old_e).contains_key(q) && q != k {
                            let j = choose|j: int| 0 <= j < old_e.len() && #[trigger] old_e[j].0@ == q;
                            if j < i {
                                assert(s[j] == old_e[j]);
                            } else {
                                assert(s[j + 1] == old_e[j]);
                            }
                        }
                        if q == k {
                            assert(s[i as int].0@ == k);
                        }
                    }
                    assert forall|q: Seq<char>| #[trigger] kv_map(s).contains_key(q) implies kv_map(
                        s,
                    )[q] == kv_map(old_e).insert(k, value)[q] by {
                        let j = choose|j: int| 0 <= j < s.len() && #[trigger] s[j].0@ == q;
                        if j < i {
                            assert(old_e[j] == s[j]);
                            lemma_lex_irrefl(k);
                            assert(q != k);
                        } else if j > i {
                            assert(old_e[j - 1] == s[j]);
                            lemma_lex_irrefl(k);
                            assert(q != k);
                        }
                    }
                }
            }
        }
        self.entries = entries;
    }

    /// The number of keys.
    pub fn len(&self) -> (n: usize)
        ensures
            n == self@.dom().len(),
    {
        proof {
            use_type_invariant(self);
            lemma_kv_map(self.entries@);
        }
        self.entries.len()
    }

    /// Whether the map holds no key.
    pub fn is_empty(&self) -> (b: bool)
        ensures
            b == (self@.dom().len() == 0),
    {
        proof {
            use_type_invariant(self);
            lemma_kv_map(self.entries@);
        }
        self.entries.len() == 0
    }

    /// The keys, in increasing order.
    pub fn keys(&self) -> (r: Vec<String>)
        ensures
            sviews(r@) == self.key_seq(),
    {
        let mut r: Vec<String> = Vec::new();
        let mut i: usize = 0;
        while i < self.entries.len()
            invariant
                i <= self.entries@.len(),
                sviews(r@) == self.key_seq().take(i as int),
            decreases self.entries.len() - i,
        {
            let k = self.entries[i].0.clone();
            proof {
                lemma_sviews_push(r@, k);
            }
            r.push(k);
            i = i + 1;
            assert(self.key_seq().take(i as int) =~= self.key_seq().take(i - 1).push(k@));
        }
        assert(self.key_seq().take(self.entries@.len() as int) =~= self.key_seq());
        r
    }

    /// The (key, value) entries in increasing key order.
    pub fn entries(&self) -> (r: &Vec<(String, V)>)
        ensures
            r@.len() == self.key_seq().len(),
            forall|i: int| 0 <= i < r@.len() ==> (#[trigger] r@[i]).0@ == self.key_seq()[i],
            kv_sorted(r@),
            kv_map(r@) == self@,
            forall|i: int|
                0 <= i < r@.len() ==> self@.contains_key((#[trigger] r@[i]).0@) && self@[r@[i].0@]
                    == r@[i].1,
    {
        proof {
            use_type_invariant(self);
            lemma_kv_map(self.entries@);
        }
        &self.entries
    }
}

impl SortedMap<String> {
    /// An identical copy of this map.
    pub fn dup(&self) -> (r: Self)
        ensures
            r@ == self@,
            r.key_seq() == self.key_seq(),
    {
        proof {
            use_type_invariant(self);
        }
        let mut es: Vec<(String, String)> = Vec::new();
        let mut i: usize = 0;
        while i < self.entries.len()
            invariant
                i <= self.entries@.len(),
                es@ == self.entries@.take(i as int),
            decreases self.entries.len() - i,
        {
            let k = self.entries[i].0.clone();
            let v = self.entries[i].1.clone();
            es.push((k, v));
            assert(es@ =~= self.entries@.take(i + 1));
            i = i + 1;
        }
        assert(es@ =~= self.entries@);
        SortedMap { entries: es }
    }
}

impl SortedMap<()> {
    /// An identical copy of this map.
    pub fn dup(&self) -> (r: Self)
        ensures
            r@ == self@,
            r.key_seq() == self.key_seq(),
    {
        proof {
            use_type_invariant(self);
        }
        let mut es: Vec<(String, ())> = Vec::new();
        let mut i: usize = 0;
        while i < self.entries.len()
            invariant
                i <= self.entries@.len(),
                es@ == self.entries@.take(i as int),
            decreases self.entries.len() - i,
        {
            let k = self.entries[i].0.clone();
            es.push((k, ()));
            let ghost e = self.entries@[i as int];
            assert(e == (e.0, e.1));
            assert(es@[i as int] == e);
            assert(es@ =~= self.entries@.take(i + 1));
            i = i + 1;
        }
        assert(es@ =~= self.entries@);
        SortedMap { entries: es }
    }
}

/// Strictly increasing in the order of `lex_lt`.
pub open spec fn strictly_sorted(q: Seq<Seq<char>>) -> bool {
    forall|i: int, j: int| 0 <= i < j < q.len() ==> lex_lt(q[i], q[j])
}

/// The members of `s`, in increasing order (for a finite `s`, the only
/// strictly increasing sequence holding exactly them).
pub open spec fn in_order(s: Set<Seq<char>>) -> Seq<Seq<char>> {
    choose|q: Seq<Seq<char>>| strictly_sorted(q) && forall|k: Seq<char>| s.contains(k) <==> q.contains(k)
}

/// Two strictly increasing sequences with the same members are equal.
pub proof fn lemma_sorted_unique(a: Seq<Seq<char>>, b: Seq<Seq<char>>)
    requires
        strictly_sorted(a),
        strictly_sorted(b),
        forall|k: Seq<char>| a.contains(k) <==> b.contains(k),
    ensures
        a == b,
    decreases a.len(),
{
    if a.len() == 0 {
        if b.len() > 0 {
            assert(b.contains(b[0]));
        }
        assert(a =~= b);
    } else {
        assert(a.contains(a[0]));
        assert(b.len() > 0);
        assert(b.contains(b[0]));
        let ia = choose|i: int| 0 <= i < a.len() && a[i] == b[0];
        let ib = choose|i: int| 0 <= i < b.len() && b[i] == a[0];
        if a[0] != b[0] {
            if ia > 0 {
                assert(lex_lt(a[0], a[ia]));
            }
            if ib > 0 {
                assert(lex_lt(b[0], b[ib]));
            }
            lemma_lex_asym(a[0], b[0]);
        }
        let ta = a.drop_first();
        let tb = b.drop_first();
        assert forall|k: Seq<char>| ta.contains(k) <==> tb.contains(k) by {
            if ta.contains(k) {
                let i = choose|i: int| 0 <= i < ta.len() && ta[i] == k;
                assert(a[i + 1] == k);
                assert(lex_lt(a[0], k));
                lemma_lex_irrefl(k);
                assert(b.contains(k));
                let j = choose|j: int| 0 <= j < b.len() && b[j] == k;
                assert(j != 0);
                assert(tb[j - 1] == k);
            }
            if tb.contains(k) {
                let i = choose|i: int| 0 <= i < tb.len() && tb[i] == k;
                assert(b[i + 1] == k);
                assert(lex_lt(b[0], k));
                lemma_lex_irrefl(k);
                assert(a.contains(k));
                let j = choose|j: int| 0 <= j < a.len() && a[j] == k;
                assert(j != 0);
                assert(ta[j - 1] == k);
            }
        }
        assert(strictly_sorted(ta)) by {
            assert forall|i: int, j: int| 0 <= i < j < ta.len() implies lex_lt(ta[i], ta[j]) by {
                assert(ta[i] == a[i + 1] && ta[j] == a[j + 1]);
            }
        }
        assert(strictly_sorted(tb)) by {
            assert forall|i: int, j: int| 0 <= i < j < tb.len() implies lex_lt(tb[i], tb[j]) by {
                assert(tb[i] == b[i + 1] && tb[j] == b[j + 1]);
            }
        }
        lemma_sorted_unique(ta, tb);
        assert(a =~= seq![a[0]] + ta);
        assert(b =~= seq![b[0]] + tb);
    }
}

/// A strictly increasing sequence holding exactly the members of `s` is
/// `in_order(s)`.
pub proof fn lemma_in_order(s: Set<Seq<char>>, q: Seq<Seq<char>>)
    requires
        strictly_sorted(q),
        forall|k: Seq<char>| s.contains(k) <==> q.contains(k),
    ensures
        in_order(s) == q,
{
    let r = in_order(s);
    assert(strictly_sorted(r) && forall|k: Seq<char>| s.contains(k) <==> r.contains(k));
    lemma_sorted_unique(r, q);
}

/// Inserting a new member into a strictly increasing sequence, at its place.
proof fn lemma_insert_sorted(q: Seq<Seq<char>>, x: Seq<char>) -> (r: Seq<Seq<char>>)
    requires
        strictly_sorted(q),
        !q.contains(x),
    ensures
        strictly_sorted(r),
        forall|y: Seq<char>| r.contains(y) <==> q.contains(y) || y == x,
    decreases q.len(),
{
    if q.len() == 0 {
        let r = seq![x];
        assert(r[0] == x);
        r
    } else {
        let l = q.last();
        assert(q[q.len() - 1] == l);
        lemma_lex_total(x, l);
        if lex_lt(l, x) {
            let r = q.push(x);
            assert forall|i: int, j: int| 0 <= i < j < r.len() implies lex_lt(r[i], r[j]) by {
                if j == q.len() {
                    if i < q.len() - 1 {
                        lemma_lex_trans(q[i], l, x);
                    }
                }
            }
            assert forall|y: Seq<char>| r.contains(y) <==> q.contains(y) || y == x by {
                if q.contains(y) {
                    let i = choose|i: int| 0 <= i < q.len() && q[i] == y;
                    assert(r[i] == y);
                }
                if y == x {
                    assert(r[q.len() as int] == x);
                }
            }
            r
        } else {
            let t = q.drop_last();
            assert(strictly_sorted(t)) by {
                assert forall|i: int, j: int| 0 <= i < j < t.len() implies lex_lt(t[i], t[j]) by {
                    assert(t[i] == q[i] && t[j] == q[j]);
                }
            }
            assert(!t.contains(x)) by {
                if t.contains(x) {
                    let i = choose|i: int| 0 <= i < t.len() && t[i] == x;
                    assert(q[i] == x);
                }
            }
            let r0 = lemma_insert_sorted(t, x);
            let r = r0.push(l);
            assert forall|i: int| 0 <= i < r0.len() implies lex_lt(#[trigger] r0[i], l) by {
                let y = r0[i];
                assert(r0.contains(y));
                if y != x {
                    assert(t.contains(y));
                    let m = choose|m: int| 0 <= m < t.len() && t[m] == y;
                    assert(q[m] == y);
                }
            }
            assert forall|i: int, j: int| 0 <= i < j < r.len() implies lex_lt(r[i], r[j]) by {
                if j == r0.len() {
                    assert(r[i] == r0[i]);
                } else {
                    assert(r[i] == r0[i] && r[j] == r0[j]);
                }
            }
            assert forall|y: Seq<char>| r.contains(y) <==> q.contains(y) || y == x by {
                if r.contains(y) {
                    let i = choose|i: int| 0 <= i < r.len() && r[i] == y;
                    if i < r0.len() {
                        assert(r0[i] == y);
                        assert(r0.contains(y));
                        if y != x {
                            let m = choose|m: int| 0 <= m < t.len() && t[m] == y;
                            assert(q[m] == y);
                        }
                    } else {
                        assert(q[q.len() - 1] == y);
                    }
                }
                if q.contains(y) {
                    let i = choose|i: int| 0 <= i < q.len() && q[i] == y;
                    if i < q.len() - 1 {
                        assert(t[i] == y);
                        assert(t.contains(y));
                        assert(r0.contains(y));
                        let m = choose|m: int| 0 <= m < r0.len() && r0[m] == y;
                        assert(r[m] == y);
                    } else {
                        assert(r[r0.len() as int] == y);
                    }
                }
                if y == x {
                    assert(r0.contains(x));
                    let m = choose|m: int| 0 <= m < r0.len() && r0[m] == x;
                    assert(r[m] == x);
                }
            }
            r
        }
    }
}

/// The members of a finite set can be listed in increasing order, and
/// `in_order` gives that list.
pub proof fn lemma_in_order_finite(s: Set<Seq<char>>)
    requires
        s.finite(),
    ensures
        strictly_sorted(in_order(s)),
        forall|k: Seq<char>| s.contains(k) <==> in_order(s).contains(k),
    decreases s.len(),
{
    if s.len() == 0 {
        vstd::set_lib::lemma_set_empty_equivalency_len(s);
        let q = Seq::<Seq<char>>::empty();
        lemma_in_order(s, q);
    } else {
        let x = s.choose();
        let s2 = s.remove(x);
        lemma_in_order_finite(s2);
        let q2 = in_order(s2);
        let q = lemma_insert_sorted(q2, x);
        lemma_in_order(s, q);
    }
}

} // verus!
