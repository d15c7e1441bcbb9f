//! The simulation state: filesystem, environment, installed packages,
//! history, layers, warnings and completed build stages.

use vstd::prelude::*;
use crate::model::fs::{NodeV, VirtualFs};
use crate::model::provenance::{MountInfo, MountV};
use crate::model::sorted::{kv_map, lemma_kv_map, lemma_lex_irrefl, lex_lt, kv_sorted, SortedMap};
use crate::model::warning::{WarnV, Warning, wviews};
use crate::text::{chars_of, decimal, decimal_exec, sviews, string_of, lemma_sviews_push};

verus! {

/// A set of strings kept in increasing order.
#[derive(Debug, Clone, PartialEq)]
pub struct StringSet {
    items: SortedMap<()>,
}

impl View for StringSet {
    type V = Set<Seq<char>>;

    closed spec fn view(&self) -> Set<Seq<char>> {
        self.items@.dom()
    }
}

impl StringSet {
    /// Creates an empty set.
    pub fn new() -> (s: Self)
        ensures
            s@ == Set::<Seq<char>>::empty(),
    {
        let s = StringSet { items: SortedMap::new() };
        assert(s@ =~= Set::<Seq<char>>::empty());
        s
    }

    /// An identical copy of this set.
    pub fn dup(&self) -> (r: Self)
        ensures
            r@ == self@,
    {
        StringSet { items: self.items.dup() }
    }

    /// Adds `item`.
    pub fn insert(&mut self, item: String)
        ensures
            final(self)@ == old(self)@.insert(item@),
    {
        self.items.insert(item, ());
        assert(self@ =~= old(self)@.insert(item@));
    }

    /// Whether `item` is present.
    pub fn contains(&self, item: &str) -> (b: bool)
        ensures
            b == self@.contains(item@),
    {
        self.items.contains_key(item)
    }

    /// Whether the set is empty.
    pub fn is_empty(&self) -> (b: bool)
        ensures
            b == (self@.len() == 0),
    {
        self.items.is_empty()
    }

    /// The number of items.
    pub fn len(&self) -> (n: usize)
        ensures
            n == self@.len(),
    {
        self.items.len()
    }

    /// The items in increasing order.
    pub fn to_vec(&self) -> (r: Vec<String>)
        ensures
            forall|i: int, j: int|
                0 <= i < j < r@.len() ==> crate::model::sorted::lex_lt(r@[i]@, r@[j]@),
            forall|k: Seq<char>| self@.contains(k) <==> sviews(r@).contains(k),
    {
        let es = self.items.entries();
        proof {
            lemma_kv_map(es@);
        }
        let mut r: Vec<String> = Vec::new();
        let mut i: usize = 0;
        while i < es.len()
            invariant
                i <= es@.len(),
                kv_sorted(es@),
                r@.len() == i,
                forall|j: int| 0 <= j < i ==> (#[trigger] r@[j])@ == es@[j].0@,
            decreases es.len() - i,
        {
            r.push(es[i].0.clone());
            i = i + 1;
        }
        proof {
            assert forall|k: Seq<char>| self@.contains(k) <==> sviews(r@).contains(k) by {
                if self@.contains(k) {
                    let j = choose|j: int| 0 <= j < es@.len() && #[trigger] es@[j].0@ == k;
                    assert(sviews(r@)[j] == k);
                }
                if sviews(r@).contains(k) {
                    let j = choose|j: int| 0 <= j < sviews(r@).len() && sviews(r@)[j] == k;
                    assert(es@[j].0@ == k);
                }
            }
        }
        r
    }
}

/// The spelling of a stage's numeric index.
pub open spec fn index_key(index: usize) -> Seq<char> {
    decimal(index as nat)
}

/// `k` parses as a `usize`: an optional `+`, then ASCII digits whose
/// value fits in a `usize`.
pub open spec fn parses_as_usize(k: Seq<char>) -> bool {
    &&& unsigned_digits(k).len() > 0
    &&& all_digits(unsigned_digits(k))
    &&& digits_value(unsigned_digits(k)) <= usize::MAX
}

/// `k` without one leading `+`.
pub open spec fn unsigned_digits(k: Seq<char>) -> Seq<char> {
    if k.len() > 0 && k[0] == '+' {
        k.drop_first()
    } else {
        k
    }
}

/// Every character of `d` is an ASCII digit.
pub open spec fn all_digits(d: Seq<char>) -> bool {
    forall|i: int| 0 <= i < d.len() ==> '0' <= #[trigger] d[i] <= '9'
}

/// The value of a sequence of decimal digits.
pub open spec fn digits_value(d: Seq<char>) -> nat
    decreases d.len(),
{
    if d.len() == 0 {
        0
    } else {
        digits_value(d.drop_last()) * 10 + ((d.last() as u32) - 48) as nat
    }
}

/// Whether `k` parses as a `usize` (`str::parse::<usize>().is_ok()`).
pub fn parses_as_usize_exec(k: &Vec<char>) -> (b: bool)
    ensures
        b == parses_as_usize(k@),
{
    let start: usize = if k.len() > 0 && k[0] == '+' { 1 } else { 0 };
    let ghost d = unsigned_digits(k@);
    assert(d =~= k@.skip(start as int));
    if start >= k.len() {
        return false;
    }
    let mut value: usize = 0;
    let mut i: usize = start;
    while i < k.len()
        invariant
            start <= i <= k.len(),
            d == k@.skip(start as int),
            d == unsigned_digits(k@),
            forall|j: int| start <= j < i ==> '0' <= #[trigger] k@[j] <= '9',
            value == digits_value(k@.subrange(start as int, i as int)),
        decreases k.len() - i,
    {
        let c = k[i];
        if !('0' <= c && c <= '9') {
            assert(d[i - start] == c);
            assert(!('0' <= d[i - start] <= '9'));
            assert(!all_digits(d));
            assert(d == unsigned_digits(k@));
            assert(!parses_as_usize(k@));
            return false;
        }
        let dv = (c as u32 - 48) as usize;
        assert(k@.subrange(start as int, i + 1).drop_last() =~= k@.subrange(start as int, i as int));
        if value > (usize::MAX - dv) / 10 {
            proof {
                assert(k@.subrange(start as int, i + 1) =~= d.take(i - start + 1));
                assert(digits_value(d.take(i - start + 1)) == value * 10 + dv) by (nonlinear_arith)
                    requires
                        digits_value(d.take(i - start + 1)) == digits_value(k@.subrange(start as int, i as int)) * 10 + dv,
                        value == digits_value(k@.subrange(start as int, i as int)),
                ;
                assert(value * 10 + dv > usize::MAX) by (nonlinear_arith)
                    requires
                        value > (usize::MAX - dv) / 10,
                        dv <= 9,
                ;
                if parses_as_usize(k@) {
                    lemma_digits_prefix_bound(d, (i - start + 1) as int);
                }
            }
            return false;
        }
        value = value * 10 + dv;
        i = i + 1;
    }
    assert(k@.subrange(start as int, k.len() as int) =~= d);
    true
}

/// The keys of `d` that parse as a `usize`: the stage indices.
pub open spec fn index_keys(d: Set<Seq<char>>) -> Set<Seq<char>> {
    d.filter(|k: Seq<char>| parses_as_usize(k))
}

/// The decimal spelling of `n` is a run of digits, without a sign, whose
/// value is `n`.
pub proof fn lemma_decimal_digits(n: nat)
    ensures
        decimal(n).len() > 0,
        all_digits(decimal(n)),
        decimal(n)[0] != '+',
        unsigned_digits(decimal(n)) == decimal(n),
        digits_value(decimal(n)) == n,
    decreases n,
{
    let c = crate::text::digit_char(n % 10);
    assert(c as u32 == n % 10 + 48);
    if n >= 10 {
        lemma_decimal_digits(n / 10);
        let d = decimal(n);
        assert(d.drop_last() =~= decimal(n / 10));
        assert(d[0] == decimal(n / 10)[0]);
        assert(d.last() == c);
        assert((n / 10) * 10 + n % 10 == n) by (nonlinear_arith);
        assert(digits_value(d) == digits_value(d.drop_last()) * 10 + ((c as u32) - 48) as nat);
        assert(digits_value(d) == (n / 10) * 10 + n % 10);
    } else {
        assert(n % 10 == n);
        assert(decimal(n).drop_last() =~= Seq::<char>::empty());
        assert(decimal(n).last() == c);
        assert(digits_value(Seq::<char>::empty()) == 0);
        assert(digits_value(decimal(n)) == digits_value(decimal(n).drop_last()) * 10 + ((c as u32) - 48) as nat);
    }
}

/// A stage index key parses as a `usize`, and distinct indices give
/// distinct keys.
pub proof fn lemma_index_key(i: nat, j: nat)
    requires
        i <= usize::MAX,
        j <= usize::MAX,
    ensures
        parses_as_usize(index_key(i as usize)),
        index_key(i as usize) == index_key(j as usize) ==> i == j,
{
    lemma_decimal_digits(i);
    lemma_decimal_digits(j);
}

/// Prefix values never exceed the whole value.
proof fn lemma_digits_prefix_bound(d: Seq<char>, n: int)
    requires
        0 <= n <= d.len(),
        all_digits(d),
    ensures
        digits_value(d.take(n)) <= digits_value(d),
    decreases d.len() - n,
{
    if n < d.len() {
        lemma_digits_prefix_bound(d, n + 1);
        assert(d.take(n + 1).drop_last() =~= d.take(n));
        assert(d.take(n + 1).last() == d[n]);
    } else {
        assert(d.take(n) =~= d);
    }
}

/// All completed build stages, indexed by numeric index and by alias.
#[derive(Debug, Clone)]
pub struct StageRegistry {
    stages: SortedMap<PreviewState>,
}

impl View for StageRegistry {
    type V = Map<Seq<char>, PreviewState>;

    closed spec fn view(&self) -> Map<Seq<char>, PreviewState> {
        self.stages@
    }
}

/// The views of the stages of a registry.
pub open spec fn reg_view(m: Map<Seq<char>, PreviewState>) -> Map<Seq<char>, StateV> {
    m.map_values(|p: PreviewState| p@)
}

/// `reg` with the stage `st` recorded under its alias, then under its
/// index (so the index wins when the alias spells it).
pub open spec fn reg_insert(reg: Map<Seq<char>, StateV>, index: nat, alias: Option<Seq<char>>, st: StateV) -> Map<
    Seq<char>,
    StateV,
> {
    let r = match alias {
        Some(a) => reg.insert(a, st),
        None => reg,
    };
    r.insert(index_key(index as usize), st)
}

/// The view of an optional string slice.
pub open spec fn opt_str_view(o: Option<&str>) -> Option<Seq<char>> {
    match o {
        Some(s) => Some(s@),
        None => None,
    }
}

impl StageRegistry {
    /// Creates an empty registry.
    pub fn new() -> (r: Self)
        ensures
            r@ == Map::<Seq<char>, PreviewState>::empty(),
    {
        StageRegistry { stages: SortedMap::new() }
    }

    /// Records a completed stage under its index and, when given, its alias.
    /// When the alias spells the index, the entry under the index wins.
    pub fn insert(&mut self, index: usize, alias: Option<&str>, state: PreviewState)
        ensures
            final(self)@.contains_key(index_key(index)),
            final(self)@[index_key(index)] == state,
            alias matches Some(a) ==> final(self)@.contains_key(a@),
            match alias {
                Some(a) => a@ != index_key(index) ==> final(self)@[a@]@ == state@,
                None => true,
            },
            forall|k: Seq<char>|
                k != index_key(index) && (alias matches Some(a) ==> k != a@) ==> (
                #[trigger] final(self)@.contains_key(k) == old(self)@.contains_key(k) && (
                old(self)@.contains_key(k) ==> final(self)@[k] == old(self)@[k])),
            forall|k: Seq<char>| #[trigger]
                final(self)@.contains_key(k) ==> old(self)@.contains_key(k) || k == index_key(index)
                    || (alias matches Some(a) && k == a@),
            reg_view(final(self)@) == reg_insert(reg_view(old(self)@), index as nat, opt_str_view(alias), state@),
    {
        let d = decimal_exec(index);
        let index_key = string_of(&d);
        match alias {
            Some(a) => {
                let copy = state.dup();
                let ghost sv = state@;
                self.stages.insert(a.to_string(), copy);
                self.stages.insert(index_key, state);
                assert(reg_view(self@) =~= reg_insert(reg_view(old(self)@), index as nat, opt_str_view(alias), sv));
            },
            None => {
                let ghost sv = state@;
                self.stages.insert(index_key, state);
                assert(reg_view(self@) =~= reg_insert(reg_view(old(self)@), index as nat, opt_str_view(alias), sv));
            },
        }
    }

    /// The stage recorded under `key` (an alias or a numeric index).
    pub fn get(&self, key: &str) -> (r: Option<&PreviewState>)
        ensures
            match r {
                Some(s) => self@.contains_key(key@) && *s == self@[key@],
                None => !self@.contains_key(key@),
            },
    {
        self.stages.get(key)
    }

    /// All keys (aliases and numeric indices) in increasing order.
    pub fn keys(&self) -> (r: Vec<String>)
        ensures
            forall|i: int, j: int|
                0 <= i < j < r@.len() ==> crate::model::sorted::lex_lt(r@[i]@, r@[j]@),
            forall|k: Seq<char>| self@.contains_key(k) <==> sviews(r@).contains(k),
    {
        let es = self.stages.entries();
        proof {
            lemma_kv_map(es@);
        }
        let mut r: Vec<String> = Vec::new();
        let mut i: usize = 0;
        while i < es.len()
            invariant
                i <= es@.len(),
                kv_sorted(es@),
                r@.len() == i,
                forall|j: int| 0 <= j < i ==> (#[trigger] r@[j])@ == es@[j].0@,
            decreases es.len() - i,
        {
            r.push(es[i].0.clone());
            i = i + 1;
        }
        proof {
            assert forall|k: Seq<char>| self@.contains_key(k) <==> sviews(r@).contains(k) by {
                if self@.contains_key(k) {
                    let j = choose|j: int| 0 <= j < es@.len() && #[trigger] es@[j].0@ == k;
                    assert(sviews(r@)[j] == k);
                }
                if sviews(r@).contains(k) {
                    let j = choose|j: int| 0 <= j < sviews(r@).len() && sviews(r@)[j] == k;
                    assert(es@[j].0@ == k);
                }
            }
        }
        r
    }

    /// The number of distinct stages: the keys that parse as a `usize`.
    pub fn len(&self) -> (n: usize)
        ensures
            index_keys(self@.dom()).finite(),
            n == index_keys(self@.dom()).len(),
    {
        let es = self.stages.entries();
        proof {
            lemma_kv_map(es@);
        }
        let mut n: usize = 0;
        let mut i: usize = 0;
        let ghost mut seen: Set<Seq<char>> = Set::empty();
        while i < es.len()
            invariant
                i <= es@.len(),
                kv_sorted(es@),
                seen.finite(),
                n == seen.len(),
                n <= i,
                forall|k: Seq<char>| #[trigger] seen.contains(k) <==> exists|j: int|
                    0 <= j < i && (#[trigger] es@[j]).0@ == k && parses_as_usize(k),
            decreases es.len() - i,
        {
            let k = chars_of(es[i].0.as_str());
            let p = parses_as_usize_exec(&k);
            proof {
                if p {
                    if seen.contains(k@) {
                        let j = choose|j: int| 0 <= j < i && (#[trigger] es@[j]).0@ == k@ && parses_as_usize(k@);
                        assert(lex_lt(es@[j].0@, es@[i as int].0@));
                        lemma_lex_irrefl(k@);
                        assert(false);
                    }
                    let s2 = seen.insert(k@);
                    assert forall|x: Seq<char>| #[trigger] s2.contains(x) <==> exists|j: int|
                        0 <= j < i + 1 && (#[trigger] es@[j]).0@ == x && parses_as_usize(x) by {
                        if x == k@ {
                            assert(es@[i as int].0@ == x);
                        }
                    }
                    seen = s2;
                } else {
                    assert forall|x: Seq<char>| #[trigger] seen.contains(x) <==> exists|j: int|
                        0 <= j < i + 1 && (#[trigger] es@[j]).0@ == x && parses_as_usize(x) by {
                        if exists|j: int| 0 <= j < i + 1 && (#[trigger] es@[j]).0@ == x && parses_as_usize(x) {
                            let j = choose|j: int| 0 <= j < i + 1 && (#[trigger] es@[j]).0@ == x && parses_as_usize(x);
                            if j == i {
                                assert(x == k@);
                            }
                        }
                    }
                }
            }
            if p {
                n = n + 1;
            }
            i = i + 1;
        }
        proof {
            assert forall|x: Seq<char>| index_keys(self@.dom()).contains(x) <==> seen.contains(x) by {
                if index_keys(self@.dom()).contains(x) {
                    let j = choose|j: int| 0 <= j < es@.len() && #[trigger] es@[j].0@ == x;
                    assert(seen.contains(x));
                }
                if seen.contains(x) {
                    let j = choose|j: int| 0 <= j < i && (#[trigger] es@[j]).0@ == x && parses_as_usize(x);
                    assert(self@.contains_key(es@[j].0@));
                }
            }
            assert(index_keys(self@.dom()) =~= seen);
        }
        n
    }

    /// Whether no stage has been recorded.
    pub fn is_empty(&self) -> (b: bool)
        ensures
            b <==> index_keys(self@.dom()).len() == 0,
    {
        self.len() == 0
    }
}

/// Packages recorded as installed, per package manager.
#[derive(Debug, Clone)]
pub struct InstalledRegistry {
    /// Packages recorded by `apt` / `apt-get`.
    pub apt: StringSet,
    /// Packages recorded by `pip` / `pip3`.
    pub pip: StringSet,
    /// Packages recorded by `npm`.
    pub npm: StringSet,
    /// Packages recorded by `go install`.
    pub go_pkgs: StringSet,
    /// Packages recorded by `apk add`.
    pub apk: StringSet,
}

/// The abstract value of an `InstalledRegistry`.
#[verifier::ext_equal]
pub struct InstalledV {
    pub apt: Set<Seq<char>>,
    pub pip: Set<Seq<char>>,
    pub npm: Set<Seq<char>>,
    pub go_pkgs: Set<Seq<char>>,
    pub apk: Set<Seq<char>>,
}

impl View for InstalledRegistry {
    type V = InstalledV;

    open spec fn view(&self) -> InstalledV {
        InstalledV {
            apt: self.apt@,
            pip: self.pip@,
            npm: self.npm@,
            go_pkgs: self.go_pkgs@,
            apk: self.apk@,
        }
    }
}

/// The simulated binary directory for `cmd`: `/usr/bin` when apt or apk
/// installed it, otherwise `/usr/local/bin` when pip, npm or go did.
pub open spec fn which_dir(r: InstalledV, cmd: Seq<char>) -> Option<Seq<char>> {
    if r.apt.contains(cmd) || r.apk.contains(cmd) {
        Some("/usr/bin"@)
    } else if r.pip.contains(cmd) || r.npm.contains(cmd) || r.go_pkgs.contains(cmd) {
        Some("/usr/local/bin"@)
    } else {
        None
    }
}

impl InstalledRegistry {
    /// An identical copy of this registry.
    pub fn dup(&self) -> (r: Self)
        ensures
            r@ == self@,
    {
        InstalledRegistry {
            apt: self.apt.dup(),
            pip: self.pip.dup(),
            npm: self.npm.dup(),
            go_pkgs: self.go_pkgs.dup(),
            apk: self.apk.dup(),
        }
    }

    /// The set for the manager named `m`, when it is one of the five.
    pub open spec fn set_of(&self, m: Seq<char>) -> Option<Set<Seq<char>>> {
        if m == "apt"@ {
            Some(self.apt@)
        } else if m == "pip"@ {
            Some(self.pip@)
        } else if m == "npm"@ {
            Some(self.npm@)
        } else if m == "go"@ {
            Some(self.go_pkgs@)
        } else if m == "apk"@ {
            Some(self.apk@)
        } else {
            None
        }
    }

    /// An empty registry.
    pub fn new() -> (r: Self)
        ensures
            r.apt@.len() == 0 && r.pip@.len() == 0 && r.npm@.len() == 0 && r.go_pkgs@.len() == 0
                && r.apk@.len() == 0,
            r.apt@ == Set::<Seq<char>>::empty(),
            r.pip@ == Set::<Seq<char>>::empty(),
            r.npm@ == Set::<Seq<char>>::empty(),
            r.go_pkgs@ == Set::<Seq<char>>::empty(),
            r.apk@ == Set::<Seq<char>>::empty(),
    {
        InstalledRegistry {
            apt: StringSet::new(),
            pip: StringSet::new(),
            npm: StringSet::new(),
            go_pkgs: StringSet::new(),
            apk: StringSet::new(),
        }
    }

    /// Records `package` under the manager named `manager`. Returns `false`,
    /// recording nothing, when the manager is not one of `apt`, `pip`, `npm`,
    /// `go`, `apk`.
    pub fn record(&mut self, manager: &str, package: String) -> (accepted: bool)
        ensures
            accepted == old(self).set_of(manager@) is Some,
            accepted ==> final(self).set_of(manager@) == Some(
                old(self).set_of(manager@)->0.insert(package@),
            ),
            forall|m: Seq<char>| m != manager@ ==> #[trigger] final(self).set_of(m) == old(self).set_of(m),
    {
        let m = chars_of(manager);
        proof {
            reveal_strlit("apt");
            reveal_strlit("pip");
            reveal_strlit("npm");
            reveal_strlit("go");
            reveal_strlit("apk");
        }
        if crate::text::chars_eq_str(&m, "apt") {
            self.apt.insert(package);
            true
        } else if crate::text::chars_eq_str(&m, "pip") {
            self.pip.insert(package);
            true
        } else if crate::text::chars_eq_str(&m, "npm") {
            self.npm.insert(package);
            true
        } else if crate::text::chars_eq_str(&m, "go") {
            self.go_pkgs.insert(package);
            true
        } else if crate::text::chars_eq_str(&m, "apk") {
            self.apk.insert(package);
            true
        } else {
            false
        }
    }

    /// The packages recorded for `manager`, in increasing order; empty for
    /// an unknown manager.
    pub fn list(&self, manager: &str) -> (r: Vec<String>)
        ensures
            forall|i: int, j: int|
                0 <= i < j < r@.len() ==> crate::model::sorted::lex_lt(r@[i]@, r@[j]@),
            match self.set_of(manager@) {
                Some(s) => forall|k: Seq<char>|
                    #![trigger s.contains(k)]
                    #![trigger sviews(r@).contains(k)]
                    s.contains(k) <==> sviews(r@).contains(k),
                None => r@.len() == 0,
            },
    {
        let m = chars_of(manager);
        proof {
            reveal_strlit("apt");
            reveal_strlit("pip");
            reveal_strlit("npm");
            reveal_strlit("go");
            reveal_strlit("apk");
        }
        if crate::text::chars_eq_str(&m, "apt") {
            self.apt.to_vec()
        } else if crate::text::chars_eq_str(&m, "pip") {
            self.pip.to_vec()
        } else if crate::text::chars_eq_str(&m, "npm") {
            self.npm.to_vec()
        } else if crate::text::chars_eq_str(&m, "go") {
            self.go_pkgs.to_vec()
        } else if crate::text::chars_eq_str(&m, "apk") {
            self.apk.to_vec()
        } else {
            Vec::new()
        }
    }

    /// The simulated binary directory of the first manager that has `cmd`
    /// installed: `apt` and `apk` give `/usr/bin`; `pip`, `npm` and `go`
    /// give `/usr/local/bin`.
    pub fn which_prefix(&self, cmd: &str) -> (r: Option<&'static str>)
        ensures
            (self.apt@.contains(cmd@) || self.apk@.contains(cmd@)) ==> (r matches Some(p) && p@
                == "/usr/bin"@),
            !(self.apt@.contains(cmd@) || self.apk@.contains(cmd@)) && (self.pip@.contains(cmd@)
                || self.npm@.contains(cmd@) || self.go_pkgs@.contains(cmd@)) ==> (r matches Some(p)
                && p@ == "/usr/local/bin"@),
            !(self.apt@.contains(cmd@) || self.apk@.contains(cmd@) || self.pip@.contains(cmd@)
                || self.npm@.contains(cmd@) || self.go_pkgs@.contains(cmd@)) ==> r is None,
    {
        if self.apt.contains(cmd) || self.apk.contains(cmd) {
            Some("/usr/bin")
        } else if self.pip.contains(cmd) || self.npm.contains(cmd) || self.go_pkgs.contains(cmd) {
            Some("/usr/local/bin")
        } else {
            None
        }
    }
}

impl Default for StageRegistry {
    /// An empty registry.
    fn default() -> (r: Self)
        ensures
            r@ == Map::<Seq<char>, PreviewState>::empty(),
    {
        StageRegistry::new()
    }
}

impl Default for InstalledRegistry {
    fn default() -> (r: Self)
        ensures
            r.apt@ == Set::<Seq<char>>::empty(),
            r.pip@ == Set::<Seq<char>>::empty(),
            r.npm@ == Set::<Seq<char>>::empty(),
            r.go_pkgs@ == Set::<Seq<char>>::empty(),
            r.apk@ == Set::<Seq<char>>::empty(),
    {
        InstalledRegistry::new()
    }
}

/// One entry of the instruction history timeline.
#[derive(Debug, Clone, PartialEq)]
pub struct HistoryEntry {
    /// The instruction's position (1-based).
    pub line: usize,
    /// The instruction text.
    pub instruction: String,
    /// What the engine did.
    pub effect: String,
}

/// What changed during one instruction ("layer").
#[derive(Debug, Clone, PartialEq)]
pub struct LayerSummary {
    /// The instruction keyword (e.g. `COPY`).
    pub instruction_type: String,
    /// Paths created, modified or removed.
    pub files_changed: Vec<String>,
    /// Environment assignments applied.
    pub env_changed: Vec<(String, String)>,
}

/// The abstract value of a `HistoryEntry`.
pub struct HistV {
    pub line: nat,
    pub instruction: Seq<char>,
    pub effect: Seq<char>,
}

impl View for HistoryEntry {
    type V = HistV;

    open spec fn view(&self) -> HistV {
        HistV { line: self.line as nat, instruction: self.instruction@, effect: self.effect@ }
    }
}

impl HistoryEntry {
    /// An identical copy of this entry.
    pub fn dup(&self) -> (r: Self)
        ensures
            r@ == self@,
    {
        HistoryEntry { line: self.line, instruction: self.instruction.clone(), effect: self.effect.clone() }
    }
}

/// The views of a sequence of (key, value) string pairs.
pub open spec fn pair_views(v: Seq<(String, String)>) -> Seq<(Seq<char>, Seq<char>)> {
    Seq::new(v.len(), |i: int| (v[i].0@, v[i].1@))
}

/// The abstract value of a `LayerSummary`.
#[verifier::ext_equal]
pub struct LayerV {
    pub kind: Seq<char>,
    pub files: Seq<Seq<char>>,
    pub env: Seq<(Seq<char>, Seq<char>)>,
}

impl View for LayerSummary {
    type V = LayerV;

    open spec fn view(&self) -> LayerV {
        LayerV {
            kind: self.instruction_type@,
            files: sviews(self.files_changed@),
            env: pair_views(self.env_changed@),
        }
    }
}

/// A copy of each (key, value) pair of `v`, in order.
pub fn dup_pairs(v: &Vec<(String, String)>) -> (r: Vec<(String, String)>)
    ensures
        r@ == v@,
{
    let mut r: Vec<(String, String)> = Vec::new();
    let mut i: usize = 0;
    while i < v.len()
        invariant
            i <= v@.len(),
            r@ == v@.take(i as int),
        decreases v.len() - i,
    {
        r.push((v[i].0.clone(), v[i].1.clone()));
        assert(r@ =~= v@.take(i + 1));
        i = i + 1;
    }
    assert(r@ =~= v@);
    r
}

impl LayerSummary {
    /// An identical copy of this summary.
    pub fn dup(&self) -> (r: Self)
        ensures
            r@ == self@,
    {
        let f = crate::model::warning::dup_strings(&self.files_changed);
        let e = dup_pairs(&self.env_changed);
        LayerSummary { instruction_type: self.instruction_type.clone(), files_changed: f, env_changed: e }
    }
}

/// The views of a sequence of history entries.
pub open spec fn hviews(v: Seq<HistoryEntry>) -> Seq<HistV> {
    Seq::new(v.len(), |i: int| v[i]@)
}

/// The views of a sequence of layer summaries.
pub open spec fn lviews(v: Seq<LayerSummary>) -> Seq<LayerV> {
    Seq::new(v.len(), |i: int| v[i]@)
}

/// The views of a sequence of mounts.
pub open spec fn mviews(v: Seq<MountInfo>) -> Seq<MountV> {
    Seq::new(v.len(), |i: int| v[i]@)
}

/// The abstract value of a `PreviewState`.
#[verifier::ext_equal]
pub struct StateV {
    pub cwd: Seq<char>,
    pub env: Map<Seq<char>, Seq<char>>,
    pub es: Seq<(Seq<char>, NodeV)>,
    pub installed: InstalledV,
    pub history: Seq<HistV>,
    pub layers: Seq<LayerV>,
    pub warns: Seq<WarnV>,
    pub active: Option<Seq<char>>,
    pub mounts: Seq<MountV>,
}

/// The views of the values of a string map.
pub open spec fn env_view(m: Map<Seq<char>, String>) -> Map<Seq<char>, Seq<char>> {
    m.map_values(|v: String| v@)
}

/// The view of an optional string.
pub open spec fn opt_view(o: Option<String>) -> Option<Seq<char>> {
    match o {
        Some(s) => Some(s@),
        None => None,
    }
}

impl View for PreviewState {
    type V = StateV;

    open spec fn view(&self) -> StateV {
        StateV {
            cwd: self.cwd@,
            env: env_view(self.env@),
            es: self.fs.ev(),
            installed: self.installed@,
            history: hviews(self.history@),
            layers: lviews(self.layers@),
            warns: wviews(self.warnings@),
            active: opt_view(self.active_stage),
            mounts: mviews(self.mounts@),
        }
    }
}

/// The complete mutable state of the simulation.
#[derive(Debug, Clone)]
pub struct PreviewState {
    /// The current working directory.
    pub cwd: String,
    /// Environment variables, ordered by key.
    pub env: SortedMap<String>,
    /// The virtual filesystem.
    pub fs: VirtualFs,
    /// Packages recorded as installed.
    pub installed: InstalledRegistry,
    /// Instruction history, in order.
    pub history: Vec<HistoryEntry>,
    /// Layer summaries, one per instruction.
    pub layers: Vec<LayerSummary>,
    /// Warnings accumulated during processing.
    pub warnings: Vec<Warning>,
    /// The active build stage alias, if any.
    pub active_stage: Option<String>,
    /// Volume mounts shadowing paths (Compose mode).
    pub mounts: Vec<MountInfo>,
}

impl PreviewState {
    /// The state of an empty container: cwd `/`, everything else empty.
    pub open spec fn is_empty_container(&self) -> bool {
        &&& self.cwd@ == "/"@
        &&& self.env@ == Map::<Seq<char>, String>::empty()
        &&& self.fs@ == Map::<Seq<char>, crate::model::fs::NodeV>::empty()
        &&& self.fs.ev() == Seq::<(Seq<char>, crate::model::fs::NodeV)>::empty()
        &&& self.installed.apt@ == Set::<Seq<char>>::empty()
        &&& self.installed.pip@ == Set::<Seq<char>>::empty()
        &&& self.installed.npm@ == Set::<Seq<char>>::empty()
        &&& self.installed.go_pkgs@ == Set::<Seq<char>>::empty()
        &&& self.installed.apk@ == Set::<Seq<char>>::empty()
        &&& self.history@.len() == 0
        &&& self.layers@.len() == 0
        &&& self.warnings@.len() == 0
        &&& self.active_stage is None
        &&& self.mounts@.len() == 0
    }

    /// An identical copy of this state.
    pub fn dup(&self) -> (r: Self)
        ensures
            r@ == self@,
            r.fs@ == self.fs@,
    {
        let mut history: Vec<HistoryEntry> = Vec::new();
        let mut i: usize = 0;
        while i < self.history.len()
            invariant
                i <= self.history@.len(),
                hviews(history@) == hviews(self.history@).take(i as int),
            decreases self.history.len() - i,
        {
            let ghost h0 = history@;
            let e = self.history[i].dup();
            history.push(e);
            assert(hviews(history@) =~= hviews(h0).push(e@));
            assert(hviews(self.history@).take(i + 1) =~= hviews(self.history@).take(i as int).push(self.history@[i as int]@));
            i = i + 1;
        }
        let mut layers: Vec<LayerSummary> = Vec::new();
        let mut i: usize = 0;
        while i < self.layers.len()
            invariant
                i <= self.layers@.len(),
                lviews(layers@) == lviews(self.layers@).take(i as int),
            decreases self.layers.len() - i,
        {
            let ghost h0 = layers@;
            let e = self.layers[i].dup();
            layers.push(e);
            assert(lviews(layers@) =~= lviews(h0).push(e@));
            assert(lviews(self.layers@).take(i + 1) =~= lviews(self.layers@).take(i as int).push(self.layers@[i as int]@));
            i = i + 1;
        }
        let mut warnings: Vec<Warning> = Vec::new();
        let mut i: usize = 0;
        while i < self.warnings.len()
            invariant
                i <= self.warnings@.len(),
                wviews(warnings@) == wviews(self.warnings@).take(i as int),
            decreases self.warnings.len() - i,
        {
            let ghost h0 = warnings@;
            let e = self.warnings[i].dup();
            warnings.push(e);
            assert(wviews(warnings@) =~= wviews(h0).push(e@));
            assert(wviews(self.warnings@).take(i + 1) =~= wviews(self.warnings@).take(i as int).push(self.warnings@[i as int]@));
            i = i + 1;
        }
        let mut mounts: Vec<MountInfo> = Vec::new();
        let mut i: usize = 0;
        while i < self.mounts.len()
            invariant
                i <= self.mounts@.len(),
                mviews(mounts@) == mviews(self.mounts@).take(i as int),
            decreases self.mounts.len() - i,
        {
            let ghost h0 = mounts@;
            let e = self.mounts[i].dup();
            mounts.push(e);
            assert(mviews(mounts@) =~= mviews(h0).push(e@));
            assert(mviews(self.mounts@).take(i + 1) =~= mviews(self.mounts@).take(i as int).push(self.mounts@[i as int]@));
            i = i + 1;
        }
        assert(hviews(history@) =~= hviews(self.history@));
        assert(lviews(layers@) =~= lviews(self.layers@));
        assert(wviews(warnings@) =~= wviews(self.warnings@));
        assert(mviews(mounts@) =~= mviews(self.mounts@));
        let active_stage = match &self.active_stage {
            Some(a) => Some(a.clone()),
            None => None,
        };
        let env = self.env.dup();
        let r = PreviewState {
            cwd: self.cwd.clone(),
            env,
            fs: self.fs.dup(),
            installed: self.installed.dup(),
            history,
            layers,
            warnings,
            active_stage,
            mounts,
        };
        assert(r@.env =~= self@.env);
        r
    }

    /// `other` differs from this state at most in its filesystem and its
    /// warnings.
    pub open spec fn same_except_fs_warnings(&self, other: &PreviewState) -> bool {
        &&& other.cwd == self.cwd
        &&& other.env == self.env
        &&& other.installed == self.installed
        &&& other.history == self.history
        &&& other.layers == self.layers
        &&& other.active_stage == self.active_stage
        &&& other.mounts == self.mounts
    }

    /// A state representing an empty container.
    pub fn new() -> (s: Self)
        ensures
            s.is_empty_container(),
    {
        let cwd = String::from_str("/");
        PreviewState {
            cwd,
            env: SortedMap::new(),
            fs: VirtualFs::new(),
            installed: InstalledRegistry::new(),
            history: Vec::new(),
            layers: Vec::new(),
            warnings: Vec::new(),
            active_stage: None,
            mounts: Vec::new(),
        }
    }
}

impl Default for PreviewState {
    /// An empty container, with working directory `/`.
    fn default() -> (s: Self)
        ensures
            s.is_empty_container(),
    {
        PreviewState::new()
    }
}

} // verus!
