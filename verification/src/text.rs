//! Character-level text utilities with specifications over `Seq<char>`.
//!
//! Strings are processed as vectors of characters; every function states its
//! result as a spec function over the input's character sequence.

use vstd::prelude::*;

verus! {

// ───────────────────────── spec vocabulary ─────────────────────────

/// Unicode `White_Space`, as used by `char::is_whitespace`, `str::trim` and
/// `str::split_whitespace`.
pub open spec fn is_ws(c: char) -> bool {
    let u = c as u32;
    (9 <= u && u <= 13) || u == 32 || u == 0x85 || u == 0xa0 || u == 0x1680 || (0x2000 <= u
        && u <= 0x200a) || u == 0x2028 || u == 0x2029 || u == 0x202f || u == 0x205f || u == 0x3000
}

/// ASCII whitespace, as used by `char::is_ascii_whitespace`.
pub open spec fn is_ascii_ws(c: char) -> bool {
    c == ' ' || c == '\t' || c == '\n' || c == '\x0C' || c == '\r'
}

/// `s` without its leading whitespace.
pub open spec fn trim_start(s: Seq<char>) -> Seq<char>
    decreases s.len(),
{
    if s.len() > 0 && is_ws(s[0]) {
        trim_start(s.drop_first())
    } else {
        s
    }
}

/// `s` without its trailing whitespace.
pub open spec fn trim_end(s: Seq<char>) -> Seq<char>
    decreases s.len(),
{
    if s.len() > 0 && is_ws(s.last()) {
        trim_end(s.drop_last())
    } else {
        s
    }
}

/// `s` without leading and trailing whitespace (`str::trim`).
pub open spec fn trim(s: Seq<char>) -> Seq<char> {
    trim_end(trim_start(s))
}

/// Left-to-right scan that cuts `s` at separator characters: the completed
/// pieces that satisfy `keep`, and the piece still being read.
pub open spec fn scan(
    s: Seq<char>,
    is_sep: spec_fn(char) -> bool,
    keep: spec_fn(Seq<char>) -> bool,
) -> (Seq<Seq<char>>, Seq<char>)
    decreases s.len(),
{
    if s.len() == 0 {
        (seq![], seq![])
    } else {
        let (done, cur) = scan(s.drop_last(), is_sep, keep);
        if is_sep(s.last()) {
            (if keep(cur) { done.push(cur) } else { done }, seq![])
        } else {
            (done, cur.push(s.last()))
        }
    }
}

/// The pieces of `s` between separators, in order, keeping those that
/// satisfy `keep`.
pub open spec fn tokens(
    s: Seq<char>,
    is_sep: spec_fn(char) -> bool,
    keep: spec_fn(Seq<char>) -> bool,
) -> Seq<Seq<char>> {
    let (done, cur) = scan(s, is_sep, keep);
    if keep(cur) {
        done.push(cur)
    } else {
        done
    }
}

pub open spec fn ws_sep() -> spec_fn(char) -> bool {
    |c: char| is_ws(c)
}

pub open spec fn nonempty() -> spec_fn(Seq<char>) -> bool {
    |w: Seq<char>| w.len() > 0
}

/// The whitespace-separated words of `s` (`str::split_whitespace`).
pub open spec fn words(s: Seq<char>) -> Seq<Seq<char>> {
    tokens(s, ws_sep(), nonempty())
}

/// `p` occurs in `s` at position `i`.
pub open spec fn matches_at(s: Seq<char>, p: Seq<char>, i: int) -> bool {
    0 <= i && i + p.len() <= s.len() && s.subrange(i, i + p.len()) == p
}

/// The first position at or after `i` where `p` occurs in `s`.
pub open spec fn find_from(s: Seq<char>, p: Seq<char>, i: int) -> Option<int>
    decreases s.len() + 1 - i,
{
    if i < 0 || i + p.len() > s.len() {
        None
    } else if matches_at(s, p, i) {
        Some(i)
    } else {
        find_from(s, p, i + 1)
    }
}

/// The first position where `p` occurs in `s` (`str::find`).
pub open spec fn find(s: Seq<char>, p: Seq<char>) -> Option<int> {
    find_from(s, p, 0)
}

/// The pieces of `s` between occurrences of the non-empty pattern `p`
/// (`str::split`).
pub open spec fn split_on(s: Seq<char>, p: Seq<char>) -> Seq<Seq<char>>
    decreases s.len(),
{
    if p.len() == 0 {
        seq![s]
    } else {
        match find(s, p) {
            None => seq![s],
            Some(i) => {
                proof {
                    lemma_find_from_range(s, p, 0);
                }
                seq![s.take(i)] + split_on(s.skip(i + p.len()), p)
            },
        }
    }
}

/// ASCII lower-casing of one character.
pub open spec fn lower_char(c: char) -> char {
    if 'A' <= c && c <= 'Z' {
        ((c as u32) + 32) as char
    } else {
        c
    }
}

/// ASCII lower-casing of a sequence (`str::to_ascii_lowercase`).
pub open spec fn lower(s: Seq<char>) -> Seq<char> {
    s.map_values(|c: char| lower_char(c))
}

/// The lines of `s` (`str::lines`): pieces between `\n`, a final empty piece
/// dropped, and a trailing `\r` removed from each line.
pub open spec fn lines(s: Seq<char>) -> Seq<Seq<char>> {
    let parts = split_on(s, seq!['\n']);
    let ps = if parts.last().len() == 0 { parts.drop_last() } else { parts };
    ps.map_values(|l: Seq<char>| strip_cr(l))
}

pub open spec fn strip_cr(l: Seq<char>) -> Seq<char> {
    if l.len() > 0 && l.last() == '\r' {
        l.drop_last()
    } else {
        l
    }
}

/// `p` is a prefix of `s`.
pub open spec fn starts_with(s: Seq<char>, p: Seq<char>) -> bool {
    p.len() <= s.len() && s.take(p.len() as int) == p
}

/// `p` is a suffix of `s`.
pub open spec fn ends_with(s: Seq<char>, p: Seq<char>) -> bool {
    p.len() <= s.len() && s.skip(s.len() - p.len()) == p
}


/// The concatenation of `parts` with `sep` between neighbours.
pub open spec fn join(parts: Seq<Seq<char>>, sep: Seq<char>) -> Seq<char>
    decreases parts.len(),
{
    if parts.len() == 0 {
        seq![]
    } else if parts.len() == 1 {
        parts[0]
    } else {
        join(parts.drop_last(), sep) + sep + parts.last()
    }
}

/// The character sequences held by a sequence of character vectors.
pub open spec fn vviews(v: Seq<Vec<char>>) -> Seq<Seq<char>> {
    Seq::new(v.len(), |i: int| v[i]@)
}

/// The character sequences held by a sequence of strings.
pub open spec fn sviews(v: Seq<String>) -> Seq<Seq<char>> {
    Seq::new(v.len(), |i: int| v[i]@)
}

pub proof fn lemma_sviews_push(v: Seq<String>, x: String)
    ensures
        sviews(v.push(x)) == sviews(v).push(x@),
{
    assert(sviews(v.push(x)) =~= sviews(v).push(x@));
}

pub proof fn lemma_vviews_push(v: Seq<Vec<char>>, x: Vec<char>)
    ensures
        vviews(v.push(x)) == vviews(v).push(x@),
{
    assert(vviews(v.push(x)) =~= vviews(v).push(x@));
}

pub proof fn lemma_vviews_drop_last(v: Seq<Vec<char>>)
    requires
        v.len() > 0,
    ensures
        vviews(v.drop_last()) == vviews(v).drop_last(),
{
    assert(vviews(v.drop_last()) =~= vviews(v).drop_last());
}

// ───────────────────────── lemmas ─────────────────────────

pub proof fn lemma_find_from_range(s: Seq<char>, p: Seq<char>, i: int)
    ensures
        find_from(s, p, i) matches Some(j) ==> i <= j && matches_at(s, p, j),
    decreases s.len() + 1 - i,
{
    if i < 0 || i + p.len() > s.len() {
    } else if matches_at(s, p, i) {
    } else {
        lemma_find_from_range(s, p, i + 1);
    }
}

/// No occurrence of `p` before the first one that `find_from` reports.
pub proof fn lemma_find_from_first(s: Seq<char>, p: Seq<char>, i: int, k: int)
    requires
        0 <= i <= k,
        find_from(s, p, i) matches Some(j) ==> k < j,
    ensures
        !matches_at(s, p, k),
    decreases k - i,
{
    if i + p.len() > s.len() {
    } else if matches_at(s, p, i) {
    } else if i < k {
        lemma_find_from_first(s, p, i + 1, k);
    }
}

proof fn lemma_trim_start_at(s: Seq<char>, i: int)
    requires
        0 <= i <= s.len(),
        forall|j: int| 0 <= j < i ==> is_ws(#[trigger] s[j]),
        i < s.len() ==> !is_ws(s[i]),
    ensures
        trim_start(s) == s.skip(i),
    decreases i,
{
    if i > 0 {
        let t = s.drop_first();
        assert forall|j: int| 0 <= j < i - 1 implies is_ws(#[trigger] t[j]) by {
            assert(t[j] == s[j + 1]);
        }
        lemma_trim_start_at(t, i - 1);
        assert(t.skip(i - 1) =~= s.skip(i));
    } else {
        assert(s.skip(0) =~= s);
    }
}

proof fn lemma_trim_end_at(s: Seq<char>, k: int)
    requires
        0 <= k <= s.len(),
        forall|j: int| k <= j < s.len() ==> is_ws(#[trigger] s[j]),
        k > 0 ==> !is_ws(s[k - 1]),
    ensures
        trim_end(s) == s.take(k),
    decreases s.len() - k,
{
    if k < s.len() {
        let t = s.drop_last();
        assert forall|j: int| k <= j < t.len() implies is_ws(#[trigger] t[j]) by {
            assert(t[j] == s[j]);
        }
        lemma_trim_end_at(t, k);
        assert(t.take(k) =~= s.take(k));
    } else {
        assert(s.take(k) =~= s);
    }
}

// ───────────────────────── executable functions ─────────────────────────

/// Appends one character to a string (std `String::push`).
/// Trusted: the new string is the old one with `c` added at the end.
#[verifier::external_body]
pub(crate) fn push_char(s: &mut String, c: char)
    ensures
        final(s)@ == old(s)@.push(c),
{
    s.push(c);
}

/// What `str::to_uppercase` gives for `s` (full Unicode case mapping).
pub uninterp spec fn unicode_upper(s: Seq<char>) -> Seq<char>;

/// Upper-cases `s` with `str::to_uppercase`.
/// Trusted: the result is `unicode_upper` of the input.
#[verifier::external_body]
pub(crate) fn to_uppercase(s: &str) -> (r: String)
    ensures
        r@ == unicode_upper(s@),
{
    s.to_uppercase()
}

/// What `String::from_utf8_lossy` gives for `b`: its UTF-8 decoding, with
/// each invalid sequence replaced by U+FFFD.
pub uninterp spec fn utf8_lossy(b: Seq<u8>) -> Seq<char>;

/// Decodes `b` with `String::from_utf8_lossy`.
/// Trusted: the result is `utf8_lossy` of the input, and exactly the
/// decoded text when the input is valid UTF-8.
#[verifier::external_body]
pub(crate) fn decode_lossy(b: &Vec<u8>) -> (r: String)
    ensures
        r@ == utf8_lossy(b@),
        vstd::utf8::valid_utf8(b@) ==> r@ == vstd::utf8::decode_utf8(b@),
{
    String::from_utf8_lossy(b.as_slice()).into_owned()
}

/// What `{:?}` (std `Debug` for `str`) prints for `s`: the text in double
/// quotes, with quotes, backslashes and control characters escaped.
pub uninterp spec fn debug_str(s: Seq<char>) -> Seq<char>;

/// Formats `s` with std `Debug` for `str`.
/// Trusted: the result is `debug_str` of the input.
#[verifier::external_body]
pub(crate) fn debug_quoted(s: &str) -> (r: String)
    ensures
        r@ == debug_str(s@),
{
    format!("{:?}", s)
}

/// The characters of `s`, in order.
pub fn chars_of(s: &str) -> (r: Vec<char>)
    ensures
        r@ == s@,
{
    let n = s.unicode_len();
    let mut r: Vec<char> = Vec::new();
    let mut i: usize = 0;
    while i < n
        invariant
            n == s@.len(),
            i <= n,
            r@ == s@.take(i as int),
        decreases n - i,
    {
        let c = s.get_char(i);
        r.push(c);
        i = i + 1;
        assert(r@ =~= s@.take(i as int));
    }
    assert(r@ =~= s@);
    r
}

/// Builds a string holding exactly the characters of `v`.
pub fn string_of(v: &Vec<char>) -> (s: String)
    ensures
        s@ == v@,
{
    let mut s = String::new();
    let mut i: usize = 0;
    while i < v.len()
        invariant
            i <= v.len(),
            s@ == v@.take(i as int),
        decreases v.len() - i,
    {
        push_char(&mut s, v[i]);
        i = i + 1;
        assert(s@ =~= v@.take(i as int));
    }
    assert(s@ =~= v@);
    s
}

/// Appends the characters of `w` to `v`.
pub fn append_chars(v: &mut Vec<char>, w: &Vec<char>)
    ensures
        final(v)@ == old(v)@ + w@,
{
    let mut i: usize = 0;
    while i < w.len()
        invariant
            i <= w.len(),
            v@ == old(v)@ + w@.take(i as int),
        decreases w.len() - i,
    {
        v.push(w[i]);
        i = i + 1;
        assert(v@ =~= old(v)@ + w@.take(i as int));
    }
    assert(w@.take(w.len() as int) =~= w@);
}

/// Appends the characters of `s` to `v`.
pub fn append_str(v: &mut Vec<char>, s: &str)
    ensures
        final(v)@ == old(v)@ + s@,
{
    let w = chars_of(s);
    append_chars(v, &w);
}

/// A copy of `v[lo..hi]`.
pub fn subvec(v: &Vec<char>, lo: usize, hi: usize) -> (r: Vec<char>)
    requires
        lo <= hi <= v.len(),
    ensures
        r@ == v@.subrange(lo as int, hi as int),
{
    let mut r: Vec<char> = Vec::new();
    let mut i: usize = lo;
    while i < hi
        invariant
            lo <= i <= hi <= v.len(),
            r@ == v@.subrange(lo as int, i as int),
        decreases hi - i,
    {
        r.push(v[i]);
        i = i + 1;
        assert(r@ =~= v@.subrange(lo as int, i as int));
    }
    r
}

/// A copy of `v`.
pub fn copy_chars(v: &Vec<char>) -> (r: Vec<char>)
    ensures
        r@ == v@,
{
    let r = subvec(v, 0, v.len());
    assert(v@.subrange(0, v@.len() as int) =~= v@);
    r
}

pub fn is_ws_char(c: char) -> (b: bool)
    ensures
        b == is_ws(c),
{
    let u = c as u32;
    (9 <= u && u <= 13) || u == 32 || u == 0x85 || u == 0xa0 || u == 0x1680 || (0x2000 <= u
        && u <= 0x200a) || u == 0x2028 || u == 0x2029 || u == 0x202f || u == 0x205f || u == 0x3000
}

pub fn is_ascii_ws_char(c: char) -> (b: bool)
    ensures
        b == is_ascii_ws(c),
{
    c == ' ' || c == '\t' || c == '\n' || c == '\x0C' || c == '\r'
}

/// `v` with leading whitespace removed.
pub fn trim_start_chars(v: &Vec<char>) -> (r: Vec<char>)
    ensures
        r@ == trim_start(v@),
{
    let mut i: usize = 0;
    while i < v.len() && is_ws_char(v[i])
        invariant
            i <= v.len(),
            forall|j: int| 0 <= j < i ==> is_ws(#[trigger] v@[j]),
        decreases v.len() - i,
    {
        i = i + 1;
    }
    proof {
        lemma_trim_start_at(v@, i as int);
    }
    let r = subvec(v, i, v.len());
    assert(r@ =~= v@.skip(i as int));
    r
}

/// `v` with trailing whitespace removed.
pub fn trim_end_chars(v: &Vec<char>) -> (r: Vec<char>)
    ensures
        r@ == trim_end(v@),
{
    let mut k: usize = v.len();
    while k > 0 && is_ws_char(v[k - 1])
        invariant
            k <= v.len(),
            forall|j: int| k <= j < v.len() ==> is_ws(#[trigger] v@[j]),
        decreases k,
    {
        k = k - 1;
    }
    proof {
        lemma_trim_end_at(v@, k as int);
    }
    let r = subvec(v, 0, k);
    assert(r@ =~= v@.take(k as int));
    r
}

/// `v` with leading and trailing whitespace removed.
pub fn trim_chars(v: &Vec<char>) -> (r: Vec<char>)
    ensures
        r@ == trim(v@),
{
    let a = trim_start_chars(v);
    trim_end_chars(&a)
}

/// The whitespace-separated words of `v`.
pub fn words_of(v: &Vec<char>) -> (r: Vec<Vec<char>>)
    ensures
        vviews(r@) == words(v@),
{
    let mut done: Vec<Vec<char>> = Vec::new();
    let mut cur: Vec<char> = Vec::new();
    let mut i: usize = 0;
    while i < v.len()
        invariant
            i <= v.len(),
            scan(v@.take(i as int), ws_sep(), nonempty()) == (vviews(done@), cur@),
        decreases v.len() - i,
    {
        let ghost pre = v@.take(i as int);
        let ghost d0 = vviews(done@);
        let ghost c0 = cur@;
        assert(v@.take(i + 1).drop_last() =~= pre);
        assert(v@.take(i + 1).last() == v@[i as int]);
        let c = v[i];
        if is_ws_char(c) {
            if cur.len() > 0 {
                let w = cur;
                proof {
                    lemma_vviews_push(done@, w);
                }
                done.push(w);
            }
            cur = Vec::new();
            assert(cur@ =~= Seq::<char>::empty());
        } else {
            cur.push(c);
        }
        i = i + 1;
    }
    assert(v@.take(v.len() as int) =~= v@);
    let ghost d0 = vviews(done@);
    if cur.len() > 0 {
        proof {
            lemma_vviews_push(done@, cur);
        }
        done.push(cur);
    }
    done
}

/// Whether `p` occurs in `v` at position `i`.
pub fn matches_at_exec(v: &Vec<char>, p: &Vec<char>, i: usize) -> (b: bool)
    ensures
        b == matches_at(v@, p@, i as int),
{
    if i > v.len() || p.len() > v.len() - i {
        return false;
    }
    let mut k: usize = 0;
    while k < p.len()
        invariant
            i + p.len() <= v.len(),
            k <= p.len(),
            forall|j: int| 0 <= j < k ==> v@[i + j] == p@[j],
        decreases p.len() - k,
    {
        if v[i + k] != p[k] {
            assert(v@.subrange(i as int, i + p.len())[k as int] != p@[k as int]);
            return false;
        }
        k = k + 1;
    }
    assert(v@.subrange(i as int, i + p.len()) =~= p@);
    true
}

/// The first position where `p` occurs in `v`.
pub fn find_exec(v: &Vec<char>, p: &Vec<char>) -> (r: Option<usize>)
    ensures
        r matches Some(i) ==> find(v@, p@) == Some(i as int) && i + p@.len() <= v@.len(),
        r is None ==> find(v@, p@) is None,
{
    if p.len() == 0 {
        assert(v@.subrange(0, 0) =~= p@);
        return Some(0);
    }
    let mut i: usize = 0;
    while i <= v.len()
        invariant
            p.len() > 0,
            find(v@, p@) == find_from(v@, p@, i as int),
        decreases v.len() + 1 - i,
    {
        if p.len() > v.len() - i {
            return None;
        }
        if matches_at_exec(v, p, i) {
            proof {
                lemma_find_from_range(v@, p@, 0);
            }
            return Some(i);
        }
        i = i + 1;
    }
    None
}

/// Finds the first position where the character `c` occurs in `v`.
pub fn find_char(v: &Vec<char>, c: char) -> (r: Option<usize>)
    ensures
        r matches Some(i) ==> find(v@, seq![c]) == Some(i as int) && i < v@.len(),
        r is None ==> find(v@, seq![c]) is None,
{
    let p = vec![c];
    assert(p@ =~= seq![c]);
    find_exec(v, &p)
}

/// The pieces of `v` between occurrences of the non-empty pattern `p`.
pub fn split_exec(v: &Vec<char>, p: &Vec<char>) -> (r: Vec<Vec<char>>)
    requires
        p.len() > 0,
    ensures
        vviews(r@) == split_on(v@, p@),
{
    let mut acc: Vec<Vec<char>> = Vec::new();
    let mut rest = copy_chars(v);
    loop
        invariant
            p.len() > 0,
            split_on(v@, p@) == vviews(acc@) + split_on(rest@, p@),
        decreases rest.len(),
    {
        let ghost a0 = vviews(acc@);
        match find_exec(&rest, p) {
            None => {
                let ghost r0 = rest@;
                proof {
                    lemma_vviews_push(acc@, rest);
                }
                acc.push(rest);
                assert(a0 + seq![r0] =~= a0.push(r0));
                return acc;
            },
            Some(i) => {
                proof {
                    lemma_find_from_range(rest@, p@, 0);
                }
                let head = subvec(&rest, 0, i);
                let tail = subvec(&rest, i + p.len(), rest.len());
                assert(head@ =~= rest@.take(i as int));
                assert(tail@ =~= rest@.skip(i + p.len()));
                proof {
                    lemma_vviews_push(acc@, head);
                }
                acc.push(head);
                assert(a0 + (seq![head@] + split_on(tail@, p@)) =~= a0.push(head@) + split_on(
                    tail@,
                    p@,
                ));
                rest = tail;
            },
        }
    }
}

/// Whether `v` starts with `p`.
pub fn starts_with_exec(v: &Vec<char>, p: &Vec<char>) -> (b: bool)
    ensures
        b == starts_with(v@, p@),
{
    let b = matches_at_exec(v, p, 0);
    proof {
        if p@.len() <= v@.len() {
            assert(v@.subrange(0, p@.len() as int) =~= v@.take(p@.len() as int));
        }
    }
    b
}

/// Whether `v` starts with the characters of `p`.
pub fn starts_with_str(v: &Vec<char>, p: &str) -> (b: bool)
    ensures
        b == starts_with(v@, p@),
{
    let pv = chars_of(p);
    starts_with_exec(v, &pv)
}


/// Whether `v` and `w` hold the same characters.
pub fn chars_eq(v: &Vec<char>, w: &Vec<char>) -> (b: bool)
    ensures
        b == (v@ == w@),
{
    if v.len() != w.len() {
        return false;
    }
    let b = matches_at_exec(v, w, 0);
    assert(v@.subrange(0, v.len() as int) =~= v@);
    b
}

/// Whether `v` holds exactly the characters of `s`.
pub fn chars_eq_str(v: &Vec<char>, s: &str) -> (b: bool)
    ensures
        b == (v@ == s@),
{
    let w = chars_of(s);
    chars_eq(v, &w)
}

pub fn lower_char_exec(c: char) -> (r: char)
    ensures
        r == lower_char(c),
{
    if 'A' <= c && c <= 'Z' {
        let u = (c as u32) + 32;
        let b = u as u8;
        assert(b as u32 == u);
        b as char
    } else {
        c
    }
}


/// ASCII lower-cased copy of `v`.
pub fn lower_exec(v: &Vec<char>) -> (r: Vec<char>)
    ensures
        r@ == lower(v@),
{
    let mut r: Vec<char> = Vec::new();
    let mut i: usize = 0;
    while i < v.len()
        invariant
            i <= v.len(),
            r@ == lower(v@.take(i as int)),
        decreases v.len() - i,
    {
        r.push(lower_char_exec(v[i]));
        i = i + 1;
        assert(r@ =~= lower(v@.take(i as int)));
    }
    assert(v@.take(v.len() as int) =~= v@);
    r
}

/// Whether `v` equals `s` ignoring ASCII case.
pub fn eq_ignore_ascii_case(v: &Vec<char>, s: &str) -> (b: bool)
    ensures
        b == (lower(v@) == lower(s@)),
{
    let a = lower_exec(v);
    let w = chars_of(s);
    let bw = lower_exec(&w);
    chars_eq(&a, &bw)
}

/// The lines of `v`.
pub fn lines_exec(v: &Vec<char>) -> (r: Vec<Vec<char>>)
    ensures
        vviews(r@) == lines(v@),
{
    let nl = vec!['\n'];
    assert(nl@ =~= seq!['\n']);
    let mut parts = split_exec(v, &nl);
    assert(split_on(v@, seq!['\n']).len() > 0) by {
        reveal_with_fuel(split_on, 2);
    }
    let n = parts.len();
    if parts[n - 1].len() == 0 {
        proof {
            lemma_vviews_drop_last(parts@);
        }
        parts.pop();
    }
    let ghost ps = vviews(parts@);
    let mut r: Vec<Vec<char>> = Vec::new();
    let mut i: usize = 0;
    while i < parts.len()
        invariant
            i <= parts.len(),
            ps == vviews(parts@),
            vviews(r@) =~= ps.take(i as int).map_values(|l: Seq<char>| strip_cr(l)),
        decreases parts.len() - i,
    {
        let l = &parts[i];
        let m = if l.len() > 0 && l[l.len() - 1] == '\r' {
            subvec(l, 0, l.len() - 1)
        } else {
            copy_chars(l)
        };
        assert(m@ =~= strip_cr(ps[i as int]));
        let ghost r0 = vviews(r@);
        proof {
            lemma_vviews_push(r@, m);
        }
        r.push(m);
        i = i + 1;
        assert(ps.take(i as int).map_values(|l: Seq<char>| strip_cr(l)) =~= r0.push(m@));
    }
    assert(ps.take(parts.len() as int) =~= ps);
    r
}

/// The decimal digits of `n`.
pub open spec fn decimal(n: nat) -> Seq<char>
    decreases n,
{
    if n < 10 {
        seq![digit_char(n)]
    } else {
        decimal(n / 10).push(digit_char(n % 10))
    }
}

pub open spec fn digit_char(d: nat) -> char {
    ((d + 48) as u32) as char
}

/// The decimal representation of `n` (`usize::to_string`).
pub fn decimal_exec(n: usize) -> (r: Vec<char>)
    ensures
        r@ == decimal(n as nat),
    decreases n,
{
    let d = (n % 10) as u8;
    let c = (d + 48) as char;
    assert(c == digit_char((n % 10) as nat));
    if n < 10 {
        vec![c]
    } else {
        let mut r = decimal_exec(n / 10);
        r.push(c);
        r
    }
}

/// Strings holding the character vectors of `v`, in order.
pub fn strings_of(v: &Vec<Vec<char>>) -> (r: Vec<String>)
    ensures
        sviews(r@) == vviews(v@),
{
    let mut r: Vec<String> = Vec::new();
    let mut i: usize = 0;
    while i < v.len()
        invariant
            i <= v@.len(),
            sviews(r@) == vviews(v@).take(i as int),
        decreases v.len() - i,
    {
        let ghost r0 = r@;
        let s = string_of(&v[i]);
        r.push(s);
        proof {
            lemma_sviews_push(r0, s);
            assert(vviews(v@).take(i + 1) =~= vviews(v@).take(i as int).push(v@[i as int]@));
        }
        i = i + 1;
    }
    assert(vviews(v@).take(v@.len() as int) =~= vviews(v@));
    r
}

/// Copies of the character vectors of `v`, in order.
pub fn copy_all(v: &Vec<Vec<char>>) -> (r: Vec<Vec<char>>)
    ensures
        vviews(r@) == vviews(v@),
{
    let mut r: Vec<Vec<char>> = Vec::new();
    let mut i: usize = 0;
    while i < v.len()
        invariant
            i <= v@.len(),
            vviews(r@) == vviews(v@).take(i as int),
        decreases v.len() - i,
    {
        let ghost r0 = r@;
        let c = copy_chars(&v[i]);
        r.push(c);
        proof {
            lemma_vviews_push(r0, c);
            assert(vviews(v@).take(i + 1) =~= vviews(v@).take(i as int).push(v@[i as int]@));
        }
        i = i + 1;
    }
    assert(vviews(v@).take(v@.len() as int) =~= vviews(v@));
    r
}

/// Whether `c` occurs in `v`.
pub fn contains_char(v: &Vec<char>, c: char) -> (b: bool)
    ensures
        b == v@.contains(c),
{
    let mut i: usize = 0;
    while i < v.len()
        invariant
            i <= v@.len(),
            forall|j: int| 0 <= j < i ==> v@[j] != c,
        decreases v.len() - i,
    {
        if v[i] == c {
            return true;
        }
        i = i + 1;
    }
    false
}

/// The concatenation of `f` applied to each item, in order.
pub open spec fn concat_map(items: Seq<Seq<char>>, f: spec_fn(Seq<char>) -> Seq<char>) -> Seq<char>
    decreases items.len(),
{
    if items.len() == 0 {
        seq![]
    } else {
        concat_map(items.drop_last(), f) + f(items.last())
    }
}

/// The piece of each item stands, as one block, in the concatenation.
pub proof fn lemma_concat_map_holds(items: Seq<Seq<char>>, f: spec_fn(Seq<char>) -> Seq<char>, j: int)
    requires
        0 <= j < items.len(),
    ensures
        exists|i: int|
            0 <= i && i + f(items[j]).len() <= concat_map(items, f).len() && #[trigger] concat_map(items, f).subrange(
                i,
                i + f(items[j]).len(),
            ) == f(items[j]),
    decreases items.len(),
{
    let t = items.drop_last();
    let c = concat_map(items, f);
    let ct = concat_map(t, f);
    assert(c == ct + f(items.last()));
    if j == items.len() - 1 {
        assert(c.subrange(ct.len() as int, ct.len() as int + f(items[j]).len()) =~= f(items[j]));
    } else {
        assert(t[j] == items[j]);
        lemma_concat_map_holds(t, f, j);
        let i = choose|i: int|
            0 <= i && i + f(t[j]).len() <= ct.len() && #[trigger] ct.subrange(i, i + f(t[j]).len()) == f(t[j]);
        assert(c.subrange(i, i + f(items[j]).len()) =~= ct.subrange(i, i + f(t[j]).len()));
    }
}

/// `n` spaces.
pub open spec fn spaces(n: nat) -> Seq<char> {
    Seq::new(n, |i: int| ' ')
}

/// `s` padded on the right with spaces to `w` characters (`{:<w}`).
pub open spec fn pad_right(s: Seq<char>, w: nat) -> Seq<char> {
    if s.len() < w {
        s + spaces((w - s.len()) as nat)
    } else {
        s
    }
}

/// `s` padded on the left with spaces to `w` characters (`{:>w}`).
pub open spec fn pad_left(s: Seq<char>, w: nat) -> Seq<char> {
    if s.len() < w {
        spaces((w - s.len()) as nat) + s
    } else {
        s
    }
}

/// Appends `n` spaces to `v`.
pub fn push_spaces(v: &mut Vec<char>, n: usize)
    ensures
        final(v)@ == old(v)@ + spaces(n as nat),
{
    let mut k: usize = 0;
    while k < n
        invariant
            k <= n,
            v@ == old(v)@ + spaces(k as nat),
        decreases n - k,
    {
        v.push(' ');
        assert(spaces((k + 1) as nat) =~= spaces(k as nat).push(' '));
        assert(v@ =~= old(v)@ + spaces((k + 1) as nat));
        k = k + 1;
    }
}

/// Appends `s` padded on the right with spaces to `w` characters.
pub fn push_padded_right(v: &mut Vec<char>, s: &Vec<char>, w: usize)
    ensures
        final(v)@ == old(v)@ + pad_right(s@, w as nat),
{
    append_chars(v, s);
    if s.len() < w {
        push_spaces(v, w - s.len());
    } else {
        assert(v@ =~= old(v)@ + pad_right(s@, w as nat));
    }
}

/// Appends `s` padded on the left with spaces to `w` characters.
pub fn push_padded_left(v: &mut Vec<char>, s: &Vec<char>, w: usize)
    ensures
        final(v)@ == old(v)@ + pad_left(s@, w as nat),
{
    if s.len() < w {
        push_spaces(v, w - s.len());
    }
    append_chars(v, s);
}

} // verus!
