//! Terminal output sanitization: control characters are removed from text
//! before it is echoed, so user-controlled data (instruction text, paths,
//! environment values) cannot inject terminal escape sequences.

use vstd::prelude::*;
use crate::text::{chars_of, string_of};

verus! {

/// A C0 control character (U+0000–U+001F), DEL (U+007F), or a C1 control
/// character (U+0080–U+009F).
pub open spec fn is_control(c: char) -> bool {
    c <= '\u{1F}' || c == '\u{7F}' || ('\u{80}' <= c && c <= '\u{9F}')
}

/// `s` with every control character removed.
pub open spec fn sanitized(s: Seq<char>) -> Seq<char>
    decreases s.len(),
{
    if s.len() == 0 {
        seq![]
    } else if is_control(s.last()) {
        sanitized(s.drop_last())
    } else {
        sanitized(s.drop_last()).push(s.last())
    }
}

/// Removes control characters (C0, DEL, C1) from `s`, keeping everything
/// else in order.
pub fn sanitize_for_terminal(s: &str) -> (r: String)
    ensures
        r@ == sanitized(s@),
{
    let v = chars_of(s);
    let mut out: Vec<char> = Vec::new();
    let mut i: usize = 0;
    while i < v.len()
        invariant
            i <= v@.len(),
            out@ == sanitized(v@.take(i as int)),
        decreases v.len() - i,
    {
        let c = v[i];
        assert(v@.take(i + 1).drop_last() =~= v@.take(i as int));
        assert(v@.take(i + 1).last() == c);
        if !(c <= '\u{1F}' || c == '\u{7F}' || ('\u{80}' <= c && c <= '\u{9F}')) {
            out.push(c);
        }
        i = i + 1;
    }
    assert(v@.take(v@.len() as int) =~= v@);
    string_of(&out)
}

/// Sanitized text holds no control character.
pub proof fn law_sanitized_has_no_control(s: Seq<char>)
    ensures
        forall|i: int| 0 <= i < sanitized(s).len() ==> !is_control(#[trigger] sanitized(s)[i]),
    decreases s.len(),
{
    if s.len() > 0 {
        law_sanitized_has_no_control(s.drop_last());
        let t = sanitized(s.drop_last());
        assert forall|i: int| 0 <= i < sanitized(s).len() implies !is_control(#[trigger] sanitized(s)[i]) by {
            if i < t.len() {
                assert(sanitized(s)[i] == t[i]);
            }
        }
    }
}

/// Sanitizing twice changes nothing, and text without control characters
/// passes unchanged.
pub proof fn law_sanitize_idempotent(s: Seq<char>)
    ensures
        sanitized(sanitized(s)) == sanitized(s),
        (forall|i: int| 0 <= i < s.len() ==> !is_control(#[trigger] s[i])) ==> sanitized(s) == s,
    decreases s.len(),
{
    if s.len() > 0 {
        law_sanitize_idempotent(s.drop_last());
        let t = sanitized(s.drop_last());
        if !is_control(s.last()) {
            assert(t.push(s.last()).drop_last() =~= t);
        }
        if forall|i: int| 0 <= i < s.len() ==> !is_control(#[trigger] s[i]) {
            assert forall|i: int| 0 <= i < s.drop_last().len() implies !is_control(#[trigger] s.drop_last()[i]) by {
                assert(s.drop_last()[i] == s[i]);
            }
            assert(!is_control(s[s.len() - 1]));
            assert(s.drop_last().push(s.last()) =~= s);
        }
    }
}

} // verus!
