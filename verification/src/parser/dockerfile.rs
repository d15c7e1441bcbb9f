//! Line-based Dockerfile parser.
//!
//! Supported instructions: FROM, WORKDIR, COPY (host source, or a single
//! `--from=<stage>` flag), ENV and RUN. Other keywords, COPY with other
//! flags and multi-source COPY are kept verbatim as `Instruction::Unknown`.
//! One instruction per line; no continuation lines.

use vstd::prelude::*;
use crate::model::instruction::{CopySource, Instruction};
use crate::parser::error::ParseError;
use crate::text::{
    append_chars, append_str, chars_eq_str, chars_of, find, find_char, is_ascii_ws, is_ascii_ws_char,
    join, lines, lines_exec, lower, lower_exec, starts_with, starts_with_str, string_of, subvec, trim,
    trim_chars, trim_start, trim_start_chars, vviews, words, words_of, eq_ignore_ascii_case,
};

verus! {

// ───────────────────────── specification ─────────────────────────

/// The first ASCII-whitespace position at or after `i`.
pub open spec fn ascii_ws_pos(s: Seq<char>, i: int) -> Option<int>
    decreases s.len() - i,
{
    if i < 0 || i >= s.len() {
        None
    } else if is_ascii_ws(s[i]) {
        Some(i)
    } else {
        ascii_ws_pos(s, i + 1)
    }
}

/// The instruction keyword of a trimmed line: everything before the first
/// ASCII whitespace.
pub open spec fn keyword(t: Seq<char>) -> Seq<char> {
    match ascii_ws_pos(t, 0) {
        Some(p) => t.take(p),
        None => t,
    }
}

/// The arguments of a trimmed line: everything after the first ASCII
/// whitespace, leading whitespace removed.
pub open spec fn args(t: Seq<char>) -> Seq<char> {
    match ascii_ws_pos(t, 0) {
        Some(p) => trim_start(t.skip(p)),
        None => seq![],
    }
}

/// A line that produces nothing: blank, or a comment.
pub open spec fn skipped(l: Seq<char>) -> bool {
    trim(l).len() == 0 || trim(l)[0] == '#'
}

/// The error message of `FROM <rest>`, if malformed.
pub open spec fn from_error(rest: Seq<char>) -> Option<Seq<char>> {
    let ws = words(rest);
    if ws.len() == 0 {
        Some("FROM requires an image name"@)
    } else if ws.len() >= 2 && lower(ws[1]) == lower("as"@) {
        if ws.len() < 3 {
            Some("FROM … AS requires a stage alias after AS"@)
        } else if ws.len() > 3 {
            Some("FROM has unexpected extra tokens: "@ + join(ws.skip(3), " "@))
        } else {
            None
        }
    } else if ws.len() > 1 {
        Some("FROM has unexpected extra tokens: "@ + join(ws.skip(1), " "@))
    } else {
        None
    }
}

/// The key and value of `ENV <rest>`: split at the first `=`, else at the
/// first ASCII whitespace; the key is trimmed, the value kept verbatim.
pub open spec fn env_parts(rest: Seq<char>) -> (Seq<char>, Seq<char>) {
    match find(rest, "="@) {
        Some(p) => (trim(rest.take(p)), rest.skip(p + 1)),
        None => match ascii_ws_pos(rest, 0) {
            Some(p) => (trim(rest.take(p)), rest.skip(p + 1)),
            None => (trim(rest), seq![]),
        },
    }
}

/// `COPY --from=<stage> <src> <dest>`: exactly three words, the first being
/// a non-empty `--from=` flag.
pub open spec fn stage_copy_form(rest: Seq<char>) -> bool {
    let ws = words(rest);
    ws.len() == 3 && starts_with(ws[0], "--from="@) && ws[0].len() > "--from="@.len()
}

/// The error message of a trimmed, non-skipped line, if malformed.
pub open spec fn line_error(t: Seq<char>) -> Option<Seq<char>> {
    let k = lower(keyword(t));
    let rest = args(t);
    if k == "from"@ {
        from_error(rest)
    } else if k == "workdir"@ {
        if trim(rest).len() == 0 {
            Some("WORKDIR requires a path argument"@)
        } else {
            None
        }
    } else if k == "copy"@ {
        if starts_with(trim_start(rest), "--"@) || words(rest).len() > 2 {
            None
        } else if words(rest).len() < 2 {
            Some("COPY requires at least two arguments: <src> <dest>"@)
        } else {
            None
        }
    } else if k == "env"@ {
        if env_parts(rest).0.len() == 0 {
            Some("ENV requires a non-empty key"@)
        } else {
            None
        }
    } else if k == "run"@ {
        if trim(rest).len() == 0 {
            Some("RUN requires a command"@)
        } else {
            None
        }
    } else {
        None
    }
}

/// `i` is the instruction a trimmed, well-formed line `t` denotes.
pub open spec fn line_instr(i: Instruction, t: Seq<char>) -> bool {
    let k = lower(keyword(t));
    let rest = args(t);
    let ws = words(rest);
    if k == "from"@ {
        &&& i matches Instruction::From { image, alias }
        &&& image@ == ws[0]
        &&& if ws.len() >= 2 && lower(ws[1]) == lower("as"@) {
            alias matches Some(a) && a@ == ws[2]
        } else {
            alias is None
        }
    } else if k == "workdir"@ {
        i matches Instruction::Workdir { path } && path@ == trim(rest)
    } else if k == "copy"@ {
        if starts_with(trim_start(rest), "--"@) {
            if stage_copy_form(rest) {
                &&& i matches Instruction::Copy { source: CopySource::Stage { name, src_path }, dest }
                &&& name@ == ws[0].skip("--from="@.len() as int)
                &&& src_path@ == ws[1]
                &&& dest@ == ws[2]
            } else {
                i matches Instruction::Unknown { raw } && raw@ == t
            }
        } else if ws.len() > 2 {
            i matches Instruction::Unknown { raw } && raw@ == t
        } else {
            &&& i matches Instruction::Copy { source: CopySource::Host(src), dest }
            &&& src@ == ws[0]
            &&& dest@ == ws[1]
        }
    } else if k == "env"@ {
        i matches Instruction::Env { key, value } && key@ == env_parts(rest).0 && value@
            == env_parts(rest).1
    } else if k == "run"@ {
        i matches Instruction::Run { command } && command@ == trim(rest)
    } else {
        i matches Instruction::Unknown { raw } && raw@ == t
    }
}

/// The trimmed lines that produce instructions, in order.
pub open spec fn kept(ls: Seq<Seq<char>>) -> Seq<Seq<char>>
    decreases ls.len(),
{
    if ls.len() == 0 {
        seq![]
    } else if skipped(ls.last()) {
        kept(ls.drop_last())
    } else {
        kept(ls.drop_last()).push(trim(ls.last()))
    }
}

/// The first malformed line: its index and the error message.
pub open spec fn first_error(ls: Seq<Seq<char>>) -> Option<(int, Seq<char>)>
    decreases ls.len(),
{
    if ls.len() == 0 {
        None
    } else {
        match first_error(ls.drop_last()) {
            Some(e) => Some(e),
            None => if skipped(ls.last()) {
                None
            } else {
                match line_error(trim(ls.last())) {
                    Some(m) => Some(((ls.len() - 1) as int, m)),
                    None => None,
                }
            },
        }
    }
}

/// Once a prefix holds a malformed line, the whole input reports it.
pub proof fn lemma_first_error_prefix(ls: Seq<Seq<char>>, n: int)
    requires
        0 <= n <= ls.len(),
        first_error(ls.take(n)) is Some,
    ensures
        first_error(ls) == first_error(ls.take(n)),
    decreases ls.len() - n,
{
    if n < ls.len() {
        assert(ls.take(n + 1).drop_last() =~= ls.take(n));
        lemma_first_error_prefix(ls, n + 1);
    } else {
        assert(ls.take(n) =~= ls);
    }
}

// ───────────────────────── implementation ─────────────────────────

/// Splits a trimmed line into its keyword and arguments.
fn split_keyword(t: &Vec<char>) -> (r: (Vec<char>, Vec<char>))
    ensures
        r.0@ == keyword(t@),
        r.1@ == args(t@),
{
    let mut i: usize = 0;
    while i < t.len() && !is_ascii_ws_char(t[i])
        invariant
            i <= t.len(),
            ascii_ws_pos(t@, 0) == ascii_ws_pos(t@, i as int),
        decreases t.len() - i,
    {
        i = i + 1;
    }
    if i < t.len() {
        let kw = subvec(t, 0, i);
        let after = subvec(t, i, t.len());
        assert(after@ =~= t@.skip(i as int));
        (kw, trim_start_chars(&after))
    } else {
        assert(t@.take(i as int) =~= t@);
        (subvec(t, 0, i), Vec::new())
    }
}

/// The first ASCII-whitespace position in `v`.
fn ascii_ws_pos_exec(v: &Vec<char>) -> (r: Option<usize>)
    ensures
        match r {
            Some(p) => ascii_ws_pos(v@, 0) == Some(p as int) && p < v@.len(),
            None => ascii_ws_pos(v@, 0) is None,
        },
{
    let mut i: usize = 0;
    while i < v.len()
        invariant
            i <= v.len(),
            ascii_ws_pos(v@, 0) == ascii_ws_pos(v@, i as int),
        decreases v.len() - i,
    {
        if is_ascii_ws_char(v[i]) {
            return Some(i);
        }
        i = i + 1;
    }
    None
}

fn err(line: usize, msg: &str) -> (e: ParseError)
    ensures
        e == (ParseError::InvalidInstruction { line, message: e->message }),
        e->message@ == msg@,
{
    ParseError::InvalidInstruction { line, message: String::from_str(msg) }
}

/// Joins `ws[from..]` with single spaces.
pub(crate) fn join_words(ws: &Vec<Vec<char>>, from: usize) -> (r: Vec<char>)
    requires
        from <= ws.len(),
    ensures
        r@ == join(vviews(ws@).skip(from as int), " "@),
{
    let ghost vs = vviews(ws@).skip(from as int);
    let mut acc: Vec<char> = Vec::new();
    let mut i: usize = from;
    while i < ws.len()
        invariant
            from <= i <= ws.len(),
            vs == vviews(ws@).skip(from as int),
            acc@ == join(vs.take(i - from), " "@),
        decreases ws.len() - i,
    {
        assert(vs.take(i - from + 1).drop_last() =~= vs.take(i - from));
        assert(vs.take(i - from + 1).last() == ws@[i as int]@);
        if i > from {
            append_str(&mut acc, " ");
        }
        append_chars(&mut acc, &ws[i]);
        i = i + 1;
        proof {
            if i == from + 1 {
                assert(acc@ =~= vs.take(1)[0]);
            }
        }
    }
    assert(vs.take(ws.len() - from) =~= vs);
    acc
}

/// Parses `FROM <rest>`.
fn from_args(rest: &Vec<char>, line: usize) -> (r: Result<Instruction, ParseError>)
    ensures
        match r {
            Ok(i) => from_error(rest@) is None && words(rest@).len() > 0 && ({
                let ws = words(rest@);
                &&& i matches Instruction::From { image, alias }
                &&& image@ == ws[0]
                &&& if ws.len() >= 2 && lower(ws[1]) == lower("as"@) {
                    alias matches Some(a) && a@ == ws[2]
                } else {
                    alias is None
                }
            }),
            Err(e) => from_error(rest@) == Some(e->message@) && e->line == line,
        },
{
    let ws = words_of(rest);
    if ws.len() == 0 {
        return Err(err(line, "FROM requires an image name"));
    }
    let image = string_of(&ws[0]);
    if ws.len() >= 2 && eq_ignore_ascii_case(&ws[1], "as") {
        if ws.len() < 3 {
            return Err(err(line, "FROM … AS requires a stage alias after AS"));
        }
        if ws.len() > 3 {
            let mut m: Vec<char> = Vec::new();
            append_str(&mut m, "FROM has unexpected extra tokens: ");
            let j = join_words(&ws, 3);
            append_chars(&mut m, &j);
            return Err(ParseError::InvalidInstruction { line, message: string_of(&m) });
        }
        let alias = string_of(&ws[2]);
        Ok(Instruction::From { image, alias: Some(alias) })
    } else {
        if ws.len() > 1 {
            let mut m: Vec<char> = Vec::new();
            append_str(&mut m, "FROM has unexpected extra tokens: ");
            let j = join_words(&ws, 1);
            append_chars(&mut m, &j);
            return Err(ParseError::InvalidInstruction { line, message: string_of(&m) });
        }
        Ok(Instruction::From { image, alias: None })
    }
}

/// Parses `ENV <rest>`.
fn env_args(rest: &Vec<char>, line: usize) -> (r: Result<Instruction, ParseError>)
    ensures
        match r {
            Ok(i) => env_parts(rest@).0.len() > 0 && (i matches Instruction::Env { key, value }
                && key@ == env_parts(rest@).0 && value@ == env_parts(rest@).1),
            Err(e) => env_parts(rest@).0.len() == 0 && e->message@ == "ENV requires a non-empty key"@
                && e->line == line,
        },
{
    let eq = find_char(rest, '=');
    let sp = ascii_ws_pos_exec(rest);
    let cut: Option<usize> = match eq {
        Some(p) => Some(p),
        None => sp,
    };
    let (key, value) = match cut {
        Some(p) => {
            let n = rest.len();
            let k = subvec(rest, 0, p);
            (trim_chars(&k), subvec(rest, p + 1, n))
        },
        None => (trim_chars(rest), Vec::new()),
    };
    proof {
        assert(seq!['='] == "="@) by {
            reveal_strlit("=");
        }
        match find(rest@, "="@) {
            Some(p) => {
                crate::text::lemma_find_from_range(rest@, "="@, 0);
            },
            None => {},
        }
        assert(value@ =~= env_parts(rest@).1);
        assert(key@ =~= env_parts(rest@).0);
    }
    if key.len() == 0 {
        return Err(err(line, "ENV requires a non-empty key"));
    }
    Ok(Instruction::Env { key: string_of(&key), value: string_of(&value) })
}

/// Parses `WORKDIR <rest>`: the trimmed path, which must not be empty.
fn workdir_args(rest: &Vec<char>, line: usize) -> (r: Result<Instruction, ParseError>)
    ensures
        match r {
            Ok(i) => trim(rest@).len() > 0 && (i matches Instruction::Workdir { path } && path@ == trim(rest@)),
            Err(e) => trim(rest@).len() == 0 && e->message@ == "WORKDIR requires a path argument"@ && e->line
                == line,
        },
{
    let p = trim_chars(rest);
    if p.len() == 0 {
        return Err(err(line, "WORKDIR requires a path argument"));
    }
    Ok(Instruction::Workdir { path: string_of(&p) })
}

/// Parses `COPY <src> <dest>` from the build context: at least two words,
/// the first two being the source and the destination.
fn copy_args(rest: &Vec<char>, line: usize) -> (r: Result<Instruction, ParseError>)
    ensures
        match r {
            Ok(i) => words(rest@).len() >= 2 && ({
                &&& i matches Instruction::Copy { source: CopySource::Host(src), dest }
                &&& src@ == words(rest@)[0]
                &&& dest@ == words(rest@)[1]
            }),
            Err(e) => words(rest@).len() < 2 && e->message@ == "COPY requires at least two arguments: <src> <dest>"@
                && e->line == line,
        },
{
    let ws = words_of(rest);
    if ws.len() < 2 {
        return Err(err(line, "COPY requires at least two arguments: <src> <dest>"));
    }
    Ok(Instruction::Copy { source: CopySource::Host(string_of(&ws[0])), dest: string_of(&ws[1]) })
}

/// Parses `RUN <rest>`: the trimmed command, which must not be empty.
fn run_args(rest: &Vec<char>, line: usize) -> (r: Result<Instruction, ParseError>)
    ensures
        match r {
            Ok(i) => trim(rest@).len() > 0 && (i matches Instruction::Run { command } && command@ == trim(rest@)),
            Err(e) => trim(rest@).len() == 0 && e->message@ == "RUN requires a command"@ && e->line == line,
        },
{
    let c = trim_chars(rest);
    if c.len() == 0 {
        return Err(err(line, "RUN requires a command"));
    }
    Ok(Instruction::Run { command: string_of(&c) })
}

/// Parses the arguments of a `FROM` instruction on line `line`:
/// `<image> [AS <alias>]` and nothing more.
pub fn parse_from(rest: &str, line: usize) -> (r: Result<Instruction, ParseError>)
    ensures
        match r {
            Ok(i) => from_error(rest@) is None && words(rest@).len() > 0 && ({
                let ws = words(rest@);
                &&& i matches Instruction::From { image, alias }
                &&& image@ == ws[0]
                &&& if ws.len() >= 2 && lower(ws[1]) == lower("as"@) {
                    alias matches Some(a) && a@ == ws[2]
                } else {
                    alias is None
                }
            }),
            Err(e) => from_error(rest@) == Some(e->message@) && e->line == line,
        },
{
    from_args(&chars_of(rest), line)
}

/// Parses the arguments of a `WORKDIR` instruction on line `line`.
pub fn parse_workdir(rest: &str, line: usize) -> (r: Result<Instruction, ParseError>)
    ensures
        match r {
            Ok(i) => trim(rest@).len() > 0 && (i matches Instruction::Workdir { path } && path@ == trim(rest@)),
            Err(e) => trim(rest@).len() == 0 && e->message@ == "WORKDIR requires a path argument"@ && e->line
                == line,
        },
{
    workdir_args(&chars_of(rest), line)
}

/// Parses the arguments of a host `COPY` instruction on line `line`.
pub fn parse_copy(rest: &str, line: usize) -> (r: Result<Instruction, ParseError>)
    ensures
        match r {
            Ok(i) => words(rest@).len() >= 2 && ({
                &&& i matches Instruction::Copy { source: CopySource::Host(src), dest }
                &&& src@ == words(rest@)[0]
                &&& dest@ == words(rest@)[1]
            }),
            Err(e) => words(rest@).len() < 2 && e->message@ == "COPY requires at least two arguments: <src> <dest>"@
                && e->line == line,
        },
{
    copy_args(&chars_of(rest), line)
}

/// Parses the arguments of an `ENV` instruction on line `line`.
pub fn parse_env(rest: &str, line: usize) -> (r: Result<Instruction, ParseError>)
    ensures
        match r {
            Ok(i) => env_parts(rest@).0.len() > 0 && (i matches Instruction::Env { key, value }
                && key@ == env_parts(rest@).0 && value@ == env_parts(rest@).1),
            Err(e) => env_parts(rest@).0.len() == 0 && e->message@ == "ENV requires a non-empty key"@
                && e->line == line,
        },
{
    env_args(&chars_of(rest), line)
}

/// Parses the arguments of a `RUN` instruction on line `line`.
pub fn parse_run(rest: &str, line: usize) -> (r: Result<Instruction, ParseError>)
    ensures
        match r {
            Ok(i) => trim(rest@).len() > 0 && (i matches Instruction::Run { command } && command@ == trim(rest@)),
            Err(e) => trim(rest@).len() == 0 && e->message@ == "RUN requires a command"@ && e->line == line,
        },
{
    run_args(&chars_of(rest), line)
}

/// Parses one trimmed, non-skipped line.
fn parse_line(t: &Vec<char>, line: usize) -> (r: Result<Instruction, ParseError>)
    ensures
        match r {
            Ok(i) => line_error(t@) is None && line_instr(i, t@),
            Err(e) => line_error(t@) == Some(e->message@) && e->line == line,
        },
{
    let (kw, rest) = split_keyword(t);
    let k = lower_exec(&kw);
    let ws = words_of(&rest);
    if chars_eq_str(&k, "from") {
        from_args(&rest, line)
    } else if chars_eq_str(&k, "workdir") {
        workdir_args(&rest, line)
    } else if chars_eq_str(&k, "copy") {
        let tr = trim_start_chars(&rest);
        if starts_with_str(&tr, "--") {
            if ws.len() == 3 && starts_with_str(&ws[0], "--from=") && ws[0].len() > 7 {
                proof {
                    reveal_strlit("--from=");
                }
                let name = subvec(&ws[0], 7, ws[0].len());
                assert(name@ =~= ws@[0]@.skip("--from="@.len() as int));
                Ok(
                    Instruction::Copy {
                        source: CopySource::Stage {
                            name: string_of(&name),
                            src_path: string_of(&ws[1]),
                        },
                        dest: string_of(&ws[2]),
                    },
                )
            } else {
                proof {
                    reveal_strlit("--from=");
                }
                Ok(Instruction::Unknown { raw: string_of(t) })
            }
        } else if ws.len() > 2 {
            Ok(Instruction::Unknown { raw: string_of(t) })
        } else {
            copy_args(&rest, line)
        }
    } else if chars_eq_str(&k, "env") {
        env_args(&rest, line)
    } else if chars_eq_str(&k, "run") {
        run_args(&rest, line)
    } else {
        Ok(Instruction::Unknown { raw: string_of(t) })
    }
}

/// Parses a Dockerfile into its instructions.
///
/// Blank lines and `#` comments are skipped; unsupported instructions become
/// `Instruction::Unknown`. A known instruction with malformed arguments makes
/// the whole parse fail with the first such line's number (1-based).
pub fn parse_dockerfile(input: &str) -> (r: Result<Vec<Instruction>, ParseError>)
    ensures
        match r {
            Ok(v) => first_error(lines(input@)) is None && v@.len() == kept(lines(input@)).len()
                && forall|k: int| 0 <= k < v@.len() ==> line_instr(#[trigger] v@[k], kept(lines(input@))[k]),
            Err(e) => (first_error(lines(input@)) matches Some((idx, m)) && e->line == idx + 1
                && e->message@ == m),
        },
{
    let text = chars_of(input);
    let ls = lines_exec(&text);
    let ghost lv = vviews(ls@);
    let mut out: Vec<Instruction> = Vec::new();
    let mut idx: usize = 0;
    while idx < ls.len()
        invariant
            idx <= ls.len(),
            lv == vviews(ls@),
            lv == lines(input@),
            first_error(lv.take(idx as int)) is None,
            out@.len() == kept(lv.take(idx as int)).len(),
            forall|k: int| 0 <= k < out@.len() ==> line_instr(#[trigger] out@[k], kept(lv.take(idx as int))[k]),
        decreases ls.len() - idx,
    {
        let ghost pre = lv.take(idx as int);
        let ghost nxt = lv.take(idx + 1);
        assert(nxt.drop_last() =~= pre);
        assert(nxt.last() == ls@[idx as int]@);
        let t = trim_chars(&ls[idx]);
        if t.len() == 0 || t[0] == '#' {
            idx = idx + 1;
        } else {
            match parse_line(&t, idx + 1) {
                Ok(i) => {
                    let ghost o0 = out@;
                    out.push(i);
                    idx = idx + 1;
                    proof {
                        assert forall|k: int| 0 <= k < out@.len() implies line_instr(
                            #[trigger] out@[k],
                            kept(lv.take(idx as int))[k],
                        ) by {
                            if k < o0.len() {
                                assert(out@[k] == o0[k]);
                            }
                        }
                    }
                },
                Err(e) => {
                    proof {
                        assert(first_error(nxt) == Some((idx as int, e->message@)));
                        lemma_first_error_prefix(lv, idx + 1);
                    }
                    return Err(e);
                },
            }
        }
    }
    assert(lv.take(ls.len() as int) =~= lv);
    Ok(out)
}

} // verus!
