//! Parsing one line of shell input into a typed command.
//!
//! Parsing is total: unrecognised input becomes `Unknown` rather than an
//! error, so the shell can answer with a friendly message.

use vstd::prelude::*;
use crate::text::{chars_eq_str, chars_of, copy_chars, join, string_of, trim, trim_chars, words, words_of, vviews};

verus! {

/// A parsed shell command.
#[derive(Debug, Clone, PartialEq)]
pub enum ParsedCommand {
    /// `ls [-l] [path]`
    Ls { path: Option<String>, long: bool },
    /// `cd [path]` (default `/`)
    Cd { path: String },
    /// `pwd`
    Pwd,
    /// `cat <path>`
    Cat { path: String },
    /// `find [path] [-name pattern]`
    Find { path: String, name_pattern: Option<String> },
    /// `env`
    Env,
    /// `exit` or `quit`
    Exit,
    /// `help`
    Help,
    /// `:layers`
    Layers,
    /// `:history`
    History,
    /// `:installed`
    Installed,
    /// `:explain <path>`
    Explain { path: String },
    /// `:services`
    Services,
    /// `:mounts`
    Mounts,
    /// `:depends`
    Depends,
    /// `:reload`
    Reload,
    /// `which <cmd>` (empty when no argument was given)
    Which { cmd: String },
    /// `apt list [--installed]`
    AptList { installed: bool },
    /// `pip list`
    PipList,
    /// Empty or whitespace-only input.
    Empty,
    /// Anything else, kept (trimmed) for the error message.
    Unknown { input: String },
}

/// The abstract value of a `ParsedCommand`.
pub enum CmdV {
    Ls(Option<Seq<char>>, bool),
    Cd(Seq<char>),
    Pwd,
    Cat(Seq<char>),
    Find(Seq<char>, Option<Seq<char>>),
    Env,
    Exit,
    Help,
    Layers,
    History,
    Installed,
    Explain(Seq<char>),
    Services,
    Mounts,
    Depends,
    Reload,
    Which(Seq<char>),
    AptList(bool),
    PipList,
    Empty,
    Unknown(Seq<char>),
}

/// The view of an optional string.
pub open spec fn ov(o: Option<String>) -> Option<Seq<char>> {
    match o {
        Some(s) => Some(s@),
        None => None,
    }
}

impl View for ParsedCommand {
    type V = CmdV;

    open spec fn view(&self) -> CmdV {
        match self {
            ParsedCommand::Ls { path, long } => CmdV::Ls(ov(*path), *long),
            ParsedCommand::Cd { path } => CmdV::Cd(path@),
            ParsedCommand::Pwd => CmdV::Pwd,
            ParsedCommand::Cat { path } => CmdV::Cat(path@),
            ParsedCommand::Find { path, name_pattern } => CmdV::Find(path@, ov(*name_pattern)),
            ParsedCommand::Env => CmdV::Env,
            ParsedCommand::Exit => CmdV::Exit,
            ParsedCommand::Help => CmdV::Help,
            ParsedCommand::Layers => CmdV::Layers,
            ParsedCommand::History => CmdV::History,
            ParsedCommand::Installed => CmdV::Installed,
            ParsedCommand::Explain { path } => CmdV::Explain(path@),
            ParsedCommand::Services => CmdV::Services,
            ParsedCommand::Mounts => CmdV::Mounts,
            ParsedCommand::Depends => CmdV::Depends,
            ParsedCommand::Reload => CmdV::Reload,
            ParsedCommand::Which { cmd } => CmdV::Which(cmd@),
            ParsedCommand::AptList { installed } => CmdV::AptList(*installed),
            ParsedCommand::PipList => CmdV::PipList,
            ParsedCommand::Empty => CmdV::Empty,
            ParsedCommand::Unknown { input } => CmdV::Unknown(input@),
        }
    }
}

/// A word that starts with `-`.
pub open spec fn dashed(w: Seq<char>) -> bool {
    w.len() > 0 && w[0] == '-'
}

/// `ls` arguments: any flag holding `l` asks for the long format; the last
/// non-flag argument is the path.
pub open spec fn ls_args(args: Seq<Seq<char>>) -> (Option<Seq<char>>, bool)
    decreases args.len(),
{
    if args.len() == 0 {
        (None, false)
    } else {
        let (p, l) = ls_args(args.drop_last());
        let a = args.last();
        if dashed(a) {
            (p, l || a.contains('l'))
        } else {
            (Some(a), l)
        }
    }
}

/// The pattern given by `-name` flags among `args[i..]`: each `-name`
/// followed by a word sets it (the last one wins).
pub open spec fn name_pattern_from(args: Seq<Seq<char>>, i: int, acc: Option<Seq<char>>) -> Option<Seq<char>>
    decreases args.len() - i,
{
    if i >= args.len() || i < 0 {
        acc
    } else if args[i] == "-name"@ {
        if i + 1 < args.len() {
            name_pattern_from(args, i + 2, Some(args[i + 1]))
        } else {
            acc
        }
    } else {
        name_pattern_from(args, i + 1, acc)
    }
}

/// `find` arguments: an optional leading path (default `/`), then
/// `-name <pattern>` pairs.
pub open spec fn find_args(args: Seq<Seq<char>>) -> CmdV {
    if args.len() > 0 && !dashed(args[0]) {
        CmdV::Find(args[0], name_pattern_from(args, 1, None))
    } else {
        CmdV::Find("/"@, name_pattern_from(args, 0, None))
    }
}

/// The command a line of input asks for.
pub open spec fn parsed(line: Seq<char>) -> CmdV {
    let t = trim(line);
    if t.len() == 0 {
        CmdV::Empty
    } else {
        let ws = words(t);
        let c = if ws.len() > 0 {
            ws[0]
        } else {
            t
        };
        let args = if ws.len() > 0 {
            ws.skip(1)
        } else {
            seq![]
        };
        if c == "ls"@ {
            CmdV::Ls(ls_args(args).0, ls_args(args).1)
        } else if c == "cd"@ {
            CmdV::Cd(
                if args.len() > 0 {
                    args[0]
                } else {
                    "/"@
                },
            )
        } else if c == "pwd"@ {
            CmdV::Pwd
        } else if c == "cat"@ {
            CmdV::Cat(join(args, " "@))
        } else if c == "find"@ {
            find_args(args)
        } else if c == "env"@ {
            CmdV::Env
        } else if c == "exit"@ || c == "quit"@ {
            CmdV::Exit
        } else if c == "help"@ {
            CmdV::Help
        } else if c == "apt"@ {
            if args == seq!["list"@, "--installed"@] {
                CmdV::AptList(true)
            } else if args == seq!["list"@] {
                CmdV::AptList(false)
            } else {
                CmdV::Unknown(t)
            }
        } else if c == "pip"@ {
            if args == seq!["list"@] {
                CmdV::PipList
            } else {
                CmdV::Unknown(t)
            }
        } else if c == "which"@ {
            CmdV::Which(
                if args.len() > 0 {
                    args[0]
                } else {
                    seq![]
                },
            )
        } else if c == ":layers"@ {
            CmdV::Layers
        } else if c == ":history"@ {
            CmdV::History
        } else if c == ":installed"@ {
            CmdV::Installed
        } else if c == ":explain"@ {
            CmdV::Explain(join(args, " "@))
        } else if c == ":services"@ {
            CmdV::Services
        } else if c == ":mounts"@ {
            CmdV::Mounts
        } else if c == ":depends"@ {
            CmdV::Depends
        } else if c == ":reload"@ {
            CmdV::Reload
        } else {
            CmdV::Unknown(t)
        }
    }
}

fn dashed_exec(w: &Vec<char>) -> (b: bool)
    ensures
        b == dashed(w@),
{
    w.len() > 0 && w[0] == '-'
}

/// Parses `ls` arguments.
pub fn parse_ls(args: &Vec<Vec<char>>) -> (c: ParsedCommand)
    ensures
        c@ == CmdV::Ls(ls_args(vviews(args@)).0, ls_args(vviews(args@)).1),
{
    let ghost av = vviews(args@);
    let mut long = false;
    let mut path: Option<String> = None;
    let mut i: usize = 0;
    while i < args.len()
        invariant
            i <= args@.len(),
            av == vviews(args@),
            (ov(path), long) == ls_args(av.take(i as int)),
        decreases args.len() - i,
    {
        assert(av.take(i + 1).drop_last() =~= av.take(i as int));
        assert(av.take(i + 1).last() == args@[i as int]@);
        if dashed_exec(&args[i]) {
            if crate::text::contains_char(&args[i], 'l') {
                long = true;
            }
        } else {
            path = Some(string_of(&args[i]));
        }
        i = i + 1;
    }
    assert(av.take(args@.len() as int) =~= av);
    ParsedCommand::Ls { path, long }
}

/// Parses `cd` arguments: the first one, or `/`.
pub fn parse_cd(args: &Vec<Vec<char>>) -> (c: ParsedCommand)
    ensures
        c@ == CmdV::Cd(
            if args@.len() > 0 {
                args@[0]@
            } else {
                "/"@
            },
        ),
{
    if args.len() > 0 {
        ParsedCommand::Cd { path: string_of(&args[0]) }
    } else {
        ParsedCommand::Cd { path: "/".to_string() }
    }
}

fn join_words(args: &Vec<Vec<char>>) -> (r: String)
    ensures
        r@ == join(vviews(args@), " "@),
{
    let v = crate::parser::dockerfile::join_words(args, 0);
    assert(vviews(args@).skip(0) =~= vviews(args@));
    string_of(&v)
}

/// Parses `cat` arguments: all of them joined with single spaces.
pub fn parse_cat(args: &Vec<Vec<char>>) -> (c: ParsedCommand)
    ensures
        c@ == CmdV::Cat(join(vviews(args@), " "@)),
{
    ParsedCommand::Cat { path: join_words(args) }
}

/// Parses `find` arguments.
pub fn parse_find(args: &Vec<Vec<char>>) -> (c: ParsedCommand)
    ensures
        c@ == find_args(vviews(args@)),
{
    let ghost av = vviews(args@);
    let mut path = "/".to_string();
    let mut i: usize = 0;
    if args.len() > 0 && !dashed_exec(&args[0]) {
        path = string_of(&args[0]);
        i = 1;
    }
    let ghost start = i as int;
    let mut pattern: Option<String> = None;
    while i < args.len()
        invariant
            start <= i <= args@.len() + 1,
            av == vviews(args@),
            name_pattern_from(av, i as int, ov(pattern)) == name_pattern_from(av, start, None),
        decreases args.len() - i,
    {
        if chars_eq_str(&args[i], "-name") {
            if i + 1 < args.len() {
                pattern = Some(string_of(&args[i + 1]));
                i = i + 2;
            } else {
                i = i + 1;
                assert(name_pattern_from(av, i as int, ov(pattern)) == ov(pattern));
            }
        } else {
            i = i + 1;
        }
    }
    ParsedCommand::Find { path, name_pattern: pattern }
}

/// Parses `apt` arguments: `list --installed` and `list` are known; any
/// other form is unknown.
pub fn parse_apt(args: &Vec<Vec<char>>, trimmed: &str) -> (c: ParsedCommand)
    ensures
        c@ == (if vviews(args@) == seq!["list"@, "--installed"@] {
            CmdV::AptList(true)
        } else if vviews(args@) == seq!["list"@] {
            CmdV::AptList(false)
        } else {
            CmdV::Unknown(trimmed@)
        }),
{
    let n = args.len();
    let first_list = n > 0 && chars_eq_str(&args[0], "list");
    let second_installed = n > 1 && chars_eq_str(&args[1], "--installed");
    proof {
        assert(vviews(args@).len() == n);
        if n > 0 {
            assert(vviews(args@)[0] == args@[0]@);
        }
        if n > 1 {
            assert(vviews(args@)[1] == args@[1]@);
        }
    }
    if n == 2 && first_list && second_installed {
        assert(vviews(args@) =~= seq!["list"@, "--installed"@]);
        ParsedCommand::AptList { installed: true }
    } else if n == 1 && first_list {
        assert(vviews(args@) =~= seq!["list"@]);
        ParsedCommand::AptList { installed: false }
    } else {
        ParsedCommand::Unknown { input: trimmed.to_string() }
    }
}

/// Parses `pip` arguments: only `list` is known.
pub fn parse_pip(args: &Vec<Vec<char>>, trimmed: &str) -> (c: ParsedCommand)
    ensures
        c@ == (if vviews(args@) == seq!["list"@] {
            CmdV::PipList
        } else {
            CmdV::Unknown(trimmed@)
        }),
{
    let n = args.len();
    let first_list = n > 0 && chars_eq_str(&args[0], "list");
    proof {
        assert(vviews(args@).len() == n);
        if n > 0 {
            assert(vviews(args@)[0] == args@[0]@);
        }
    }
    if n == 1 && first_list {
        assert(vviews(args@) =~= seq!["list"@]);
        ParsedCommand::PipList
    } else {
        ParsedCommand::Unknown { input: trimmed.to_string() }
    }
}

/// Parses `which` arguments: the first one, or the empty string.
pub fn parse_which(args: &Vec<Vec<char>>) -> (c: ParsedCommand)
    ensures
        c@ == CmdV::Which(
            if args@.len() > 0 {
                args@[0]@
            } else {
                seq![]
            },
        ),
{
    if args.len() > 0 {
        ParsedCommand::Which { cmd: string_of(&args[0]) }
    } else {
        let e: Vec<char> = Vec::new();
        ParsedCommand::Which { cmd: string_of(&e) }
    }
}

/// Parses one line of shell input. Commands are matched case-sensitively
/// on the first word; unknown input is kept, trimmed.
pub fn parse_input(line: &str) -> (c: ParsedCommand)
    ensures
        c@ == parsed(line@),
{
    let l = chars_of(line);
    let t = trim_chars(&l);
    if t.len() == 0 {
        return ParsedCommand::Empty;
    }
    let ts = string_of(&t);
    let ws = words_of(&t);
    let mut args: Vec<Vec<char>> = Vec::new();
    let c = if ws.len() > 0 {
        copy_chars(&ws[0])
    } else {
        copy_chars(&t)
    };
    if ws.len() > 0 {
        let mut i: usize = 1;
        while i < ws.len()
            invariant
                1 <= i <= ws@.len(),
                vviews(args@) == vviews(ws@).subrange(1, i as int),
            decreases ws.len() - i,
        {
            let ghost a0 = args@;
            let w = copy_chars(&ws[i]);
            args.push(w);
            proof {
                crate::text::lemma_vviews_push(a0, w);
                assert(vviews(ws@).subrange(1, i + 1) =~= vviews(ws@).subrange(1, i as int).push(ws@[i as int]@));
            }
            i = i + 1;
        }
        assert(vviews(ws@).subrange(1, ws@.len() as int) =~= vviews(ws@).skip(1));
        assert(vviews(ws@)[0] == ws@[0]@);
    } else {
        assert(vviews(args@) =~= Seq::<Seq<char>>::empty());
    }
    if chars_eq_str(&c, "ls") {
        parse_ls(&args)
    } else if chars_eq_str(&c, "cd") {
        parse_cd(&args)
    } else if chars_eq_str(&c, "pwd") {
        ParsedCommand::Pwd
    } else if chars_eq_str(&c, "cat") {
        parse_cat(&args)
    } else if chars_eq_str(&c, "find") {
        parse_find(&args)
    } else if chars_eq_str(&c, "env") {
        ParsedCommand::Env
    } else if chars_eq_str(&c, "exit") || chars_eq_str(&c, "quit") {
        ParsedCommand::Exit
    } else if chars_eq_str(&c, "help") {
        ParsedCommand::Help
    } else if chars_eq_str(&c, "apt") {
        parse_apt(&args, ts.as_str())
    } else if chars_eq_str(&c, "pip") {
        parse_pip(&args, ts.as_str())
    } else if chars_eq_str(&c, "which") {
        parse_which(&args)
    } else if chars_eq_str(&c, ":layers") {
        ParsedCommand::Layers
    } else if chars_eq_str(&c, ":history") {
        ParsedCommand::History
    } else if chars_eq_str(&c, ":installed") {
        ParsedCommand::Installed
    } else if chars_eq_str(&c, ":explain") {
        ParsedCommand::Explain { path: join_words(&args) }
    } else if chars_eq_str(&c, ":services") {
        ParsedCommand::Services
    } else if chars_eq_str(&c, ":mounts") {
        ParsedCommand::Mounts
    } else if chars_eq_str(&c, ":depends") {
        ParsedCommand::Depends
    } else if chars_eq_str(&c, ":reload") {
        ParsedCommand::Reload
    } else {
        ParsedCommand::Unknown { input: ts }
    }
}

} // verus!
