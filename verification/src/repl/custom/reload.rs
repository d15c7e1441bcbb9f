//! `:reload` and start-up stage selection: what the shell reports and which
//! state it continues with once the file has been read, parsed and run.
//!
//! Reading the file and gathering build-context sources is the program's
//! part; it hands each outcome to one of these functions and prints the
//! text they return.

use vstd::prelude::*;
use crate::engine::runner::EngineOutput;
use crate::model::sorted::{in_order, lemma_in_order};
use crate::model::state::PreviewState;
use crate::model::warning::Warning;
use crate::output::sanitize::{sanitize_for_terminal, sanitized};
use crate::text::{append_str, decimal, decimal_exec, append_chars, join, string_of, sviews};

verus! {

/// One `warning: ...` line per warning, each sanitized for the terminal.
pub open spec fn warning_block(ws: Seq<Warning>) -> Seq<char>
    decreases ws.len(),
{
    if ws.len() == 0 {
        seq![]
    } else {
        warning_block(ws.drop_last()) + "warning: "@ + sanitized(ws.last().text()) + "\n"@
    }
}

/// Renders `warnings` as `warning: ...` lines.
pub fn warning_lines(warnings: &Vec<Warning>) -> (r: String)
    ensures
        r@ == warning_block(warnings@),
{
    let mut v: Vec<char> = Vec::new();
    let mut i: usize = 0;
    while i < warnings.len()
        invariant
            i <= warnings@.len(),
            v@ == warning_block(warnings@.take(i as int)),
        decreases warnings.len() - i,
    {
        let m = warnings[i].message();
        let safe = sanitize_for_terminal(m.as_str());
        append_str(&mut v, "warning: ");
        append_str(&mut v, safe.as_str());
        append_str(&mut v, "\n");
        assert(warnings@.take(i + 1).drop_last() =~= warnings@.take(i as int));
        assert(warnings@.take(i + 1).last() == warnings@[i as int]);
        i = i + 1;
    }
    assert(warnings@.take(warnings@.len() as int) =~= warnings@);
    string_of(&v)
}

/// The note printed when the stage chosen at start-up is gone.
pub open spec fn stage_gone_note(name: Seq<char>) -> Seq<char> {
    "warning: stage '"@ + sanitized(name) + "' no longer exists after reload; using final stage\n"@
}

/// The confirmation printed after a reload that ran `n` instructions.
pub open spec fn reloaded_note(n: nat) -> Seq<char> {
    "Reloaded. "@ + decimal(n) + " instructions processed.\n"@
}

/// What a reload prints: `out` to standard output, `err` to standard error.
pub struct ReloadReport {
    pub out: String,
    pub err: String,
}

/// Installs the result of a successful re-run: the stage chosen at start-up
/// when it still exists (else the final stage, with a note), then reports
/// the new state's warnings and how many instructions it recorded.
pub fn apply_reload(state: &mut PreviewState, selected_stage: Option<&str>, output: EngineOutput) -> (r: ReloadReport)
    ensures
        ({
            let kept = match selected_stage {
                Some(n) => output.stages@.contains_key(n@),
                None => false,
            };
            &&& kept ==> final(state)@ == output.stages@[selected_stage->Some_0@]@
            &&& !kept ==> final(state)@ == output.state@
            &&& r.err@ == (match selected_stage {
                Some(n) => if kept { seq![] } else { stage_gone_note(n@) },
                None => seq![],
            }) + warning_block(final(state).warnings@)
            &&& r.out@ == reloaded_note(final(state).history@.len())
        }),
{
    let mut err: Vec<char> = Vec::new();
    let new_state = match selected_stage {
        Some(name) => match output.stages.get(name) {
            Some(s) => s.dup(),
            None => {
                let safe = sanitize_for_terminal(name);
                append_str(&mut err, "warning: stage '");
                append_str(&mut err, safe.as_str());
                append_str(&mut err, "' no longer exists after reload; using final stage\n");
                output.state
            },
        },
        None => output.state,
    };
    let w = warning_lines(&new_state.warnings);
    append_str(&mut err, w.as_str());
    let n = new_state.history.len();
    *state = new_state;
    let mut out: Vec<char> = Vec::new();
    append_str(&mut out, "Reloaded. ");
    let d = decimal_exec(n);
    append_chars(&mut out, &d);
    append_str(&mut out, " instructions processed.\n");
    proof {
        reveal_strlit("");
    }
    ReloadReport { out: string_of(&out), err: string_of(&err) }
}

/// The error printed when the file cannot be read: `reason` is the
/// operating system's message.
pub fn read_failure(path: &str, reason: &str, compose: bool) -> (r: String)
    ensures
        r@ == (if compose { "demu: cannot read compose file '"@ } else { "demu: cannot read Dockerfile '"@ })
            + sanitized(path@) + "': "@ + reason@ + "\n"@,
{
    let mut v: Vec<char> = Vec::new();
    if compose {
        append_str(&mut v, "demu: cannot read compose file '");
    } else {
        append_str(&mut v, "demu: cannot read Dockerfile '");
    }
    let safe = sanitize_for_terminal(path);
    append_str(&mut v, safe.as_str());
    append_str(&mut v, "': ");
    append_str(&mut v, reason);
    append_str(&mut v, "\n");
    string_of(&v)
}

/// The error printed when the file does not parse.
pub fn parse_failure(message: &str, compose: bool) -> (r: String)
    ensures
        r@ == (if compose { "demu: compose parse error: "@ } else { "demu: parse error: "@ }) + sanitized(
            message@,
        ) + "\n"@,
{
    let mut v: Vec<char> = Vec::new();
    if compose {
        append_str(&mut v, "demu: compose parse error: ");
    } else {
        append_str(&mut v, "demu: parse error: ");
    }
    let safe = sanitize_for_terminal(message);
    append_str(&mut v, safe.as_str());
    append_str(&mut v, "\n");
    string_of(&v)
}

/// The error printed when the engine refuses the parsed file.
pub fn engine_failure(message: &str, compose: bool) -> (r: String)
    ensures
        r@ == (if compose { "demu: compose engine error: "@ } else { "demu: engine error: "@ }) + sanitized(
            message@,
        ) + "\n"@,
{
    let mut v: Vec<char> = Vec::new();
    if compose {
        append_str(&mut v, "demu: compose engine error: ");
    } else {
        append_str(&mut v, "demu: engine error: ");
    }
    let safe = sanitize_for_terminal(message);
    append_str(&mut v, safe.as_str());
    append_str(&mut v, "\n");
    string_of(&v)
}

/// The error given at start-up for a `--stage` that names no stage.
pub open spec fn unknown_stage_message(name: Seq<char>, keys: Seq<Seq<char>>) -> Seq<char> {
    "stage '"@ + sanitized(name) + "' not found; available stages: "@ + join(
        Seq::new(keys.len(), |i: int| sanitized(keys[i])),
        ", "@,
    )
}

/// The state the shell starts in: the stage named by `--stage` (an alias or
/// a numeric index), or the final stage when none is named. An unknown
/// name is an error listing every key in increasing order.
pub fn select_stage(output: EngineOutput, stage: Option<&str>) -> (r: Result<PreviewState, String>)
    ensures
        match stage {
            None => r matches Ok(s) && s@ == output.state@,
            Some(n) => if output.stages@.contains_key(n@) {
                r matches Ok(s) && s@ == output.stages@[n@]@
            } else {
                r matches Err(m) && m@ == unknown_stage_message(n@, in_order(output.stages@.dom()))
            },
        },
{
    match stage {
        None => Ok(output.state),
        Some(name) => match output.stages.get(name) {
            Some(s) => Ok(s.dup()),
            None => {
                let keys = output.stages.keys();
                let ghost q = sviews(keys@);
                proof {
                    assert(crate::model::sorted::strictly_sorted(q)) by {
                        assert forall|a: int, b: int| 0 <= a < b < q.len() implies crate::model::sorted::lex_lt(q[a], q[b]) by {
                            assert(q[a] == keys@[a]@ && q[b] == keys@[b]@);
                        }
                    }
                    assert forall|k: Seq<char>| output.stages@.dom().contains(k) <==> q.contains(k) by {
                    }
                    lemma_in_order(output.stages@.dom(), q);
                }
                let ghost parts = Seq::new(q.len(), |i: int| sanitized(q[i]));
                let mut v: Vec<char> = Vec::new();
                append_str(&mut v, "stage '");
                let safe = sanitize_for_terminal(name);
                append_str(&mut v, safe.as_str());
                append_str(&mut v, "' not found; available stages: ");
                let ghost head = v@;
                let mut i: usize = 0;
                while i < keys.len()
                    invariant
                        i <= keys@.len(),
                        q == sviews(keys@),
                        parts == Seq::new(q.len(), |i: int| sanitized(q[i])),
                        v@ == head + join(parts.take(i as int), ", "@),
                    decreases keys.len() - i,
                {
                    let ghost before = v@;
                    if i > 0 {
                        append_str(&mut v, ", ");
                    }
                    let k = sanitize_for_terminal(keys[i].as_str());
                    append_str(&mut v, k.as_str());
                    proof {
                        let t = parts.take(i + 1);
                        assert(t.drop_last() =~= parts.take(i as int));
                        assert(t.last() == sanitized(q[i as int]));
                        reveal_strlit(", ");
                        if i == 0 {
                            assert(t.len() == 1);
                            assert(join(t, ", "@) == t[0]);
                            assert(join(parts.take(0), ", "@) == Seq::<char>::empty());
                            assert(v@ =~= head + join(t, ", "@));
                        } else {
                            assert(v@ =~= head + join(t, ", "@));
                        }
                    }
                    i = i + 1;
                }
                assert(parts.take(keys@.len() as int) =~= parts);
                Err(string_of(&v))
            },
        },
    }
}

} // verus!
