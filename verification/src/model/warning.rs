//! Non-fatal diagnostics emitted during simulation.

use vstd::prelude::*;
use crate::text::{append_chars, append_str, chars_of, decimal, decimal_exec, is_ws, string_of, words, words_of, join};

verus! {

/// Why a RUN sub-command was not modeled.
#[derive(Debug, Clone, PartialEq)]
pub enum UnmodeledReason {
    /// The command name is not in the modeled set.
    UnrecognisedCommand,
    /// The command is known but a flag prevents modeling.
    UnsupportedFlag { flag: String },
    /// The command is known but its arguments fall outside the modeled subset.
    UnsupportedUsage,
}

/// The abstract value of an `UnmodeledReason`.
pub enum ReasonV {
    Unrecognised,
    Flag(Seq<char>),
    Usage,
}

impl View for UnmodeledReason {
    type V = ReasonV;

    open spec fn view(&self) -> ReasonV {
        match self {
            UnmodeledReason::UnrecognisedCommand => ReasonV::Unrecognised,
            UnmodeledReason::UnsupportedFlag { flag } => ReasonV::Flag(flag@),
            UnmodeledReason::UnsupportedUsage => ReasonV::Usage,
        }
    }
}

impl UnmodeledReason {
    /// The human-readable text of the reason.
    pub open spec fn text(&self) -> Seq<char> {
        match self {
            UnmodeledReason::UnrecognisedCommand => "not modeled"@,
            UnmodeledReason::UnsupportedFlag { flag } => "unsupported flag: "@ + flag@,
            UnmodeledReason::UnsupportedUsage => "unsupported usage"@,
        }
    }

    /// The human-readable text of the reason.
    pub fn message(&self) -> (r: String)
        ensures
            r@ == self.text(),
    {
        let mut v: Vec<char> = Vec::new();
        match self {
            UnmodeledReason::UnrecognisedCommand => append_str(&mut v, "not modeled"),
            UnmodeledReason::UnsupportedFlag { flag } => {
                append_str(&mut v, "unsupported flag: ");
                append_str(&mut v, flag.as_str());
            },
            UnmodeledReason::UnsupportedUsage => append_str(&mut v, "unsupported usage"),
        }
        assert(v@ =~= self.text());
        string_of(&v)
    }
}

/// A non-fatal diagnostic produced by the simulation engine.
#[derive(Debug, Clone, PartialEq)]
pub enum Warning {
    /// An instruction the engine does not support.
    UnsupportedInstruction { instruction: String, line: usize },
    /// A COPY source missing from the build context.
    MissingCopySource { path: String },
    /// A COPY glob pattern, which is not modeled.
    UnsupportedGlob { pattern: String },
    /// A RUN sub-command that was not simulated.
    UnmodeledRunCommand { command: String, reason: UnmodeledReason },
    /// A package install that was recorded but not executed.
    SimulatedInstall { manager: String, packages: Vec<String> },
    /// A base image with no filesystem stub.
    EmptyBaseImage { image: String },
    /// A `COPY --from` naming a stage that does not exist.
    MissingCopyStage { stage: String, line: usize },
    /// A Compose service with an image but no build context.
    ImageOnlyService { image: String },
    /// A Compose `env_file` that could not be read.
    EnvFileNotFound { path: String },
    /// A Compose `environment` entry with no value.
    UnresolvedEnvKey { key: String },
    /// A Compose `working_dir` whose `..` would leave the root.
    WorkdirEscapedRoot { path: String },
}

/// The first whitespace-separated word of `s`, or `s` itself when it has none.
pub open spec fn first_word(s: Seq<char>) -> Seq<char> {
    if words(s).len() > 0 {
        words(s)[0]
    } else {
        s
    }
}

/// The views of a sequence of strings.
pub open spec fn string_views(v: Seq<String>) -> Seq<Seq<char>> {
    Seq::new(v.len(), |i: int| v[i]@)
}

/// The abstract value of a `Warning`.
pub enum WarnV {
    UnsupportedInstruction(Seq<char>, nat),
    MissingCopySource(Seq<char>),
    UnsupportedGlob(Seq<char>),
    Unmodeled(Seq<char>, ReasonV),
    SimulatedInstall(Seq<char>, Seq<Seq<char>>),
    EmptyBaseImage(Seq<char>),
    MissingCopyStage(Seq<char>, nat),
    ImageOnlyService(Seq<char>),
    EnvFileNotFound(Seq<char>),
    UnresolvedEnvKey(Seq<char>),
    WorkdirEscapedRoot(Seq<char>),
}

impl View for Warning {
    type V = WarnV;

    open spec fn view(&self) -> WarnV {
        match self {
            Warning::UnsupportedInstruction { instruction, line } => WarnV::UnsupportedInstruction(
                instruction@,
                *line as nat,
            ),
            Warning::MissingCopySource { path } => WarnV::MissingCopySource(path@),
            Warning::UnsupportedGlob { pattern } => WarnV::UnsupportedGlob(pattern@),
            Warning::UnmodeledRunCommand { command, reason } => WarnV::Unmodeled(command@, reason@),
            Warning::SimulatedInstall { manager, packages } => WarnV::SimulatedInstall(
                manager@,
                string_views(packages@),
            ),
            Warning::EmptyBaseImage { image } => WarnV::EmptyBaseImage(image@),
            Warning::MissingCopyStage { stage, line } => WarnV::MissingCopyStage(stage@, *line as nat),
            Warning::ImageOnlyService { image } => WarnV::ImageOnlyService(image@),
            Warning::EnvFileNotFound { path } => WarnV::EnvFileNotFound(path@),
            Warning::UnresolvedEnvKey { key } => WarnV::UnresolvedEnvKey(key@),
            Warning::WorkdirEscapedRoot { path } => WarnV::WorkdirEscapedRoot(path@),
        }
    }
}

/// The abstract values of a sequence of warnings.
pub open spec fn wviews(v: Seq<Warning>) -> Seq<WarnV> {
    Seq::new(v.len(), |i: int| v[i]@)
}

pub proof fn lemma_wviews_push(v: Seq<Warning>, w: Warning)
    ensures
        wviews(v.push(w)) == wviews(v).push(w@),
{
    assert(wviews(v.push(w)) =~= wviews(v).push(w@));
}

/// A copy of each string of `v`, in order.
pub fn dup_strings(v: &Vec<String>) -> (r: Vec<String>)
    ensures
        r@ == v@,
{
    let mut r: Vec<String> = Vec::new();
    let mut i: usize = 0;
    while i < v.len()
        invariant
            i <= v@.len(),
            r@ == v@.take(i as int),
        decreases v.len() - i,
    {
        r.push(v[i].clone());
        assert(r@ =~= v@.take(i + 1));
        i = i + 1;
    }
    assert(r@ =~= v@);
    r
}

impl UnmodeledReason {
    /// An identical copy of this reason.
    pub fn dup(&self) -> (r: Self)
        ensures
            r == *self,
    {
        match self {
            UnmodeledReason::UnrecognisedCommand => UnmodeledReason::UnrecognisedCommand,
            UnmodeledReason::UnsupportedFlag { flag } => UnmodeledReason::UnsupportedFlag { flag: flag.clone() },
            UnmodeledReason::UnsupportedUsage => UnmodeledReason::UnsupportedUsage,
        }
    }
}

impl Warning {
    /// An identical copy of this warning.
    pub fn dup(&self) -> (r: Self)
        ensures
            r@ == self@,
    {
        match self {
            Warning::UnsupportedInstruction { instruction, line } => Warning::UnsupportedInstruction {
                instruction: instruction.clone(),
                line: *line,
            },
            Warning::MissingCopySource { path } => Warning::MissingCopySource { path: path.clone() },
            Warning::UnsupportedGlob { pattern } => Warning::UnsupportedGlob { pattern: pattern.clone() },
            Warning::UnmodeledRunCommand { command, reason } => Warning::UnmodeledRunCommand {
                command: command.clone(),
                reason: reason.dup(),
            },
            Warning::SimulatedInstall { manager, packages } => Warning::SimulatedInstall {
                manager: manager.clone(),
                packages: dup_strings(packages),
            },
            Warning::EmptyBaseImage { image } => Warning::EmptyBaseImage { image: image.clone() },
            Warning::MissingCopyStage { stage, line } => Warning::MissingCopyStage {
                stage: stage.clone(),
                line: *line,
            },
            Warning::ImageOnlyService { image } => Warning::ImageOnlyService { image: image.clone() },
            Warning::EnvFileNotFound { path } => Warning::EnvFileNotFound { path: path.clone() },
            Warning::UnresolvedEnvKey { key } => Warning::UnresolvedEnvKey { key: key.clone() },
            Warning::WorkdirEscapedRoot { path } => Warning::WorkdirEscapedRoot { path: path.clone() },
        }
    }

    /// The human-readable text of the warning.
    pub open spec fn text(&self) -> Seq<char> {
        match self {
            Warning::UnsupportedInstruction { instruction, line } => "unsupported instruction '"@
                + instruction@ + "' at line "@ + decimal(*line as nat) + " (skipped)"@,
            Warning::MissingCopySource { path } => "COPY source '"@ + path@
                + "' not found in build context (skipped)"@,
            Warning::UnsupportedGlob { pattern } => "glob pattern '"@ + pattern@
                + "' is not modeled; copy skipped"@,
            Warning::UnmodeledRunCommand { command, reason } => "skipped RUN sub-command '"@
                + command@ + "' ("@ + match reason {
                UnmodeledReason::UnrecognisedCommand => "not modeled: "@ + first_word(command@),
                UnmodeledReason::UnsupportedFlag { flag } => "unsupported flag: "@ + flag@,
                UnmodeledReason::UnsupportedUsage => "unsupported usage"@,
            } + ")"@,
            Warning::SimulatedInstall { manager, packages } => "simulated "@ + manager@
                + " install: "@ + join(string_views(packages@), ", "@)
                + " (no real packages downloaded)"@,
            Warning::EmptyBaseImage { image } => "base image '"@ + image@
                + "' has no stub; filesystem starts empty"@,
            Warning::MissingCopyStage { stage, line } => "COPY --from='"@ + stage@
                + "' references unknown stage at line "@ + decimal(*line as nat) + " (skipped)"@,
            Warning::ImageOnlyService { image } => "service uses image '"@ + image@
                + "' with no build context — filesystem is empty"@,
            Warning::EnvFileNotFound { path } => "env_file '"@ + path@ + "' not found — skipped"@,
            Warning::UnresolvedEnvKey { key } => "environment key '"@ + key@
                + "' has no value — skipped"@,
            Warning::WorkdirEscapedRoot { path } => "working_dir '"@ + path@
                + "' escapes the virtual root — clamped to /"@,
        }
    }

    /// The human-readable text of the warning (unsanitized).
    pub fn message(&self) -> (r: String)
        ensures
            r@ == self.text(),
    {
        let mut v: Vec<char> = Vec::new();
        match self {
            Warning::UnsupportedInstruction { instruction, line } => {
                append_str(&mut v, "unsupported instruction '");
                append_str(&mut v, instruction.as_str());
                append_str(&mut v, "' at line ");
                let d = decimal_exec(*line);
                append_chars(&mut v, &d);
                append_str(&mut v, " (skipped)");
            },
            Warning::MissingCopySource { path } => {
                append_str(&mut v, "COPY source '");
                append_str(&mut v, path.as_str());
                append_str(&mut v, "' not found in build context (skipped)");
            },
            Warning::UnsupportedGlob { pattern } => {
                append_str(&mut v, "glob pattern '");
                append_str(&mut v, pattern.as_str());
                append_str(&mut v, "' is not modeled; copy skipped");
            },
            Warning::UnmodeledRunCommand { command, reason } => {
                append_str(&mut v, "skipped RUN sub-command '");
                append_str(&mut v, command.as_str());
                append_str(&mut v, "' (");
                match reason {
                    UnmodeledReason::UnrecognisedCommand => {
                        append_str(&mut v, "not modeled: ");
                        let c = chars_of(command.as_str());
                        let ws = words_of(&c);
                        if ws.len() > 0 {
                            append_chars(&mut v, &ws[0]);
                        } else {
                            append_chars(&mut v, &c);
                        }
                    },
                    UnmodeledReason::UnsupportedFlag { flag } => {
                        append_str(&mut v, "unsupported flag: ");
                        append_str(&mut v, flag.as_str());
                    },
                    UnmodeledReason::UnsupportedUsage => {
                        append_str(&mut v, "unsupported usage");
                    },
                }
                append_str(&mut v, ")");
            },
            Warning::SimulatedInstall { manager, packages } => {
                append_str(&mut v, "simulated ");
                append_str(&mut v, manager.as_str());
                append_str(&mut v, " install: ");
                let j = join_strings(packages, ", ");
                append_chars(&mut v, &j);
                append_str(&mut v, " (no real packages downloaded)");
            },
            Warning::EmptyBaseImage { image } => {
                append_str(&mut v, "base image '");
                append_str(&mut v, image.as_str());
                append_str(&mut v, "' has no stub; filesystem starts empty");
            },
            Warning::MissingCopyStage { stage, line } => {
                append_str(&mut v, "COPY --from='");
                append_str(&mut v, stage.as_str());
                append_str(&mut v, "' references unknown stage at line ");
                let d = decimal_exec(*line);
                append_chars(&mut v, &d);
                append_str(&mut v, " (skipped)");
            },
            Warning::ImageOnlyService { image } => {
                append_str(&mut v, "service uses image '");
                append_str(&mut v, image.as_str());
                append_str(&mut v, "' with no build context — filesystem is empty");
            },
            Warning::EnvFileNotFound { path } => {
                append_str(&mut v, "env_file '");
                append_str(&mut v, path.as_str());
                append_str(&mut v, "' not found — skipped");
            },
            Warning::UnresolvedEnvKey { key } => {
                append_str(&mut v, "environment key '");
                append_str(&mut v, key.as_str());
                append_str(&mut v, "' has no value — skipped");
            },
            Warning::WorkdirEscapedRoot { path } => {
                append_str(&mut v, "working_dir '");
                append_str(&mut v, path.as_str());
                append_str(&mut v, "' escapes the virtual root — clamped to /");
            },
        }
        assert(v@ =~= self.text());
        string_of(&v)
    }
}

/// The strings of `parts` joined by `sep`.
pub fn join_strings(parts: &Vec<String>, sep: &str) -> (r: Vec<char>)
    ensures
        r@ == join(string_views(parts@), sep@),
{
    let ghost vs = string_views(parts@);
    let mut acc: Vec<char> = Vec::new();
    let mut i: usize = 0;
    while i < parts.len()
        invariant
            i <= parts.len(),
            vs == string_views(parts@),
            acc@ == join(vs.take(i as int), sep@),
        decreases parts.len() - i,
    {
        assert(vs.take(i + 1).drop_last() =~= vs.take(i as int));
        assert(vs.take(i + 1).last() == parts@[i as int]@);
        if i > 0 {
            append_str(&mut acc, sep);
        }
        append_str(&mut acc, parts[i].as_str());
        i = i + 1;
        proof {
            if i == 1 {
                assert(acc@ =~= vs.take(1)[0]);
            }
        }
    }
    assert(vs.take(parts.len() as int) =~= vs);
    acc
}

} // verus!
