//! Running the stages of a build: what each stage hands to the shell or
//! to the script, the directory in which the commands of a stage run, and
//! how the errors of the script are worded.

use crate::recipe::Execution;
use crate::text::{
    append_chars, chars_of, contains_text, copy_str, decimal_digits, decimal_of, find_text,
    string_of,
};
use vstd::prelude::*;

verus! {

/// The text that the shell runs for a command: the command after the
/// order to stop at the first failure.
pub open spec fn shell_script_of(command: Seq<char>) -> Seq<char> {
    "set -e; "@ + command
}

/// The text that the shell runs for a command.
pub fn shell_script(command: &str) -> (r: String)
    ensures
        r@ == shell_script_of(command@),
{
    let mut out = chars_of("set -e; ");
    let body = chars_of(command);
    append_chars(&mut out, &body);
    string_of(&out)
}

/// How a command of the shell ended.
#[derive(Clone, Copy, Debug, PartialEq, Eq, Structural)]
pub enum ShellOutcome {
    /// The command ended by itself, with this status.
    Exited(i32),
    /// The command was ended by a signal.
    Signaled,
}

/// The decimal text of an integer.
pub open spec fn int_text(n: int) -> Seq<char> {
    if n < 0 {
        seq!['-'] + decimal_digits((-n) as nat)
    } else {
        decimal_digits(n as nat)
    }
}

/// The text that says how a command failed.
pub open spec fn shell_failure_of(command: Seq<char>, outcome: ShellOutcome) -> Seq<char> {
    match outcome {
        ShellOutcome::Exited(code) => "command `"@ + command + "` exited with status "@ + int_text(
            code as int,
        ),
        ShellOutcome::Signaled => "command `"@ + command + "` terminated by signal"@,
    }
}

fn int_chars(n: i32) -> (r: Vec<char>)
    ensures
        r@ == int_text(n as int),
{
    if n < 0 {
        let magnitude: u64 = (-(n as i64)) as u64;
        let mut out: Vec<char> = Vec::new();
        out.push('-');
        let digits = decimal_of(magnitude);
        append_chars(&mut out, &digits);
        out
    } else {
        decimal_of(n as u64)
    }
}

/// Judges the end of a command: a command has done its work only if it
/// ended by itself with the status zero.
pub fn check_shell(command: &str, outcome: ShellOutcome) -> (r: Result<(), String>)
    ensures
        match r {
            Ok(_) => outcome == ShellOutcome::Exited(0),
            Err(message) => outcome != ShellOutcome::Exited(0) && message@ == shell_failure_of(
                command@,
                outcome,
            ),
        },
{
    match outcome {
        ShellOutcome::Exited(code) => {
            if code == 0 {
                Ok(())
            } else {
                let mut out = chars_of("command `");
                let body = chars_of(command);
                append_chars(&mut out, &body);
                let middle = chars_of("` exited with status ");
                append_chars(&mut out, &middle);
                let status = int_chars(code);
                append_chars(&mut out, &status);
                Err(string_of(&out))
            }
        },
        ShellOutcome::Signaled => {
            let mut out = chars_of("command `");
            let body = chars_of(command);
            append_chars(&mut out, &body);
            let tail = chars_of("` terminated by signal");
            append_chars(&mut out, &tail);
            Err(string_of(&out))
        },
    }
}

/// The stages of a build.
#[derive(Clone, Copy, Debug, PartialEq, Eq, Structural)]
pub enum StageKind {
    Prepare,
    Build,
    Check,
    Pack,
}

/// What is done next for a stage.
#[derive(Debug)]
pub enum StageStep {
    /// The shell runs this text.
    RunShell(String),
    /// The script runs the function with this handle on these arguments.
    Call { handle: u64, arguments: Vec<String> },
    /// Nothing is left to do.
    Finished,
}

/// The arguments of the function of a stage: the directory to fill for
/// the stage `pack`, and none for the other stages.
pub open spec fn stage_arguments(kind: StageKind, destination: Seq<char>) -> Seq<Seq<char>> {
    match kind {
        StageKind::Pack => seq![destination],
        _ => Seq::empty(),
    }
}

/// The texts of some strings.
pub open spec fn texts_of(v: Seq<String>) -> Seq<Seq<char>> {
    v.map_values(|s: String| s@)
}

/// Whether `step` is the first step of the stage `stage`: a text goes to
/// the shell, a function is called with the arguments of its stage.
pub open spec fn first_step(
    step: StageStep,
    stage: Execution,
    kind: StageKind,
    destination: Seq<char>,
) -> bool {
    match stage {
        Execution::Shell(text) => step matches StageStep::RunShell(s) && s@ == shell_script_of(
            text@,
        ),
        Execution::Fn(h) => step matches StageStep::Call { handle, arguments } && handle == h
            && texts_of(arguments@) == stage_arguments(kind, destination),
    }
}

/// The first step of a stage.
pub fn start_stage(stage: &Execution, kind: StageKind, destination: &str) -> (r: StageStep)
    ensures
        first_step(r, *stage, kind, destination@),
{
    match stage {
        Execution::Shell(text) => StageStep::RunShell(shell_script(text.as_str())),
        Execution::Fn(h) => {
            let mut arguments: Vec<String> = Vec::new();
            match kind {
                StageKind::Pack => {
                    arguments.push(copy_str(destination));
                },
                _ => {},
            }
            proof {
                assert(texts_of(arguments@) =~= stage_arguments(kind, destination@));
            }
            StageStep::Call { handle: *h, arguments }
        },
    }
}

/// The step after the function of a stage came back: a text that it
/// handed back goes to the shell, and after anything else the stage is
/// done.
pub fn after_call(returned: Option<&str>) -> (r: StageStep)
    ensures
        match returned {
            Some(text) => r matches StageStep::RunShell(s) && s@ == shell_script_of(text@),
            None => r is Finished,
        },
{
    match returned {
        Some(text) => StageStep::RunShell(shell_script(text)),
        None => StageStep::Finished,
    }
}

/// The directory `path` seen from the directory `directory`: a path from
/// the root stands for itself, any other path is put after the directory.
pub open spec fn joined(directory: Seq<char>, path: Seq<char>) -> Seq<char> {
    if path.len() > 0 && path[0] == '/' {
        path
    } else if directory.len() == 0 || directory.last() == '/' {
        directory + path
    } else {
        directory + seq!['/'] + path
    }
}

fn join(directory: &str, path: &str) -> (r: String)
    ensures
        r@ == joined(directory@, path@),
{
    let d = chars_of(directory);
    let p = chars_of(path);
    if p.len() > 0 && p[0] == '/' {
        return string_of(&p);
    }
    let mut out = d;
    if out.len() > 0 && out[out.len() - 1] != '/' {
        out.push('/');
    }
    append_chars(&mut out, &p);
    string_of(&out)
}

/// Whether the helper `cd`, asked for `path` in the state `before`, gives
/// the state `after` and the outcome `outcome`: while the stage runs the
/// directory changes, and afterwards the helper is refused.
pub open spec fn cd_step(
    before: StageScope,
    path: Seq<char>,
    after: StageScope,
    outcome: Result<(), ScopeClosed>,
) -> bool {
    &&& after.open == before.open
    &&& match outcome {
        Ok(_) => before.open && after.directory@ == joined(before.directory@, path),
        Err(_) => !before.open && after.directory@ == before.directory@,
    }
}

/// The helpers `run` and `cd` were called outside the stage for which
/// they were set up.
#[derive(Clone, Copy, Debug, PartialEq, Eq, Structural)]
pub struct ScopeClosed;

/// What the shell is asked to do by the helper `run`.
#[derive(Debug)]
pub struct ShellRequest {
    pub script: String,
    pub directory: String,
}

/// The state of the helpers `run` and `cd` of one stage: the directory in
/// which commands run, and whether the stage is still running.
#[derive(Debug)]
pub struct StageScope {
    pub directory: String,
    pub open: bool,
}

impl StageScope {
    /// The state at the start of a stage that runs in `directory`.
    pub fn enter(directory: &str) -> (r: StageScope)
        ensures
            r.open,
            r.directory@ == directory@,
    {
        StageScope { directory: copy_str(directory), open: true }
    }

    /// The helper `cd`: commands that follow run in `path`, seen from the
    /// directory of before.
    pub fn cd(self, path: &str) -> (r: (StageScope, Result<(), ScopeClosed>))
        ensures
            cd_step(self, path@, r.0, r.1),
    {
        if self.open {
            let directory = join(self.directory.as_str(), path);
            (StageScope { directory, open: true }, Ok(()))
        } else {
            (self, Err(ScopeClosed))
        }
    }

    /// The helper `run`: the shell runs the command in the directory of
    /// the stage.
    pub fn run(&self, command: &str) -> (r: Result<ShellRequest, ScopeClosed>)
        ensures
            match r {
                Ok(request) => self.open && request.script@ == shell_script_of(command@)
                    && request.directory@ == self.directory@,
                Err(_) => !self.open,
            },
    {
        if self.open {
            Ok(
                ShellRequest {
                    script: shell_script(command),
                    directory: self.directory.clone(),
                },
            )
        } else {
            Err(ScopeClosed)
        }
    }

    /// The end of the stage: from now on the helpers are refused.
    pub fn leave(self) -> (r: StageScope)
        ensures
            !r.open,
            r.directory@ == self.directory@,
    {
        StageScope { directory: self.directory, open: false }
    }
}

/// Once a stage has ended, its helper `cd` is refused and leaves the
/// state as it is.
pub proof fn law_scope_stays_closed(
    scope: StageScope,
    path: Seq<char>,
    next: StageScope,
    outcome: Result<(), ScopeClosed>,
)
    requires
        !scope.open,
        cd_step(scope, path, next, outcome),
    ensures
        outcome is Err,
        !next.open,
        next.directory@ == scope.directory@,
{
}

/// An error of the script.
#[derive(Debug)]
pub enum ScriptError {
    /// The script failed while it ran.
    Runtime(String),
    /// The script is not well formed.
    Syntax(String),
    /// The script ran out of memory.
    Memory(String),
    /// A function that the script called failed: where it was called, and
    /// why it failed.
    Callback { traceback: String, cause: Box<ScriptError> },
    /// Any other error, in the words of the interpreter.
    Other(String),
}

/// The words that mark a traceback.
pub open spec fn traceback_mark() -> Seq<char> {
    "stack traceback:"@
}

/// The wording of an error of the script. The errors of the interpreter
/// are worded by their bare message. The error of a called function is
/// worded as its cause is, and the traceback is put after it unless the
/// wording holds a traceback already.
pub open spec fn pretty_of(e: ScriptError) -> Seq<char>
    decreases e,
{
    match e {
        ScriptError::Runtime(s) => s@,
        ScriptError::Syntax(s) => s@,
        ScriptError::Memory(s) => s@,
        ScriptError::Callback { traceback, cause } => {
            let inner = pretty_of(*cause);
            if contains_text(inner, traceback_mark()) {
                inner
            } else {
                inner + seq!['\n'] + traceback@
            }
        },
        ScriptError::Other(s) => s@,
    }
}

/// The wording of an error of the script.
pub fn prettify_error(e: &ScriptError) -> (r: String)
    ensures
        r@ == pretty_of(*e),
    decreases e,
{
    match e {
        ScriptError::Runtime(s) => s.clone(),
        ScriptError::Syntax(s) => s.clone(),
        ScriptError::Memory(s) => s.clone(),
        ScriptError::Callback { traceback, cause } => {
            let inner = prettify_error(cause);
            let mut out = chars_of(inner.as_str());
            let mark = chars_of("stack traceback:");
            if find_text(&out, &mark) {
                inner
            } else {
                out.push('\n');
                let tail = chars_of(traceback.as_str());
                append_chars(&mut out, &tail);
                string_of(&out)
            }
        },
        ScriptError::Other(s) => s.clone(),
    }
}

/// The phases of a build, in their order.
#[derive(Clone, Copy, Debug, PartialEq, Eq, Structural)]
pub enum Phase {
    /// The files of the source are fetched.
    Fetch,
    /// The stage `prepare` runs.
    Prepare,
    /// The stage `build` runs.
    Build,
    /// The packages are made, under the supervisor that feigns the rights
    /// of the superuser.
    Pack,
    /// The build is done.
    Done,
    /// A phase failed, and with it the build.
    Failed,
}

/// The phase that follows a phase: the next one after a success, and the
/// failure of the build after a failure. Nothing follows the end.
pub open spec fn phase_after(phase: Phase, ok: bool) -> Phase {
    match phase {
        Phase::Done => Phase::Done,
        Phase::Failed => Phase::Failed,
        _ if !ok => Phase::Failed,
        Phase::Fetch => Phase::Prepare,
        Phase::Prepare => Phase::Build,
        Phase::Build => Phase::Pack,
        Phase::Pack => Phase::Done,
    }
}

/// The phase that follows a phase.
pub fn advance(phase: Phase, ok: bool) -> (r: Phase)
    ensures
        r == phase_after(phase, ok),
{
    match phase {
        Phase::Done => Phase::Done,
        Phase::Failed => Phase::Failed,
        Phase::Fetch => if ok {
            Phase::Prepare
        } else {
            Phase::Failed
        },
        Phase::Prepare => if ok {
            Phase::Build
        } else {
            Phase::Failed
        },
        Phase::Build => if ok {
            Phase::Pack
        } else {
            Phase::Failed
        },
        Phase::Pack => if ok {
            Phase::Done
        } else {
            Phase::Failed
        },
    }
}

} // verus!
