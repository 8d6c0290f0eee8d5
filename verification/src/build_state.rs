use vstd::prelude::*;
use vstd::utf8::encode_utf8;

use crate::diagnostics::Diagnostic;
use crate::matcher::{
    extract, extraction_fails, extraction_result, opt_spec, spec_dump_diagnostic,
    PatternMatcherSpec,
};

verus! {

/// One external command: its working directory, program, and arguments.
#[derive(Clone, Debug)]
pub struct CommandConfig {
    pub working_dir: String,
    pub command: String,
    pub args: Vec<String>,
}

/// The default working directory for a build command: the project root.
pub fn default_working_dir() -> (r: String)
    ensures
        r@ == "./"@,
{
    String::from_str("./")
}

/// A loaded project: its directory and the optional build command, run
/// command, and matcher spec.
#[derive(Clone, Debug)]
pub struct Project {
    pub dir: String,
    pub build_cmd: Option<CommandConfig>,
    pub run_cmd: Option<CommandConfig>,
    pub problem_matcher: Option<PatternMatcherSpec>,
}

/// What one completed build attempt produced: the process's exit code and
/// the ordered diagnostics extracted from its combined output.
#[derive(Debug, PartialEq, Eq)]
pub struct BuildResult {
    pub exit_code: i32,
    pub diagnostics: Vec<Diagnostic>,
}

/// The build lifecycle that the rest of the system observes. A new attempt
/// moves to `InProgress` before the process call, and every attempt ends in
/// exactly one of `InvocationFailed` or `Finished`.
#[derive(Debug, PartialEq, Eq)]
pub enum BuildState {
    NoBuild,
    InProgress,
    InvocationFailed,
    Finished(BuildResult),
}

/// Which main window has focus.
#[derive(Clone, Copy, Debug, PartialEq, Eq, Structural)]
pub enum MainWindow {
    ErrorList,
    Shell,
}

/// The orchestration loop's state.
#[derive(Debug)]
pub struct MainState {
    pub project: Project,
    pub main_window: MainWindow,
    pub build_state: BuildState,
    pub selected_message: Option<usize>,
}

/// Concatenates the captured streams: stdout fully precedes stderr.
pub fn combine_output(stdout: Vec<u8>, stderr: Vec<u8>) -> (r: Vec<u8>)
    ensures
        r@ == stdout@ + stderr@,
{
    let mut r = stdout;
    let mut e = stderr;
    r.append(&mut e);
    r
}

/// The exit code surfaced for a completed process: the code itself, or `-1`
/// when the process ended without one (killed by a signal).
pub fn exit_code_or_sentinel(code: Option<i32>) -> (r: i32)
    ensures
        code matches Some(c) ==> r == c,
        code is None ==> r == -1,
{
    match code {
        Some(c) => c,
        None => -1,
    }
}

/// The content of the placeholder diagnostic used when extraction fails.
pub open spec fn placeholder_content() -> Seq<u8> {
    encode_utf8("(diagnostics unavailable)"@)
}

/// The diagnostic list of a finished build: the extraction's own result when
/// it succeeded, the single placeholder diagnostic otherwise.
pub open spec fn finished_diagnostics(
    raw: Seq<u8>,
    pm: Option<PatternMatcherSpec>,
    ds: Seq<Diagnostic>,
) -> bool {
    if extraction_fails(raw, pm) {
        ds.len() == 1 && ds[0]@ == spec_dump_diagnostic(placeholder_content())
    } else {
        extraction_result(raw, pm, ds)
    }
}

/// Turns a completed process — its exit code and combined output — into the
/// `Finished` state. Extraction failure degrades to the placeholder
/// diagnostic rather than hiding that the build ran and how it exited.
pub fn finish_build(exit_code: i32, raw: &[u8], pm: Option<&PatternMatcherSpec>) -> (s: BuildState)
    ensures
        s matches BuildState::Finished(br) && br.exit_code == exit_code
            && finished_diagnostics(raw@, opt_spec(pm), br.diagnostics@),
{
    let diagnostics: Vec<Diagnostic> = match extract(raw, pm) {
        Ok(ds) => ds,
        Err(_) => {
            let mut ds: Vec<Diagnostic> = Vec::new();
            let d = Diagnostic {
                severity: None,
                line: None,
                col: None,
                file: None,
                content: ("(diagnostics unavailable)").as_bytes_vec(),
            };
            ds.push(d);
            ds
        },
    };
    BuildState::Finished(BuildResult { exit_code, diagnostics })
}

/// Turns one build attempt's outcome into its terminal state: a spawn
/// failure becomes `InvocationFailed`, and a completed process becomes
/// `Finished` with its exit code and extracted diagnostics.
pub fn build_outcome(outcome: Option<(i32, Vec<u8>)>, pm: Option<&PatternMatcherSpec>) -> (s:
    BuildState)
    ensures
        outcome is None ==> s == BuildState::InvocationFailed,
        outcome matches Some(o) ==> s matches BuildState::Finished(br) && br.exit_code == o.0
            && finished_diagnostics(o.1@, opt_spec(pm), br.diagnostics@),
{
    match outcome {
        None => BuildState::InvocationFailed,
        Some((code, raw)) => finish_build(code, raw.as_slice(), pm),
    }
}

/// The decision for a build request.
#[derive(Clone, Copy, Debug, PartialEq, Eq, Structural)]
pub enum BuildDecision {
    /// Start a new attempt with the configured build command.
    Start,
    /// Ignored: no build command is configured.
    NoBuildCommand,
    /// Ignored: an attempt is already in flight.
    BuildInProgress,
}

/// Decides a build request: ignored when no build command is configured or
/// while an attempt is already in progress; otherwise a new attempt may
/// start. The current state is never altered here.
pub fn handle_build_request(state: &MainState) -> (d: BuildDecision)
    ensures
        state.project.build_cmd is None ==> d == BuildDecision::NoBuildCommand,
        state.project.build_cmd is Some && state.build_state is InProgress ==> d
            == BuildDecision::BuildInProgress,
        state.project.build_cmd is Some && !(state.build_state is InProgress) ==> d
            == BuildDecision::Start,
{
    match state.project.build_cmd {
        None => BuildDecision::NoBuildCommand,
        Some(_) => match state.build_state {
            BuildState::InProgress => BuildDecision::BuildInProgress,
            _ => BuildDecision::Start,
        },
    }
}

/// What polling the in-flight build's channel produced this cycle.
#[derive(Debug)]
pub enum BuildChannelEvent {
    /// A state transition arrived.
    Received(BuildState),
    /// The channel is closed: the sender is gone.
    Closed,
    /// Nothing is available right now.
    Empty,
}

/// Whether a state is terminal for one build attempt.
pub open spec fn is_terminal(s: BuildState) -> bool {
    s is InvocationFailed || s is Finished
}

/// Absorbs at most one transition from the in-flight build: a received state
/// replaces the current one wholesale; a channel closed before a terminal
/// state means the attempt was abandoned and becomes `InvocationFailed`,
/// never a silently stuck `InProgress`; otherwise the state is kept.
pub fn absorb_build_event(state: BuildState, ev: BuildChannelEvent) -> (r: BuildState)
    ensures
        ev is Empty ==> r == state,
        ev matches BuildChannelEvent::Received(s2) ==> r == s2,
        ev is Closed && !is_terminal(state) ==> r == BuildState::InvocationFailed,
        ev is Closed && is_terminal(state) ==> r == state,
{
    match ev {
        BuildChannelEvent::Empty => state,
        BuildChannelEvent::Received(s2) => s2,
        BuildChannelEvent::Closed => match state {
            BuildState::InvocationFailed => BuildState::InvocationFailed,
            BuildState::Finished(br) => BuildState::Finished(br),
            _ => BuildState::InvocationFailed,
        },
    }
}

/// The length of the diagnostic list the current state implies: empty unless
/// a build has finished.
pub open spec fn spec_diag_count(state: BuildState) -> int {
    match state {
        BuildState::Finished(br) => br.diagnostics@.len() as int,
        _ => 0,
    }
}

/// The number of diagnostics the current state offers for selection.
pub fn current_diagnostic_count(state: &BuildState) -> (n: usize)
    ensures
        n as int == spec_diag_count(*state),
{
    match state {
        BuildState::Finished(br) => br.diagnostics.len(),
        _ => 0,
    }
}

} // verus!
