//! The execution of one action, as a state machine driven by its caller.
//!
//! The caller runs each command line that a `Step::Run` asks for and hands
//! the outcome to `Execution::advance`, until a `Step::Done` carries the
//! result. The main command runs first; the post-exec commands follow in
//! order, each only after every earlier command succeeded, and all are
//! rendered with the same parameters. The result is the main command's
//! standard output, or the first failure.

use vstd::prelude::*;
use vstd::string::*;
use vstd::utf8::{decode_utf8, valid_utf8};
use crate::error::{ErrorView, ExecutionError};
use crate::json::strings_view;
use crate::template::{ParamValue, ParamView, params_view, render, render_text};

verus! {

/// How a command ended, as reported by whoever ran it.
pub enum ProcessOutcome {
    /// The shell could not be launched.
    SpawnFailed,
    /// The command ran; `success` is whether its exit status was zero.
    Exited { success: bool, stdout: Vec<u8>, stderr: Vec<u8> },
}

/// How a command ended, as mathematical values.
pub enum OutcomeView {
    SpawnFailed,
    Exited { success: bool, stdout: Seq<u8>, stderr: Seq<u8> },
}

impl View for ProcessOutcome {
    type V = OutcomeView;

    open spec fn view(&self) -> OutcomeView {
        match self {
            ProcessOutcome::SpawnFailed => OutcomeView::SpawnFailed,
            ProcessOutcome::Exited { success, stdout, stderr } => OutcomeView::Exited {
                success: *success,
                stdout: stdout@,
                stderr: stderr@,
            },
        }
    }
}

/// What the caller is to do next.
pub enum Step {
    /// Run this command line in the host shell and report how it ended.
    Run(String),
    /// The execution is over, with this result.
    Done(Result<String, ExecutionError>),
}

/// A step as mathematical values.
pub enum StepView {
    Run(Seq<char>),
    Done(Result<Seq<char>, ErrorView>),
}

impl View for Step {
    type V = StepView;

    open spec fn view(&self) -> StepView {
        match self {
            Step::Run(c) => StepView::Run(c@),
            Step::Done(Ok(out)) => StepView::Done(Ok(out@)),
            Step::Done(Err(e)) => StepView::Done(Err(e@)),
        }
    }
}

/// An execution in progress.
pub struct Execution {
    params: Vec<(String, ParamValue)>,
    post_exec: Vec<String>,
    running: usize,
    output: String,
    finished: bool,
}

/// The state of an execution: its parameters and post-exec templates, which
/// command runs (0 for the main command, `k` for post-exec template `k - 1`),
/// the main command's output once known, and whether it is over.
pub struct ExecutionView {
    pub params: Seq<(Seq<char>, ParamView)>,
    pub post_exec: Seq<Seq<char>>,
    pub running: nat,
    pub output: Seq<char>,
    pub finished: bool,
}

impl View for Execution {
    type V = ExecutionView;

    closed spec fn view(&self) -> ExecutionView {
        ExecutionView {
            params: params_view(self.params@),
            post_exec: strings_view(self.post_exec@),
            running: self.running as nat,
            output: self.output@,
            finished: self.finished,
        }
    }
}

/// The state in which an execution starts, with the main command running.
pub open spec fn initial_state(params: Seq<(Seq<char>, ParamView)>, post_exec: Seq<Seq<char>>) -> ExecutionView {
    ExecutionView { params, post_exec, running: 0, output: Seq::empty(), finished: false }
}

/// The text that the bytes `b` decode to, when they are valid UTF-8.
pub open spec fn decoded(b: Seq<u8>) -> Option<Seq<char>> {
    if valid_utf8(b) {
        Some(decode_utf8(b))
    } else {
        None
    }
}

/// The standard error of an outcome; empty when the shell did not start.
pub open spec fn stderr_of(o: OutcomeView) -> Seq<u8> {
    match o {
        OutcomeView::SpawnFailed => Seq::empty(),
        OutcomeView::Exited { stderr, .. } => stderr,
    }
}

/// Whether an outcome is a success: a zero exit status.
pub open spec fn succeeded(o: OutcomeView) -> bool {
    match o {
        OutcomeView::SpawnFailed => false,
        OutcomeView::Exited { success, .. } => success,
    }
}

/// Whether a command ran and both its standard output and its standard
/// error are valid UTF-8 text.
pub open spec fn readable(o: OutcomeView) -> bool {
    match o {
        OutcomeView::SpawnFailed => false,
        OutcomeView::Exited { stdout, stderr, .. } => decoded(stdout) is Some && decoded(stderr) is Some,
    }
}

/// Whether a command ran, exited with a zero status and printed text only.
pub open spec fn completed(o: OutcomeView) -> bool {
    succeeded(o) && readable(o)
}

/// The next state and step after the running command ended with `o`. Output
/// that is not text, on either stream, ends the execution with
/// `OutputDecodeError`, whatever the exit status.
pub open spec fn next(s: ExecutionView, o: OutcomeView) -> (ExecutionView, StepView) {
    let over = ExecutionView { finished: true, ..s };
    match o {
        OutcomeView::SpawnFailed => (over, StepView::Done(Err(ErrorView::ProcessSpawnError))),
        OutcomeView::Exited { success, stdout, stderr } => if !readable(o) {
            (over, StepView::Done(Err(ErrorView::OutputDecodeError)))
        } else if !success {
            let text = decode_utf8(stderr);
            let e = if s.running == 0 {
                ErrorView::NonZeroExit(text)
            } else {
                ErrorView::PostExecFailure((s.running - 1) as nat, text)
            };
            (over, StepView::Done(Err(e)))
        } else {
            let out = if s.running == 0 {
                decode_utf8(stdout)
            } else {
                s.output
            };
            if s.running < s.post_exec.len() {
                (
                    ExecutionView { running: s.running + 1, output: out, ..s },
                    StepView::Run(render_text(s.post_exec[s.running as int], s.params)),
                )
            } else {
                (ExecutionView { finished: true, output: out, ..s }, StepView::Done(Ok(out)))
            }
        },
    }
}

/// Feeding `outcomes` in order to an execution in state `s` whose pending
/// step is `step`: the command lines it asks to run, in order, and its
/// result once it is over (`None` when the outcomes run out first).
pub open spec fn drive(s: ExecutionView, step: StepView, outcomes: Seq<OutcomeView>) -> (Seq<Seq<char>>, Option<Result<Seq<char>, ErrorView>>)
    decreases outcomes.len(),
{
    match step {
        StepView::Done(r) => (Seq::empty(), Some(r)),
        StepView::Run(c) => if outcomes.len() == 0 {
            (seq![c], None)
        } else {
            let (s2, step2) = next(s, outcomes[0]);
            let (rest, r) = drive(s2, step2, outcomes.drop_first());
            (seq![c] + rest, r)
        },
    }
}

/// A whole execution of the action with main template `command`, post-exec
/// templates `post_exec` and parameters `params`, fed with `outcomes`.
pub open spec fn run_action(
    command: Seq<char>,
    post_exec: Seq<Seq<char>>,
    params: Seq<(Seq<char>, ParamView)>,
    outcomes: Seq<OutcomeView>,
) -> (Seq<Seq<char>>, Option<Result<Seq<char>, ErrorView>>) {
    drive(initial_state(params, post_exec), StepView::Run(render_text(command, params)), outcomes)
}

/// The program and arguments that run the command line `line` in the host
/// shell: `cmd /C line` on Windows, `sh -c line` elsewhere. The line is
/// handed over whole; the shell alone reads its syntax.
pub fn shell_invocation(line: &str, windows: bool) -> (r: (String, Vec<String>))
    ensures
        windows ==> r.0@ == "cmd"@ && strings_view(r.1@) == seq!["/C"@, line@],
        !windows ==> r.0@ == "sh"@ && strings_view(r.1@) == seq!["-c"@, line@],
{
    let mut args: Vec<String> = Vec::new();
    let program = if windows {
        args.push(String::from_str("/C"));
        String::from_str("cmd")
    } else {
        args.push(String::from_str("-c"));
        String::from_str("sh")
    };
    args.push(String::from_str(line));
    proof {
        if windows {
            assert(strings_view(args@) =~= seq!["/C"@, line@]);
        } else {
            assert(strings_view(args@) =~= seq!["-c"@, line@]);
        }
    }
    (program, args)
}

/// Relies on `String::from_utf8`: it accepts exactly the valid UTF-8 byte
/// strings and decodes them.
#[verifier::external_body]
fn decode_text(bytes: Vec<u8>) -> (r: Option<String>)
    ensures
        r is Some <==> valid_utf8(bytes@),
        r is Some ==> r->0@ == decode_utf8(bytes@),
{
    String::from_utf8(bytes).ok()
}

impl Execution {
    /// Starts an execution of the action with main template `command` and
    /// post-exec templates `post_exec`: the first step runs the main command.
    pub fn begin(command: &str, post_exec: Vec<String>, params: Vec<(String, ParamValue)>) -> (r: (
        Execution,
        Step,
    ))
        ensures
            r.0@ == initial_state(params_view(params@), strings_view(post_exec@)),
            r.1@ == StepView::Run(render_text(command@, params_view(params@))),
    {
        let line = render(command, &params);
        let e = Execution {
            params,
            post_exec,
            running: 0,
            output: String::new(),
            finished: false,
        };
        (e, Step::Run(line))
    }

    /// Whether the execution is over.
    pub fn is_finished(&self) -> (r: bool)
        ensures
            r == self@.finished,
    {
        self.finished
    }

    /// Takes the outcome of the command that the last step asked for and
    /// returns the next step.
    pub fn advance(&mut self, outcome: ProcessOutcome) -> (r: Step)
        requires
            !old(self)@.finished,
        ensures
            (final(self)@, r@) == next(old(self)@, outcome@),
    {
        match outcome {
            ProcessOutcome::SpawnFailed => {
                self.finished = true;
                Step::Done(Err(ExecutionError::ProcessSpawnError))
            },
            ProcessOutcome::Exited { success, stdout, stderr } => {
                let out = decode_text(stdout);
                let err = decode_text(stderr);
                let (out, err) = match (out, err) {
                    (Some(out), Some(err)) => (out, err),
                    _ => {
                        self.finished = true;
                        return Step::Done(Err(ExecutionError::OutputDecodeError));
                    },
                };
                if !success {
                    self.finished = true;
                    if self.running == 0 {
                        Step::Done(Err(ExecutionError::NonZeroExit(err)))
                    } else {
                        Step::Done(Err(ExecutionError::PostExecFailure(self.running - 1, err)))
                    }
                } else {
                    if self.running == 0 {
                        self.output = out;
                    }
                    if self.running < self.post_exec.len() {
                        let line = render(self.post_exec[self.running].as_str(), &self.params);
                        self.running = self.running + 1;
                        Step::Run(line)
                    } else {
                        self.finished = true;
                        Step::Done(Ok(self.output.clone()))
                    }
                }
            },
        }
    }
}

/// The `k`-th command line of an action: the main template for 0, the
/// post-exec template `k - 1` after that, each rendered with `params`.
pub open spec fn chain_line(
    command: Seq<char>,
    post_exec: Seq<Seq<char>>,
    params: Seq<(Seq<char>, ParamView)>,
    k: int,
) -> Seq<char> {
    if k == 0 {
        render_text(command, params)
    } else {
        render_text(post_exec[k - 1], params)
    }
}

proof fn lemma_drive_follows_chain(
    command: Seq<char>,
    s: ExecutionView,
    outcomes: Seq<OutcomeView>,
)
    requires
        s.running <= s.post_exec.len(),
    ensures
        ({
            let runs = drive(
                s,
                StepView::Run(chain_line(command, s.post_exec, s.params, s.running as int)),
                outcomes,
            ).0;
            &&& 1 <= runs.len() <= s.post_exec.len() + 1 - s.running
            &&& forall|i: int|
                0 <= i < runs.len() ==> #[trigger] runs[i] == chain_line(
                    command,
                    s.post_exec,
                    s.params,
                    s.running + i,
                )
        }),
    decreases outcomes.len(),
{
    let c = chain_line(command, s.post_exec, s.params, s.running as int);
    if outcomes.len() > 0 {
        let (s2, step2) = next(s, outcomes[0]);
        let rest = outcomes.drop_first();
        let tail = drive(s2, step2, rest).0;
        assert(drive(s, StepView::Run(c), outcomes).0 == seq![c] + tail);
        match step2 {
            StepView::Run(c2) => {
                assert(s2.post_exec == s.post_exec && s2.params == s.params);
                assert(s2.running == s.running + 1);
                assert(c2 == chain_line(command, s2.post_exec, s2.params, s2.running as int));
                lemma_drive_follows_chain(command, s2, rest);
                assert forall|i: int| 0 <= i < 1 + tail.len() implies #[trigger] (seq![c] + tail)[i]
                    == chain_line(command, s.post_exec, s.params, s.running + i) by {
                    if i > 0 {
                        assert(tail[i - 1] == chain_line(command, s2.post_exec, s2.params, s2.running + (i - 1)));
                    }
                }
            },
            StepView::Done(_) => {
                assert(tail =~= Seq::<Seq<char>>::empty());
                assert(seq![c] + tail =~= seq![c]);
            },
        }
    }
}

/// The commands of an action run in their declared order: the `k`-th command
/// line run is the main command for 0 and post-exec template `k - 1` after
/// that, each rendered with the same parameters; none is skipped, repeated or
/// run out of turn, and at most all of them run.
pub proof fn lemma_chain_order(
    command: Seq<char>,
    post_exec: Seq<Seq<char>>,
    params: Seq<(Seq<char>, ParamView)>,
    outcomes: Seq<OutcomeView>,
)
    ensures
        ({
            let runs = run_action(command, post_exec, params, outcomes).0;
            &&& 1 <= runs.len() <= post_exec.len() + 1
            &&& forall|k: int|
                0 <= k < runs.len() ==> #[trigger] runs[k] == chain_line(command, post_exec, params, k)
        }),
{
    let s = initial_state(params, post_exec);
    lemma_drive_follows_chain(command, s, outcomes);
}

/// Failing fast: when the main command does not succeed, no post-exec
/// command is rendered or run, and the execution fails; when its output is
/// text, the failure is `NonZeroExit` of its standard error.
pub proof fn lemma_main_failure_stops_chain(
    command: Seq<char>,
    post_exec: Seq<Seq<char>>,
    params: Seq<(Seq<char>, ParamView)>,
    outcomes: Seq<OutcomeView>,
)
    requires
        outcomes.len() > 0,
        !succeeded(outcomes[0]),
    ensures
        run_action(command, post_exec, params, outcomes).0 == seq![render_text(command, params)],
        run_action(command, post_exec, params, outcomes).1 matches Some(Err(_)),
        readable(outcomes[0]) ==> run_action(
            command,
            post_exec,
            params,
            outcomes,
        ).1 == Some(
            Err::<Seq<char>, ErrorView>(ErrorView::NonZeroExit(decoded(stderr_of(outcomes[0]))->0)),
        ),
{
    let s = initial_state(params, post_exec);
    let (s2, step2) = next(s, outcomes[0]);
    assert(step2 is Done);
    assert(drive(s2, step2, outcomes.drop_first()).0 =~= Seq::<Seq<char>>::empty());
    assert(seq![render_text(command, params)] + Seq::<Seq<char>>::empty() =~= seq![
        render_text(command, params),
    ]);
}

proof fn lemma_drive_to_post_failure(
    command: Seq<char>,
    s: ExecutionView,
    outcomes: Seq<OutcomeView>,
    k: int,
    text: Seq<char>,
)
    requires
        1 <= s.running <= k <= s.post_exec.len(),
        k - s.running < outcomes.len(),
        forall|i: int| 0 <= i < k - s.running ==> #[trigger] completed(outcomes[i]),
        !succeeded(outcomes[k - s.running]),
        readable(outcomes[k - s.running]),
        decoded(stderr_of(outcomes[k - s.running])) == Some(text),
    ensures
        drive(
            s,
            StepView::Run(chain_line(command, s.post_exec, s.params, s.running as int)),
            outcomes,
        ).0.len() == k - s.running + 1,
        drive(
            s,
            StepView::Run(chain_line(command, s.post_exec, s.params, s.running as int)),
            outcomes,
        ).1 == Some(Err::<Seq<char>, ErrorView>(ErrorView::PostExecFailure((k - 1) as nat, text))),
    decreases k - s.running,
{
    let (s2, step2) = next(s, outcomes[0]);
    let rest = outcomes.drop_first();
    if s.running < k {
        assert(completed(outcomes[0]));
        assert forall|i: int| 0 <= i < k - s2.running implies #[trigger] completed(rest[i]) by {
            assert(completed(outcomes[i + 1]));
        }
        lemma_drive_to_post_failure(command, s2, rest, k, text);
    } else {
        assert(drive(s2, step2, rest).0 =~= Seq::<Seq<char>>::empty());
    }
}

/// A failing post-exec command ends the chain: when the main command and
/// the post-exec commands before index `k - 1` succeed with text output, and
/// post-exec command `k - 1` exits with a failure status, printing text with
/// `text` on its standard error, exactly
/// `k + 1` commands run and the execution fails with `PostExecFailure` of
/// index `k - 1` and that text.
pub proof fn lemma_post_exec_failure_stops_chain(
    command: Seq<char>,
    post_exec: Seq<Seq<char>>,
    params: Seq<(Seq<char>, ParamView)>,
    outcomes: Seq<OutcomeView>,
    k: int,
    text: Seq<char>,
)
    requires
        1 <= k <= post_exec.len(),
        k < outcomes.len(),
        forall|i: int| 0 <= i < k ==> #[trigger] completed(outcomes[i]),
        !succeeded(outcomes[k]),
        readable(outcomes[k]),
        decoded(stderr_of(outcomes[k])) == Some(text),
    ensures
        run_action(command, post_exec, params, outcomes).0.len() == k + 1,
        forall|j: int|
            0 <= j <= k ==> #[trigger] run_action(command, post_exec, params, outcomes).0[j]
                == chain_line(command, post_exec, params, j),
        run_action(command, post_exec, params, outcomes).1 == Some(
            Err::<Seq<char>, ErrorView>(ErrorView::PostExecFailure((k - 1) as nat, text)),
        ),
{
    lemma_chain_order(command, post_exec, params, outcomes);
    let s = initial_state(params, post_exec);
    assert(completed(outcomes[0]));
    let (s2, step2) = next(s, outcomes[0]);
    let rest = outcomes.drop_first();
    assert forall|i: int| 0 <= i < k - s2.running implies #[trigger] completed(rest[i]) by {
        assert(completed(outcomes[i + 1]));
    }
    lemma_drive_to_post_failure(command, s2, rest, k, text);
}

proof fn lemma_drive_to_success(command: Seq<char>, s: ExecutionView, outcomes: Seq<OutcomeView>)
    requires
        1 <= s.running <= s.post_exec.len() + 1,
        s.post_exec.len() + 1 - s.running <= outcomes.len(),
        forall|i: int| 0 <= i < s.post_exec.len() + 1 - s.running ==> #[trigger] completed(outcomes[i]),
    ensures
        s.running <= s.post_exec.len() ==> drive(
            s,
            StepView::Run(chain_line(command, s.post_exec, s.params, s.running as int)),
            outcomes,
        ).1 == Some(Ok::<Seq<char>, ErrorView>(s.output)),
        s.running <= s.post_exec.len() ==> drive(
            s,
            StepView::Run(chain_line(command, s.post_exec, s.params, s.running as int)),
            outcomes,
        ).0.len() == s.post_exec.len() + 1 - s.running,
    decreases s.post_exec.len() + 1 - s.running,
{
    if s.running <= s.post_exec.len() {
        let (s2, step2) = next(s, outcomes[0]);
        let rest = outcomes.drop_first();
        assert(completed(outcomes[0]));
        let c = chain_line(command, s.post_exec, s.params, s.running as int);
        assert(drive(s, StepView::Run(c), outcomes).1 == drive(s2, step2, rest).1);
        assert(drive(s, StepView::Run(c), outcomes).0 == seq![c] + drive(s2, step2, rest).0);
        if s.running < s.post_exec.len() {
            assert(s2.post_exec == s.post_exec && s2.params == s.params && s2.output == s.output);
            assert(s2.running == s.running + 1);
            assert(step2 == StepView::Run(
                chain_line(command, s2.post_exec, s2.params, s2.running as int),
            ));
            assert forall|i: int| 0 <= i < s2.post_exec.len() + 1 - s2.running implies #[trigger] completed(
                rest[i],
            ) by {
                assert(completed(outcomes[i + 1]));
            }
            lemma_drive_to_success(command, s2, rest);
        } else {
            assert(step2 == StepView::Done(Ok::<Seq<char>, ErrorView>(s.output)));
            assert(drive(s2, step2, rest).0.len() == 0);
        }
    }
}

/// When every command of the chain succeeds with text output, all of them
/// run, each once and in declared order, and the result is the main
/// command's standard output, decoded; the post-exec commands' output is not
/// part of it.
pub proof fn lemma_chain_success_returns_main_output(
    command: Seq<char>,
    post_exec: Seq<Seq<char>>,
    params: Seq<(Seq<char>, ParamView)>,
    outcomes: Seq<OutcomeView>,
    text: Seq<char>,
)
    requires
        post_exec.len() < outcomes.len(),
        forall|i: int| 0 <= i <= post_exec.len() ==> #[trigger] completed(outcomes[i]),
        outcomes[0] matches OutcomeView::Exited { stdout, .. } && decoded(stdout) == Some(text),
    ensures
        run_action(command, post_exec, params, outcomes).1 == Some(Ok::<Seq<char>, ErrorView>(text)),
        run_action(command, post_exec, params, outcomes).0.len() == post_exec.len() + 1,
        forall|k: int|
            0 <= k <= post_exec.len() ==> #[trigger] run_action(command, post_exec, params, outcomes).0[k]
                == chain_line(command, post_exec, params, k),
{
    lemma_chain_order(command, post_exec, params, outcomes);
    let s = initial_state(params, post_exec);
    assert(completed(outcomes[0]));
    let (s2, step2) = next(s, outcomes[0]);
    let rest = outcomes.drop_first();
    assert(run_action(command, post_exec, params, outcomes).1 == drive(s2, step2, rest).1);
    assert(run_action(command, post_exec, params, outcomes).0 == seq![render_text(command, params)]
        + drive(s2, step2, rest).0);
    assert(s2.output == text);
    if post_exec.len() > 0 {
        assert(s2.running == 1);
        assert(step2 == StepView::Run(chain_line(command, s2.post_exec, s2.params, 1)));
        assert forall|i: int| 0 <= i < s2.post_exec.len() + 1 - s2.running implies #[trigger] completed(
            rest[i],
        ) by {
            assert(completed(outcomes[i + 1]));
        }
        lemma_drive_to_success(command, s2, rest);
    } else {
        assert(step2 == StepView::Done(Ok::<Seq<char>, ErrorView>(text)));
        assert(drive(s2, step2, rest).0.len() == 0);
    }
}

proof fn lemma_drive_to_unreadable(command: Seq<char>, s: ExecutionView, outcomes: Seq<OutcomeView>, k: int)
    requires
        1 <= s.running <= k <= s.post_exec.len(),
        k - s.running < outcomes.len(),
        forall|i: int| 0 <= i < k - s.running ==> #[trigger] completed(outcomes[i]),
        outcomes[k - s.running] is Exited,
        !readable(outcomes[k - s.running]),
    ensures
        drive(
            s,
            StepView::Run(chain_line(command, s.post_exec, s.params, s.running as int)),
            outcomes,
        ).0.len() == k - s.running + 1,
        drive(
            s,
            StepView::Run(chain_line(command, s.post_exec, s.params, s.running as int)),
            outcomes,
        ).1 == Some(Err::<Seq<char>, ErrorView>(ErrorView::OutputDecodeError)),
    decreases k - s.running,
{
    let (s2, step2) = next(s, outcomes[0]);
    let rest = outcomes.drop_first();
    if s.running < k {
        assert(completed(outcomes[0]));
        assert forall|i: int| 0 <= i < k - s2.running implies #[trigger] completed(rest[i]) by {
            assert(completed(outcomes[i + 1]));
        }
        lemma_drive_to_unreadable(command, s2, rest, k);
    } else {
        assert(drive(s2, step2, rest).0 =~= Seq::<Seq<char>>::empty());
    }
}

/// Output that is not text fails the execution: when the commands before
/// position `k` of the chain succeed with text output and the `k`-th command
/// prints bytes that are not valid UTF-8 on either stream, whatever its exit
/// status, exactly `k + 1` commands run and the result is
/// `OutputDecodeError`.
pub proof fn lemma_unreadable_output_fails(
    command: Seq<char>,
    post_exec: Seq<Seq<char>>,
    params: Seq<(Seq<char>, ParamView)>,
    outcomes: Seq<OutcomeView>,
    k: int,
)
    requires
        0 <= k <= post_exec.len(),
        k < outcomes.len(),
        forall|i: int| 0 <= i < k ==> #[trigger] completed(outcomes[i]),
        outcomes[k] is Exited,
        !readable(outcomes[k]),
    ensures
        run_action(command, post_exec, params, outcomes).0.len() == k + 1,
        run_action(command, post_exec, params, outcomes).1 == Some(
            Err::<Seq<char>, ErrorView>(ErrorView::OutputDecodeError),
        ),
{
    let s = initial_state(params, post_exec);
    let (s2, step2) = next(s, outcomes[0]);
    let rest = outcomes.drop_first();
    if k == 0 {
        assert(drive(s2, step2, rest).0 =~= Seq::<Seq<char>>::empty());
    } else {
        assert(completed(outcomes[0]));
        assert forall|i: int| 0 <= i < k - s2.running implies #[trigger] completed(rest[i]) by {
            assert(completed(outcomes[i + 1]));
        }
        lemma_drive_to_unreadable(command, s2, rest, k);
    }
}

} // verus!
