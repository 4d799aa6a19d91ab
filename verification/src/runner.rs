//! One compilation attempt per toolchain, and the way back from the order in
//! which attempts complete to the order of the toolchain list.
//!
//! An attempt is a small protocol. The caller owns the files and the process;
//! [`Attempt`] says what it waits for and takes what happened in return.
//! Every breakdown on the way ends that attempt alone, as the outcome
//! [`CompilationOutcome::RunnerError`]; the attempts of the other toolchains
//! go on.

use vstd::prelude::*;
use crate::outcome::{classification, classify, CompilationOutcome};
use crate::text::string_views;

verus! {

/// The three temporary files of one attempt, by path. They belong to that
/// attempt alone.
#[derive(Clone, Debug, PartialEq, Eq)]
pub struct TempFiles {
    /// Holds the reproducer; the compiler reads it as its standard input.
    pub input: String,
    /// Where the compiler is to write what it builds. Only the path is used.
    pub artifact: String,
    /// Takes what the compiler writes to its standard output and its
    /// standard error.
    pub capture: String,
}

/// [`TempFiles`] over sequences of characters.
pub struct TempFilesView {
    pub input: Seq<char>,
    pub artifact: Seq<char>,
    pub capture: Seq<char>,
}

impl View for TempFiles {
    type V = TempFilesView;

    open spec fn view(&self) -> TempFilesView {
        TempFilesView { input: self.input@, artifact: self.artifact@, capture: self.capture@ }
    }
}

/// A process to launch: the program, its arguments, the file that is its
/// standard input, and the file that takes both its standard output and its
/// standard error.
#[derive(Clone, Debug, PartialEq, Eq)]
pub struct Invocation {
    pub program: String,
    pub args: Vec<String>,
    pub stdin: String,
    pub output: String,
}

/// [`Invocation`] over sequences of characters.
pub struct InvocationView {
    pub program: Seq<char>,
    pub args: Seq<Seq<char>>,
    pub stdin: Seq<char>,
    pub output: Seq<char>,
}

impl View for Invocation {
    type V = InvocationView;

    open spec fn view(&self) -> InvocationView {
        InvocationView {
            program: self.program@,
            args: string_views(self.args@),
            stdin: self.stdin@,
            output: self.output@,
        }
    }
}

/// The toolchain manager through which every compiler is reached.
pub open spec fn compiler_program() -> Seq<char> {
    "rustup"@
}

/// Select `toolchain`, compile standard input, write the artifact to
/// `artifact_path`.
pub open spec fn compiler_arguments(toolchain: Seq<char>, artifact_path: Seq<char>) -> Seq<
    Seq<char>,
> {
    seq!["run"@, toolchain, "rustc"@, "-"@, "-o"@, artifact_path]
}

/// The compiler of `toolchain` on the given files: the input is fed in, the
/// artifact path is where it builds to, and the capture takes its output.
pub open spec fn invocation_for(toolchain: Seq<char>, files: TempFilesView) -> InvocationView {
    InvocationView {
        program: compiler_program(),
        args: compiler_arguments(toolchain, files.artifact),
        stdin: files.input,
        output: files.capture,
    }
}

/// The command that compiles the reproducer with `toolchain` on the given
/// files.
pub fn compiler_invocation(toolchain: &str, files: &TempFiles) -> (invocation: Invocation)
    ensures
        invocation@ == invocation_for(toolchain@, files@),
{
    let mut args: Vec<String> = Vec::new();
    args.push("run".to_owned());
    args.push(toolchain.to_owned());
    args.push("rustc".to_owned());
    args.push("-".to_owned());
    args.push("-o".to_owned());
    args.push(files.artifact.clone());
    assert(string_views(args@) =~= compiler_arguments(toolchain@, files.artifact@));
    Invocation {
        program: "rustup".to_owned(),
        args,
        stdin: files.input.clone(),
        output: files.capture.clone(),
    }
}

/// The outcome of one attempt, tagged with the position of its toolchain in
/// the toolchain list.
#[derive(Clone, Copy, Debug, PartialEq, Eq, Structural)]
pub struct ToolchainResult {
    pub index: usize,
    pub outcome: CompilationOutcome,
}

/// How far an attempt has come.
#[derive(Clone, Debug, PartialEq, Eq)]
pub enum AttemptState {
    /// Waiting for the temporary files.
    Acquiring,
    /// The compiler is running on the files.
    Running { files: TempFiles },
    /// The compiler has exited, the capture is being read back.
    Reading { files: TempFiles, exit_success: bool },
    /// The attempt is over.
    Done(CompilationOutcome),
}

/// What happened to the action that the attempt was waiting for.
#[derive(Clone, Debug, PartialEq, Eq)]
pub enum AttemptEvent {
    /// The temporary files exist and the reproducer is written to the input.
    FilesAcquired(TempFiles),
    /// The compiler process has exited.
    Exited { exit_success: bool },
    /// The capture file has been read.
    Captured { text: String },
    /// The action could not be carried out.
    Failed,
}

/// What an attempt is waiting for.
#[derive(Clone, Debug, PartialEq, Eq)]
pub enum AttemptAction {
    /// Create the three temporary files and write the reproducer to the
    /// input.
    AcquireFiles,
    /// Launch the process and wait for its exit.
    Launch(Invocation),
    /// Read the capture file at `path`.
    ReadCapture { path: String },
    /// Release the temporary files and hand in the result.
    Finish(ToolchainResult),
}

/// The state that follows `state` on `event`. An event that does not belong
/// to the state breaks the attempt off; a finished attempt stays as it is.
pub open spec fn next_state(state: AttemptState, event: AttemptEvent) -> AttemptState {
    match (state, event) {
        (AttemptState::Done(outcome), _) => AttemptState::Done(outcome),
        (AttemptState::Acquiring, AttemptEvent::FilesAcquired(files)) => AttemptState::Running {
            files,
        },
        (AttemptState::Running { files }, AttemptEvent::Exited { exit_success }) => AttemptState::Reading {
            files,
            exit_success,
        },
        (AttemptState::Reading { exit_success, .. }, AttemptEvent::Captured { text }) => AttemptState::Done(
            classification(exit_success, text@),
        ),
        _ => AttemptState::Done(CompilationOutcome::RunnerError),
    }
}

/// `action` is what the attempt for the toolchain `toolchain` at `position`
/// waits for in `state`.
pub open spec fn action_fits(
    action: AttemptAction,
    state: AttemptState,
    toolchain: Seq<char>,
    position: usize,
) -> bool {
    match state {
        AttemptState::Acquiring => action is AcquireFiles,
        AttemptState::Running { files } => {
            &&& action is Launch
            &&& action->Launch_0@ == invocation_for(toolchain, files@)
        },
        AttemptState::Reading { files, .. } => {
            &&& action is ReadCapture
            &&& action->path@ == files.capture@
        },
        AttemptState::Done(outcome) => action == AttemptAction::Finish(
            ToolchainResult { index: position, outcome },
        ),
    }
}

/// One compilation of the reproducer with one toolchain.
pub struct Attempt {
    position: usize,
    toolchain: String,
    state: AttemptState,
}

impl Attempt {
    /// The position of the toolchain in the toolchain list.
    pub closed spec fn position(&self) -> usize {
        self.position
    }

    /// The toolchain that this attempt is for.
    pub closed spec fn toolchain(&self) -> Seq<char> {
        self.toolchain@
    }

    /// How far the attempt has come.
    pub closed spec fn state(&self) -> AttemptState {
        self.state
    }

    /// A fresh attempt for the toolchain at `position`.
    pub fn new(position: usize, toolchain: &str) -> (attempt: Attempt)
        ensures
            attempt.position() == position,
            attempt.toolchain() == toolchain@,
            attempt.state() == AttemptState::Acquiring,
    {
        Attempt { position, toolchain: toolchain.to_owned(), state: AttemptState::Acquiring }
    }

    /// The outcome, once the attempt is over.
    pub fn outcome(&self) -> (outcome: Option<CompilationOutcome>)
        ensures
            outcome == match self.state() {
                AttemptState::Done(o) => Some(o),
                _ => None,
            },
    {
        match &self.state {
            AttemptState::Done(o) => Some(*o),
            _ => None,
        }
    }

    /// What the attempt is waiting for: the files, then the process on those
    /// files, then the capture, and at the end the handing in of the result,
    /// tagged with the position of the toolchain.
    pub fn pending(&self) -> (action: AttemptAction)
        ensures
            action_fits(action, self.state(), self.toolchain(), self.position()),
    {
        match &self.state {
            AttemptState::Acquiring => AttemptAction::AcquireFiles,
            AttemptState::Running { files } => AttemptAction::Launch(
                compiler_invocation(self.toolchain.as_str(), files),
            ),
            AttemptState::Reading { files, .. } => AttemptAction::ReadCapture {
                path: files.capture.clone(),
            },
            AttemptState::Done(outcome) => AttemptAction::Finish(
                ToolchainResult { index: self.position, outcome: *outcome },
            ),
        }
    }

    /// Takes what happened to the pending action.
    ///
    /// The capture is asked for only once the process has exited, the
    /// outcome is the classification of exit status and capture, and a
    /// failure at any point finishes the attempt as a runner error.
    pub fn step(self, event: AttemptEvent) -> (next: Attempt)
        ensures
            next.position() == self.position(),
            next.toolchain() == self.toolchain(),
            next.state() == next_state(self.state(), event),
    {
        let Attempt { position, toolchain, state } = self;
        let state = match (state, event) {
            (AttemptState::Done(outcome), _) => AttemptState::Done(outcome),
            (AttemptState::Acquiring, AttemptEvent::FilesAcquired(files)) => AttemptState::Running {
                files,
            },
            (AttemptState::Running { files }, AttemptEvent::Exited { exit_success }) => AttemptState::Reading {
                files,
                exit_success,
            },
            (AttemptState::Reading { exit_success, .. }, AttemptEvent::Captured { text }) => AttemptState::Done(
                classify(exit_success, text.as_str()),
            ),
            _ => AttemptState::Done(CompilationOutcome::RunnerError),
        };
        Attempt { position, toolchain, state }
    }
}

/// One fresh attempt per toolchain, each at the position of its toolchain.
/// They do not depend on one another and may run all at once.
pub fn fan_out(toolchains: &Vec<String>) -> (attempts: Vec<Attempt>)
    ensures
        attempts.len() == toolchains.len(),
        forall|i: int|
            0 <= i < attempts.len() ==> {
                &&& (#[trigger] attempts[i]).position() == i
                &&& attempts[i].toolchain() == toolchains[i]@
                &&& attempts[i].state() == AttemptState::Acquiring
            },
{
    let mut attempts: Vec<Attempt> = Vec::new();
    let mut i: usize = 0;
    while i < toolchains.len()
        invariant
            i <= toolchains.len(),
            attempts.len() == i,
            forall|k: int|
                0 <= k < i ==> {
                    &&& (#[trigger] attempts[k]).position() == k
                    &&& attempts[k].toolchain() == toolchains[k]@
                    &&& attempts[k].state() == AttemptState::Acquiring
                },
        decreases toolchains.len() - i,
    {
        attempts.push(Attempt::new(i, toolchains[i].as_str()));
        i += 1;
    }
    attempts
}

/// The protocol of an attempt: files, then the process, then the capture,
/// which is read only after the exit; the undisturbed run ends in the
/// classification of exit status and capture; a failure at any point ends the
/// attempt as a runner error; a finished attempt never changes again.
pub proof fn lemma_attempt_protocol(
    state: AttemptState,
    event: AttemptEvent,
    files: TempFiles,
    exit_success: bool,
    text: String,
)
    ensures
        next_state(state, event) is Reading ==> state is Running && event is Exited,
        next_state(state, event) is Running ==> state is Acquiring && event is FilesAcquired,
        next_state(state, event) !is Acquiring,
        state is Done ==> next_state(state, event) == state,
        state !is Done ==> next_state(state, AttemptEvent::Failed) == AttemptState::Done(
            CompilationOutcome::RunnerError,
        ),
        next_state(
            next_state(
                next_state(AttemptState::Acquiring, AttemptEvent::FilesAcquired(files)),
                AttemptEvent::Exited { exit_success },
            ),
            AttemptEvent::Captured { text },
        ) == AttemptState::Done(classification(exit_success, text@)),
{
}

/// The outcome reported for `position`: that of the last result tagged with
/// it, and a runner error where no result is.
pub open spec fn reported(results: Seq<ToolchainResult>, position: int) -> CompilationOutcome
    decreases results.len(),
{
    if results.len() == 0 {
        CompilationOutcome::RunnerError
    } else if results.last().index == position {
        results.last().outcome
    } else {
        reported(results.drop_last(), position)
    }
}

/// One outcome per toolchain, in the order of the toolchain list.
pub open spec fn in_input_order(results: Seq<ToolchainResult>, count: nat) -> Seq<
    CompilationOutcome,
> {
    Seq::new(count, |position: int| reported(results, position))
}

/// Puts the results of `count` attempts, given in the order in which they
/// completed, back into the order of the toolchain list. A position for which
/// nothing was reported holds a runner error; a tag beyond the list is
/// passed over.
pub fn restore_order(results: &Vec<ToolchainResult>, count: usize) -> (outcomes: Vec<
    CompilationOutcome,
>)
    ensures
        outcomes@ == in_input_order(results@, count as nat),
{
    let mut outcomes: Vec<CompilationOutcome> = Vec::new();
    let mut n: usize = 0;
    while n < count
        invariant
            n <= count,
            outcomes@ == in_input_order(Seq::<ToolchainResult>::empty(), n as nat),
        decreases count - n,
    {
        outcomes.push(CompilationOutcome::RunnerError);
        n += 1;
        assert(outcomes@ =~= in_input_order(Seq::<ToolchainResult>::empty(), n as nat));
    }
    let mut k: usize = 0;
    assert(results@.take(0) =~= Seq::<ToolchainResult>::empty());
    while k < results.len()
        invariant
            k <= results.len(),
            outcomes@ == in_input_order(results@.take(k as int), count as nat),
        decreases results.len() - k,
    {
        let result = results[k];
        proof {
            let upto = results@.take(k + 1);
            assert(upto.drop_last() =~= results@.take(k as int));
            assert(upto.last() == result);
        }
        if result.index < count {
            outcomes.set(result.index, result.outcome);
        }
        k += 1;
        assert(outcomes@ =~= in_input_order(results@.take(k as int), count as nat));
    }
    assert(results@.take(results.len() as int) =~= results@);
    outcomes
}

/// `completion` is an order in which `count` attempts can complete: it names
/// every position of the toolchain list once.
pub open spec fn is_completion_order(completion: Seq<int>, count: nat) -> bool {
    &&& completion.len() == count
    &&& forall|k: int| 0 <= k < count ==> 0 <= #[trigger] completion[k] < count
    &&& forall|position: int| 0 <= position < count ==> #[trigger] completion.contains(position)
}

/// The results of attempts that complete in the order `completion`, where
/// the toolchain at position `i` has the outcome `outcomes[i]`.
pub open spec fn completed_in(outcomes: Seq<CompilationOutcome>, completion: Seq<int>) -> Seq<
    ToolchainResult,
> {
    Seq::new(
        completion.len(),
        |k: int|
            ToolchainResult { index: completion[k] as usize, outcome: outcomes[completion[k]] },
    )
}

/// A run over `n` toolchains yields `n` outcomes, and the outcome at each
/// position is that of the toolchain at that position, whatever the order in
/// which the attempts completed.
pub proof fn lemma_order_restored(outcomes: Seq<CompilationOutcome>, completion: Seq<int>)
    requires
        outcomes.len() <= usize::MAX,
        is_completion_order(completion, outcomes.len()),
    ensures
        in_input_order(completed_in(outcomes, completion), outcomes.len()) == outcomes,
{
    let results = completed_in(outcomes, completion);
    assert forall|position: int| 0 <= position < outcomes.len() implies reported(
        results,
        position,
    ) == outcomes[position] by {
        assert(completion.contains(position));
        let k = choose|k: int| 0 <= k < completion.len() && completion[k] == position;
        lemma_reported_of_tagged(results, outcomes, position, k);
    }
    assert(in_input_order(results, outcomes.len()) =~= outcomes);
}

/// Where every result tagged with `position` carries `outcomes[position]`
/// and one such result exists, that is the outcome reported for it.
proof fn lemma_reported_of_tagged(
    results: Seq<ToolchainResult>,
    outcomes: Seq<CompilationOutcome>,
    position: int,
    k: int,
)
    requires
        0 <= k < results.len(),
        results[k].index == position,
        forall|j: int|
            0 <= j < results.len() && results[j].index == position ==> (#[trigger] results[j]).outcome
                == outcomes[position],
    ensures
        reported(results, position) == outcomes[position],
    decreases results.len(),
{
    if results.last().index != position {
        lemma_reported_of_tagged(results.drop_last(), outcomes, position, k);
    }
}

} // verus!
