//! The command dispatcher: runs a batch of commands through the external
//! tool, one after the other, and keeps one outcome per command.
//!
//! Launching a process is the caller's business. A `Dispatch` tells the
//! caller which argument vector to launch next and takes what the launch
//! came to. A command that fails is recorded and the batch goes on: nothing
//! is retried and nothing stops the commands after it.

use vstd::prelude::*;
use crate::args::{parse_args, split_args};
use crate::text::copy_strings;

verus! {

/// The executable that every command of a batch is run through.
pub const MONITOR_TOOL: &'static str = "ControlMyMonitor.exe";

/// What became of one launch of the tool, as the caller observed it.
#[derive(Clone, Debug, PartialEq, Eq)]
pub enum LaunchResult {
    /// The tool ran and exited; `stderr` is what it wrote to standard error.
    Exited { success: bool, stderr: String },
    /// The tool could not be found or started.
    NotStarted { reason: String },
}

/// A launch result with its texts as character sequences.
pub enum LaunchResultView {
    Exited { success: bool, stderr: Seq<char> },
    NotStarted { reason: Seq<char> },
}

impl View for LaunchResult {
    type V = LaunchResultView;

    open spec fn view(&self) -> LaunchResultView {
        match *self {
            LaunchResult::Exited { success, stderr } => LaunchResultView::Exited {
                success,
                stderr: stderr@,
            },
            LaunchResult::NotStarted { reason } => LaunchResultView::NotStarted { reason: reason@ },
        }
    }
}

/// The outcome of one command of a batch.
#[derive(Clone, Debug, PartialEq, Eq)]
pub enum CommandOutcome {
    /// The tool exited with a success status.
    Success,
    /// The tool ran but reported failure; holds its standard error text.
    ToolError(String),
    /// The tool could not be started; holds the reason.
    LaunchFailure(String),
}

/// An outcome with its text as a character sequence.
pub enum OutcomeView {
    Success,
    ToolError(Seq<char>),
    LaunchFailure(Seq<char>),
}

impl View for CommandOutcome {
    type V = OutcomeView;

    open spec fn view(&self) -> OutcomeView {
        match *self {
            CommandOutcome::Success => OutcomeView::Success,
            CommandOutcome::ToolError(text) => OutcomeView::ToolError(text@),
            CommandOutcome::LaunchFailure(reason) => OutcomeView::LaunchFailure(reason@),
        }
    }
}

impl DeepView for CommandOutcome {
    type V = OutcomeView;

    open spec fn deep_view(&self) -> OutcomeView {
        self@
    }
}

/// The outcome that a launch result amounts to.
pub open spec fn outcome_of(result: LaunchResultView) -> OutcomeView {
    match result {
        LaunchResultView::Exited { success, stderr } => if success {
            OutcomeView::Success
        } else {
            OutcomeView::ToolError(stderr)
        },
        LaunchResultView::NotStarted { reason } => OutcomeView::LaunchFailure(reason),
    }
}

/// Turns what a launch came to into the command's outcome.
pub fn classify(result: LaunchResult) -> (outcome: CommandOutcome)
    ensures
        outcome@ == outcome_of(result@),
{
    match result {
        LaunchResult::Exited { success, stderr } => if success {
            CommandOutcome::Success
        } else {
            CommandOutcome::ToolError(stderr)
        },
        LaunchResult::NotStarted { reason } => CommandOutcome::LaunchFailure(reason),
    }
}

/// The progress of one batch: the commands still to be launched, in order,
/// and the outcomes of those already attempted, in order.
pub struct DispatchView {
    pub remaining: Seq<Seq<char>>,
    pub outcomes: Seq<OutcomeView>,
}

impl DispatchView {
    /// A batch of which nothing has been launched yet.
    pub open spec fn start(batch: Seq<Seq<char>>) -> DispatchView {
        DispatchView { remaining: batch, outcomes: Seq::empty() }
    }

    /// Whether every command has been attempted.
    pub open spec fn is_complete(self) -> bool {
        self.remaining.len() == 0
    }

    /// The argument vector to launch next, if a command is left.
    pub open spec fn next_launch(self) -> Option<Seq<Seq<char>>> {
        if self.remaining.len() > 0 {
            Some(split_args(self.remaining[0]))
        } else {
            None
        }
    }

    /// The progress after the pending command's launch came to `result`.
    /// Whatever the result, the command counts as attempted and the next one
    /// is up. With no command pending, nothing changes.
    pub open spec fn recorded(self, result: LaunchResultView) -> DispatchView {
        if self.remaining.len() > 0 {
            DispatchView {
                remaining: self.remaining.skip(1),
                outcomes: self.outcomes.push(outcome_of(result)),
            }
        } else {
            self
        }
    }

    /// The progress after a series of launch results, recorded in order.
    pub open spec fn after(self, results: Seq<LaunchResultView>) -> DispatchView
        decreases results.len(),
    {
        if results.len() == 0 {
            self
        } else {
            self.after(results.drop_last()).recorded(results.last())
        }
    }
}

/// One batch on its way through the tool.
#[derive(Clone, Debug, PartialEq, Eq)]
pub struct Dispatch {
    remaining: Vec<String>,
    outcomes: Vec<CommandOutcome>,
}

impl View for Dispatch {
    type V = DispatchView;

    closed spec fn view(&self) -> DispatchView {
        DispatchView { remaining: self.remaining.deep_view(), outcomes: self.outcomes.deep_view() }
    }
}

impl Dispatch {
    /// Takes up a batch: every command is still to be launched.
    pub fn new(batch: &Vec<String>) -> (dispatch: Dispatch)
        ensures
            dispatch@ == DispatchView::start(batch.deep_view()),
    {
        let dispatch = Dispatch { remaining: copy_strings(batch), outcomes: Vec::new() };
        assert(dispatch.outcomes.deep_view() =~= Seq::empty());
        dispatch
    }

    /// Whether every command of the batch has been attempted.
    pub fn is_complete(&self) -> (complete: bool)
        ensures
            complete == self@.is_complete(),
    {
        self.remaining.len() == 0
    }

    /// The argument vector of the command that is up, split from its command
    /// string; `None` once the batch is complete.
    pub fn next_launch(&self) -> (args: Option<Vec<String>>)
        ensures
            args.deep_view() == self@.next_launch(),
    {
        if self.remaining.len() > 0 {
            assert(self.remaining.deep_view()[0] == self.remaining[0]@);
            Some(parse_args(self.remaining[0].as_str()))
        } else {
            None
        }
    }

    /// Records what the launch of the pending command came to and moves on
    /// to the next command, whether the launch succeeded or not.
    pub fn record(&mut self, result: LaunchResult)
        ensures
            final(self)@ == old(self)@.recorded(result@),
    {
        if self.remaining.len() > 0 {
            let ghost commands = self.remaining.deep_view();
            let ghost outcomes = self.outcomes.deep_view();
            self.remaining.remove(0);
            self.outcomes.push(classify(result));
            assert(self.remaining.deep_view() =~= commands.skip(1));
            assert(self.outcomes.deep_view() =~= outcomes.push(outcome_of(result@)));
        }
    }

    /// The outcomes of the commands attempted so far, in batch order.
    pub fn outcomes(&self) -> (outcomes: &Vec<CommandOutcome>)
        ensures
            outcomes.deep_view() == self@.outcomes,
    {
        &self.outcomes
    }
}

/// Fault isolation: whatever the launches come to, each command of the batch
/// is attempted once and in order, and each outcome is that of its own
/// launch alone. After the first `n` results of any series, the commands
/// still to be launched are the batch without its first `n`, and the
/// outcomes are those of the `n` results, one for one.
pub proof fn lemma_every_command_attempted(
    batch: Seq<Seq<char>>,
    results: Seq<LaunchResultView>,
)
    requires
        results.len() <= batch.len(),
    ensures
        DispatchView::start(batch).after(results).remaining == batch.skip(results.len() as int),
        DispatchView::start(batch).after(results).outcomes == results.map_values(
            |r: LaunchResultView| outcome_of(r),
        ),
        DispatchView::start(batch).after(results).is_complete() <==> results.len() == batch.len(),
    decreases results.len(),
{
    let progress = DispatchView::start(batch).after(results);
    let expected = results.map_values(|r: LaunchResultView| outcome_of(r));
    if results.len() == 0 {
        assert(progress.remaining =~= batch.skip(0));
        assert(progress.outcomes =~= expected);
    } else {
        let earlier = results.drop_last();
        lemma_every_command_attempted(batch, earlier);
        let before = DispatchView::start(batch).after(earlier);
        assert(before.remaining.len() > 0);
        assert(progress.remaining =~= batch.skip(results.len() as int));
        assert(progress.outcomes =~= expected);
    }
}

} // verus!
