//! The bookkeeping of a batch run: every command of a group, in order, one
//! outcome for each, whatever happens to the others.
//!
//! The host asks for the next step, performs it with the runner, and records
//! the result. A failure is recorded like a success and the run goes on.

use vstd::prelude::*;
use crate::model::{item_views, CommandItem, CommandItemView};
use crate::runner::text_result;
use crate::store::GroupStore;
use crate::text::joined;

verus! {

/// What became of one command of a batch: its display name, and either what it
/// printed or a message that begins with "Error: ".
#[derive(Debug, PartialEq, Eq)]
pub struct ExecutionOutcome {
    pub name: String,
    pub output: String,
}

/// An outcome as contracts see it.
pub struct OutcomeView {
    pub name: Seq<char>,
    pub output: Seq<char>,
}

impl View for ExecutionOutcome {
    type V = OutcomeView;

    open spec fn view(&self) -> OutcomeView {
        OutcomeView { name: self.name@, output: self.output@ }
    }
}

/// The views of a list of outcomes, in the same order.
pub open spec fn outcome_views(outcomes: Seq<ExecutionOutcome>) -> Seq<OutcomeView> {
    outcomes.map_values(|outcome: ExecutionOutcome| outcome@)
}

/// The text recorded for a result: the output as it is, or the failure behind
/// "Error: ".
pub open spec fn outcome_text(result: Result<Seq<char>, Seq<char>>) -> Seq<char> {
    match result {
        Ok(output) => output,
        Err(message) => "Error: "@ + message,
    }
}

/// What the host does next.
#[derive(Debug, PartialEq, Eq)]
pub enum Step {
    /// Run this command line, detached or attached, and record the result.
    Run { command: String, detached: bool },
    /// Every command has its outcome.
    Done,
}

/// A step as contracts see it.
pub enum StepView {
    Run { command: Seq<char>, detached: bool },
    Done,
}

impl View for Step {
    type V = StepView;

    open spec fn view(&self) -> StepView {
        match self {
            Step::Run { command, detached } => StepView::Run { command: command@, detached: *detached },
            Step::Done => StepView::Done,
        }
    }
}

/// A batch run as contracts see it: the commands it was started with and the
/// outcomes recorded so far.
pub struct RunView {
    pub commands: Seq<CommandItemView>,
    pub outcomes: Seq<OutcomeView>,
}

impl RunView {
    /// A run of `commands` of which nothing has happened yet.
    pub open spec fn started(commands: Seq<CommandItemView>) -> RunView {
        RunView { commands, outcomes: Seq::empty() }
    }

    /// The outcomes so far belong to the first commands, one each, in order.
    pub open spec fn wf(self) -> bool {
        &&& self.outcomes.len() <= self.commands.len()
        &&& forall|i: int|
            0 <= i < self.outcomes.len() ==> (#[trigger] self.outcomes[i]).name == self.commands[i].name
    }

    /// Whether every command has its outcome.
    pub open spec fn done(self) -> bool {
        self.outcomes.len() >= self.commands.len()
    }

    /// The step that is due: the first command without an outcome, in the mode
    /// that its flag asks for.
    pub open spec fn next_step(self) -> StepView {
        if self.done() {
            StepView::Done
        } else {
            let item = self.commands[self.outcomes.len() as int];
            StepView::Run { command: item.command, detached: item.detached() }
        }
    }

    /// The run after the result of the step that was due. A finished run
    /// stays as it is.
    pub open spec fn record(self, result: Result<Seq<char>, Seq<char>>) -> RunView {
        if self.done() {
            self
        } else {
            RunView {
                commands: self.commands,
                outcomes: self.outcomes.push(
                    OutcomeView {
                        name: self.commands[self.outcomes.len() as int].name,
                        output: outcome_text(result),
                    },
                ),
            }
        }
    }

    /// The run after a sequence of results, recorded one after the other.
    pub open spec fn record_all(self, results: Seq<Result<Seq<char>, Seq<char>>>) -> RunView
        decreases results.len(),
    {
        if results.len() == 0 {
            self
        } else {
            self.record_all(results.drop_last()).record(results.last())
        }
    }
}

/// Recording as many results as the run has commands, or fewer, gives one
/// outcome for each result, under the name of the command at that place.
proof fn lemma_record_prefix(commands: Seq<CommandItemView>, results: Seq<Result<Seq<char>, Seq<char>>>)
    requires
        results.len() <= commands.len(),
    ensures
        RunView::started(commands).record_all(results).commands == commands,
        RunView::started(commands).record_all(results).outcomes.len() == results.len(),
        forall|i: int|
            0 <= i < results.len() ==> #[trigger] RunView::started(commands).record_all(results).outcomes[i]
                == (OutcomeView { name: commands[i].name, output: outcome_text(results[i]) }),
    decreases results.len(),
{
    if results.len() > 0 {
        lemma_record_prefix(commands, results.drop_last());
    }
}

/// A batch never stops early and never loses a result: after one result for
/// each of the N commands, failures among them or not, the run is finished and
/// holds exactly N outcomes in the order of the commands, each under its
/// command's name, a success with its output as it is and a failure behind
/// "Error: ". Before the last result the run is not finished, and the step
/// that is due is the next command in the mode that its flag asks for.
pub proof fn lemma_one_outcome_per_command(
    commands: Seq<CommandItemView>,
    results: Seq<Result<Seq<char>, Seq<char>>>,
)
    requires
        results.len() == commands.len(),
    ensures
        RunView::started(commands).record_all(results).done(),
        RunView::started(commands).record_all(results).wf(),
        RunView::started(commands).record_all(results).outcomes.len() == commands.len(),
        forall|i: int|
            0 <= i < commands.len() ==> #[trigger] RunView::started(commands).record_all(results).outcomes[i]
                == (OutcomeView { name: commands[i].name, output: outcome_text(results[i]) }),
        forall|n: int|
            0 <= n < commands.len() ==> #[trigger] RunView::started(commands).record_all(
                results.take(n),
            ).next_step() == (StepView::Run {
                command: commands[n].command,
                detached: commands[n].detached(),
            }),
{
    lemma_record_prefix(commands, results);
    assert forall|n: int| 0 <= n < commands.len() implies #[trigger] RunView::started(commands).record_all(
        results.take(n),
    ).next_step() == (StepView::Run {
        command: commands[n].command,
        detached: commands[n].detached(),
    }) by {
        lemma_record_prefix(commands, results.take(n));
    }
}

/// A batch run in progress.
#[derive(Debug)]
pub struct GroupRun {
    commands: Vec<CommandItem>,
    outcomes: Vec<ExecutionOutcome>,
}

impl View for GroupRun {
    type V = RunView;

    closed spec fn view(&self) -> RunView {
        RunView { commands: item_views(self.commands@), outcomes: outcome_views(self.outcomes@) }
    }
}

impl GroupRun {
    #[verifier::type_invariant]
    spec fn in_step(self) -> bool {
        self@.wf()
    }

    /// Starts a run of `commands`.
    pub fn start(commands: Vec<CommandItem>) -> (run: GroupRun)
        ensures
            run@ == RunView::started(item_views(commands@)),
    {
        let run = GroupRun { commands, outcomes: Vec::new() };
        assert(run@.outcomes =~= Seq::empty());
        run
    }

    /// Starts a run of the group under `group_id`, on a copy of its commands:
    /// what happens to the store afterwards does not reach the run.
    ///
    /// Fails with "Group not found" when there is no such group; then there
    /// is no run and no outcome.
    pub fn begin(store: &GroupStore, group_id: &str) -> (result: Result<GroupRun, String>)
        ensures
            match result {
                Ok(run) => store@.contains_key(group_id@) && run@ == RunView::started(
                    store@[group_id@].commands,
                ),
                Err(message) => !store@.contains_key(group_id@) && message@ == "Group not found"@,
            },
    {
        match store.get(group_id) {
            Some(group) => Ok(GroupRun::start(group.commands)),
            None => Err(String::from_str("Group not found")),
        }
    }

    /// Whether every command has its outcome.
    pub fn is_done(&self) -> (done: bool)
        ensures
            done == self@.done(),
            self@.wf(),
    {
        proof {
            use_type_invariant(self);
        }
        self.outcomes.len() >= self.commands.len()
    }

    /// The step that is due.
    pub fn next_step(&self) -> (step: Step)
        ensures
            step@ == self@.next_step(),
            self@.wf(),
    {
        proof {
            use_type_invariant(self);
        }
        let n = self.outcomes.len();
        if n >= self.commands.len() {
            Step::Done
        } else {
            let item = &self.commands[n];
            Step::Run { command: item.command.clone(), detached: item.detached() }
        }
    }

    /// Records the result of the step that was due, a failure like a success.
    /// A result handed to a finished run is dropped.
    pub fn record(&mut self, result: Result<String, String>)
        ensures
            final(self)@ == old(self)@.record(text_result(result)),
            final(self)@.wf(),
    {
        proof {
            use_type_invariant(&*self);
        }
        let n = self.outcomes.len();
        if n < self.commands.len() {
            let name = self.commands[n].name.clone();
            let output = match result {
                Ok(output) => output,
                Err(message) => joined("Error: ", message.as_str()),
            };
            let mut outcomes: Vec<ExecutionOutcome> = Vec::new();
            std::mem::swap(&mut self.outcomes, &mut outcomes);
            let ghost before = outcomes@;
            let outcome = ExecutionOutcome { name, output };
            outcomes.push(outcome);
            proof {
                assert(outcome_views(outcomes@) =~= outcome_views(before).push(outcome@));
            }
            self.outcomes = outcomes;
        }
    }

    /// The outcomes recorded so far; of a finished run, one for each command.
    pub fn into_outcomes(self) -> (outcomes: Vec<ExecutionOutcome>)
        ensures
            outcome_views(outcomes@) == self@.outcomes,
            self@.wf(),
    {
        proof {
            use_type_invariant(&self);
        }
        self.outcomes
    }
}

} // verus!
