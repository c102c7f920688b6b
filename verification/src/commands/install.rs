//! Installing: the configured tasks, one after the other, until one fails.

use vstd::prelude::*;
use vstd::string::StringExecFns;
use crate::args::GlobalArgs;
use crate::config::{Config, Task};
use crate::path::{join, joined};

verus! {

/// Where installing stands.
#[derive(Clone, Copy, Debug, PartialEq, Eq, Structural)]
pub enum InstallState {
    /// Not started.
    Idle,
    /// The task at `index` is running; those before it ended well.
    Running { index: usize },
    /// Over: every task ended well.
    Done,
    /// Over: the task at `index` failed, and none after it was started.
    Failed { index: usize },
}

/// What happened since the last step.
#[derive(Debug, PartialEq, Eq)]
pub enum InstallEvent {
    /// The command was called.
    Start,
    /// The running task ended; whether well, its status in words, and what
    /// it wrote to standard error.
    Exited { success: bool, status: String, stderr: String },
    /// The running task could not be started, or not be waited for; what
    /// the attempt said.
    Broken { cause: String },
}

/// A script to run.
#[derive(Debug, PartialEq, Eq)]
pub struct Command {
    /// The program that runs the script.
    pub shell: String,
    /// The script, the program's one argument.
    pub script: String,
    /// The directory to run it in.
    pub workdir: String,
    /// What the task is called in reports.
    pub label: String,
    /// How many tasks ended before this one.
    pub position: usize,
    /// How many tasks there are.
    pub total: usize,
}

/// A task that did not end well.
#[derive(Debug, PartialEq, Eq)]
pub struct TaskError {
    /// What the task is called: its name, or its script where it has none.
    pub task: String,
    /// Its status and what it wrote to standard error, or why it could not
    /// be run.
    pub cause: String,
}

impl TaskError {
    /// The error in words.
    pub fn message(&self) -> (text: String)
        ensures
            text@ == "Failed to execute task: "@ + self.task@ + ": "@ + self.cause@,
    {
        let mut text = "Failed to execute task: ".to_owned();
        text.append(self.task.as_str());
        text.append(": ");
        text.append(self.cause.as_str());
        text
    }
}

/// What to do next.
#[derive(Debug, PartialEq, Eq)]
pub enum InstallAction {
    /// Run this and come back with how it ended.
    Run(Command),
    /// Nothing more: every task ended well.
    Finish,
    /// Give up with this error; no task is started any more.
    Fail(TaskError),
    /// Nothing: installing is over, or was not started.
    Nothing,
}

/// What happened, without the words.
#[derive(Clone, Copy, Debug, PartialEq, Eq, Structural)]
pub enum Outcome {
    Start,
    Succeeded,
    Failed,
}

/// What to do, without the details.
#[derive(Clone, Copy, Debug, PartialEq, Eq, Structural)]
pub enum Step {
    /// Run the task at this place.
    Run(usize),
    Finish,
    /// Give up over the task at this place.
    Fail(usize),
    Nothing,
}

impl InstallEvent {
    /// What happened, without the words.
    pub open spec fn outcome(&self) -> Outcome {
        match self {
            InstallEvent::Start => Outcome::Start,
            InstallEvent::Exited { success, .. } => if *success {
                Outcome::Succeeded
            } else {
                Outcome::Failed
            },
            InstallEvent::Broken { .. } => Outcome::Failed,
        }
    }

    /// Why the task failed, in words: its status and what it wrote to
    /// standard error after a run, the cause where it could not be run.
    pub open spec fn cause(&self) -> Seq<char> {
        match self {
            InstallEvent::Start => Seq::empty(),
            InstallEvent::Exited { status, stderr, .. } => failure_of(status@, stderr@),
            InstallEvent::Broken { cause } => "Failed to start command: "@ + cause@,
        }
    }
}

/// What is said of a task that ended with a failing status: the status,
/// and on a line of its own what the task wrote to standard error, if it
/// wrote anything.
pub open spec fn failure_of(status: Seq<char>, stderr: Seq<char>) -> Seq<char> {
    if stderr.len() == 0 {
        "Command failed with status: "@ + status
    } else {
        "Command failed with status: "@ + status + seq!['\n'] + stderr
    }
}

/// What is said of a task that ended with a failing status.
pub fn failure_text(status: &str, stderr: &str) -> (text: String)
    ensures
        text@ == failure_of(status@, stderr@),
{
    let mut text = "Command failed with status: ".to_owned();
    text.append(status);
    if !stderr.is_empty() {
        text.push('\n');
        text.append(stderr);
    }
    text
}

/// The task to turn to when `next` tasks are behind: the one at `next`, or
/// the end where there is none.
pub open spec fn turn_to(total: int, next: int) -> (InstallState, Step) {
    if 0 <= next < total {
        (InstallState::Running { index: next as usize }, Step::Run(next as usize))
    } else {
        (InstallState::Done, Step::Finish)
    }
}

/// The step from `state` on `outcome`, with `total` tasks configured: on
/// the start the first task; after a task that ended well the next one;
/// after one that failed the end, with no task after it; else nothing.
pub open spec fn install_step(total: int, state: InstallState, outcome: Outcome) -> (
    InstallState,
    Step,
) {
    match (state, outcome) {
        (InstallState::Idle, Outcome::Start) => turn_to(total, 0),
        (InstallState::Running { index }, Outcome::Succeeded) => if index < total {
            turn_to(total, index + 1)
        } else {
            (state, Step::Nothing)
        },
        (InstallState::Running { index }, Outcome::Failed) => if index < total {
            (InstallState::Failed { index }, Step::Fail(index))
        } else {
            (state, Step::Nothing)
        },
        _ => (state, Step::Nothing),
    }
}

/// Whether `command` runs `task`, the one at `position` of `total`, under
/// `root`: the task's shell on its script, in its working directory as
/// seen from the root.
pub open spec fn runs(
    command: Command,
    task: Task,
    root: Seq<char>,
    position: int,
    total: int,
) -> bool {
    &&& command.shell@ == task.shell@
    &&& command.script@ == task.script@
    &&& command.workdir@ == joined(root, task.workdir@)
    &&& command.label@ == task.spec_label()
    &&& command.position == position
    &&& command.total == total
}

/// Whether `action` is what `step` asks for, in full.
pub open spec fn carries_out(
    action: InstallAction,
    step: Step,
    config: Config,
    global: GlobalArgs,
    event: InstallEvent,
) -> bool {
    match step {
        Step::Run(index) => {
            &&& index < config.tasks@.len()
            &&& action matches InstallAction::Run(command)
            &&& runs(
                command,
                config.tasks@[index as int],
                global.root@,
                index as int,
                config.tasks@.len() as int,
            )
        },
        Step::Finish => action is Finish,
        Step::Fail(index) => {
            &&& index < config.tasks@.len()
            &&& action matches InstallAction::Fail(error)
            &&& error.task@ == config.tasks@[index as int].spec_label()
            &&& error.cause@ == event.cause()
        },
        Step::Nothing => action is Nothing,
    }
}

/// The order to run `task`.
pub fn run_task(task: &Task, root: &str, position: usize, total: usize) -> (command: Command)
    ensures
        runs(command, *task, root@, position as int, total as int),
{
    Command {
        shell: task.shell.clone(),
        script: task.script.clone(),
        workdir: join(root, task.workdir.as_str()),
        label: task.label().clone(),
        position,
        total,
    }
}

/// Turns to the task at `next`.
fn turn(config: &Config, global: &GlobalArgs, next: usize) -> (r: (InstallState, InstallAction))
    ensures
        r.0 == turn_to(config.tasks@.len() as int, next as int).0,
        next < config.tasks@.len() ==> (r.1 matches InstallAction::Run(command) && runs(
            command,
            config.tasks@[next as int],
            global.root@,
            next as int,
            config.tasks@.len() as int,
        )),
        next >= config.tasks@.len() ==> r.1 is Finish,
{
    let total = config.tasks.len();
    if next < total {
        let command = run_task(&config.tasks[next], global.root.as_str(), next, total);
        (InstallState::Running { index: next }, InstallAction::Run(command))
    } else {
        (InstallState::Done, InstallAction::Finish)
    }
}

/// Takes one step of installing: from where it stands and what happened,
/// to where it stands next and what to do.
///
/// The tasks are run in the order of the configuration, one at a time. A
/// task that ends with a failing status, or cannot be run, ends
/// installing: the error names the task, its status and what it wrote to
/// standard error, and no task after it is started.
pub fn install(config: &Config, global: &GlobalArgs, state: InstallState, event: InstallEvent) -> (r:
    (InstallState, InstallAction))
    ensures
        r.0 == install_step(config.tasks@.len() as int, state, event.outcome()).0,
        carries_out(
            r.1,
            install_step(config.tasks@.len() as int, state, event.outcome()).1,
            *config,
            *global,
            event,
        ),
{
    match (state, event) {
        (InstallState::Idle, InstallEvent::Start) => turn(config, global, 0),
        (InstallState::Running { index }, InstallEvent::Exited { success, status, stderr }) => {
            if index >= config.tasks.len() {
                (state, InstallAction::Nothing)
            } else if success {
                turn(config, global, index + 1)
            } else {
                let cause = failure_text(status.as_str(), stderr.as_str());
                let task = config.tasks[index].label().clone();
                (InstallState::Failed { index }, InstallAction::Fail(TaskError { task, cause }))
            }
        },
        (InstallState::Running { index }, InstallEvent::Broken { cause: reason }) => {
            if index >= config.tasks.len() {
                return (state, InstallAction::Nothing);
            }
            let mut cause = "Failed to start command: ".to_owned();
            cause.append(reason.as_str());
            let task = config.tasks[index].label().clone();
            (InstallState::Failed { index }, InstallAction::Fail(TaskError { task, cause }))
        },
        (state, _) => (state, InstallAction::Nothing),
    }
}


/// Where installing stands after `outcomes`, in the order in which they
/// came, when it stood at `state` before them.
pub open spec fn state_after(total: int, state: InstallState, outcomes: Seq<Outcome>) -> InstallState
    decreases outcomes.len(),
{
    if outcomes.len() == 0 {
        state
    } else {
        install_step(total, state_after(total, state, outcomes.drop_last()), outcomes.last()).0
    }
}

/// What installing does on the outcome at place `at` of `outcomes`.
pub open spec fn step_at(total: int, state: InstallState, outcomes: Seq<Outcome>, at: int) -> Step {
    install_step(total, state_after(total, state, outcomes.take(at)), outcomes[at]).1
}

/// How far installing has come: the place of the task that runs or
/// failed, none before the start, all tasks at the end.
pub open spec fn progress(total: int, state: InstallState) -> int {
    match state {
        InstallState::Idle => -1,
        InstallState::Running { index } => index as int,
        InstallState::Failed { index } => index as int,
        InstallState::Done => total,
    }
}

/// Once a task has failed, installing stays where it is and does nothing,
/// whatever comes.
pub proof fn lemma_failure_is_final(
    total: int,
    state: InstallState,
    outcomes: Seq<Outcome>,
    from: int,
    to: int,
)
    requires
        0 <= from <= to <= outcomes.len(),
        state_after(total, state, outcomes.take(from)) is Failed,
    ensures
        state_after(total, state, outcomes.take(to)) == state_after(
            total,
            state,
            outcomes.take(from),
        ),
        to < outcomes.len() ==> step_at(total, state, outcomes, to) == Step::Nothing,
    decreases to - from,
{
    if from < to {
        lemma_failure_is_final(total, state, outcomes, from, to - 1);
        assert(outcomes.take(to).drop_last() =~= outcomes.take(to - 1));
        assert(outcomes.take(to).last() == outcomes[to - 1]);
    }
}

/// After a task has failed no task is started: each later step does
/// nothing.
pub proof fn lemma_no_task_after_failure(
    total: int,
    state: InstallState,
    outcomes: Seq<Outcome>,
    failed: int,
    later: int,
)
    requires
        0 <= failed < later < outcomes.len(),
        step_at(total, state, outcomes, failed) is Fail,
    ensures
        step_at(total, state, outcomes, later) == Step::Nothing,
{
    assert(outcomes.take(failed + 1).drop_last() =~= outcomes.take(failed));
    assert(outcomes.take(failed + 1).last() == outcomes[failed]);
    lemma_failure_is_final(total, state, outcomes, failed + 1, later);
}

/// Installing never goes back: what it has come to, it keeps.
pub proof fn lemma_progress_grows(
    total: int,
    state: InstallState,
    outcomes: Seq<Outcome>,
    from: int,
    to: int,
)
    requires
        0 <= from <= to <= outcomes.len(),
        0 <= total <= usize::MAX,
        progress(total, state) <= total,
    ensures
        progress(total, state_after(total, state, outcomes.take(from))) <= progress(
            total,
            state_after(total, state, outcomes.take(to)),
        ) <= total,
    decreases to,
{
    if to == 0 {
        assert(outcomes.take(0) =~= Seq::<Outcome>::empty());
    } else if from < to {
        lemma_progress_grows(total, state, outcomes, from, to - 1);
        assert(outcomes.take(to).drop_last() =~= outcomes.take(to - 1));
        assert(outcomes.take(to).last() == outcomes[to - 1]);
    } else {
        lemma_progress_grows(total, state, outcomes, 0, to - 1);
        assert(outcomes.take(to).drop_last() =~= outcomes.take(to - 1));
        assert(outcomes.take(to).last() == outcomes[to - 1]);
    }
}

/// The tasks are started in the order of the configuration, each at most
/// once: of two tasks started, the one started later stands later.
pub proof fn lemma_tasks_run_in_order(
    total: int,
    outcomes: Seq<Outcome>,
    earlier: int,
    later: int,
    first: usize,
    second: usize,
)
    requires
        0 <= total <= usize::MAX,
        0 <= earlier < later < outcomes.len(),
        step_at(total, InstallState::Idle, outcomes, earlier) == Step::Run(first),
        step_at(total, InstallState::Idle, outcomes, later) == Step::Run(second),
    ensures
        first < second < total,
{
    let start = InstallState::Idle;
    assert(outcomes.take(earlier + 1).drop_last() =~= outcomes.take(earlier));
    assert(outcomes.take(earlier + 1).last() == outcomes[earlier]);
    assert(state_after(total, start, outcomes.take(earlier + 1)) == InstallState::Running {
        index: first,
    });
    lemma_progress_grows(total, start, outcomes, earlier + 1, later);
}

} // verus!
