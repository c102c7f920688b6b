//! Syncing: asking, linking, rendering and installing, in this order, each
//! stage only after the one before it ended well.

use vstd::prelude::*;
use crate::args::{AskArgs, SyncArgs};

verus! {

/// One of the four stages of a sync.
#[derive(Clone, Copy, Debug, PartialEq, Eq, Structural)]
pub enum Stage {
    Asking,
    Linking,
    Rendering,
    Installing,
}

impl Stage {
    /// The stage that follows this one, `None` after the last.
    pub open spec fn spec_next(self) -> Option<Stage> {
        match self {
            Stage::Asking => Some(Stage::Linking),
            Stage::Linking => Some(Stage::Rendering),
            Stage::Rendering => Some(Stage::Installing),
            Stage::Installing => None,
        }
    }

    /// The place of the stage among the four.
    pub open spec fn rank(self) -> int {
        match self {
            Stage::Asking => 0,
            Stage::Linking => 1,
            Stage::Rendering => 2,
            Stage::Installing => 3,
        }
    }

    /// The stage that follows this one.
    pub fn next(self) -> (next: Option<Stage>)
        ensures
            next == self.spec_next(),
    {
        match self {
            Stage::Asking => Some(Stage::Linking),
            Stage::Linking => Some(Stage::Rendering),
            Stage::Rendering => Some(Stage::Installing),
            Stage::Installing => None,
        }
    }

    /// The name of the stage.
    pub fn name(self) -> (name: &'static str)
        ensures
            name@ == match self {
                Stage::Asking => "ask"@,
                Stage::Linking => "link"@,
                Stage::Rendering => "render"@,
                Stage::Installing => "install"@,
            },
    {
        match self {
            Stage::Asking => "ask",
            Stage::Linking => "link",
            Stage::Rendering => "render",
            Stage::Installing => "install",
        }
    }
}

/// Where a sync stands.
#[derive(Debug, PartialEq, Eq)]
pub enum SyncState {
    /// Not started.
    Idle,
    /// This stage is at work; those before it ended well.
    Running(Stage),
    /// Over: every stage ended well.
    Done,
    /// Over: this stage failed, for this cause, and none after it was
    /// started.
    Failed { stage: Stage, cause: String },
}

/// What happened since the last step.
#[derive(Debug, PartialEq, Eq)]
pub enum SyncEvent {
    /// The command was called.
    Start,
    /// The stage at work ended well.
    Finished,
    /// The stage at work failed; why.
    Failure(String),
}

/// What to do next.
#[derive(Debug, PartialEq, Eq)]
pub enum SyncAction {
    /// Run this stage and come back with how it ended; asking with these
    /// arguments.
    Run { stage: Stage, ask: AskArgs },
    /// Nothing more: every stage ended well.
    Finish,
    /// Give up: a stage failed.
    Abort,
    /// Nothing: the sync is over, or was not started.
    Nothing,
}

/// The order to run `stage`. A sync never asks again for what is answered.
pub open spec fn run(stage: Stage) -> SyncAction {
    SyncAction::Run { stage, ask: AskArgs { force: false } }
}

/// The step of a sync from `state` on `event`: on the start the first
/// stage; after a stage that ended well the next one, and the end after
/// the last; after a stage that failed the end, with the stage and the
/// cause kept; else nothing.
pub open spec fn sync_step(state: SyncState, event: SyncEvent) -> (SyncState, SyncAction) {
    match (state, event) {
        (SyncState::Idle, SyncEvent::Start) => (
            SyncState::Running(Stage::Asking),
            run(Stage::Asking),
        ),
        (SyncState::Running(stage), SyncEvent::Finished) => match stage.spec_next() {
            Some(next) => (SyncState::Running(next), run(next)),
            None => (SyncState::Done, SyncAction::Finish),
        },
        (SyncState::Running(stage), SyncEvent::Failure(cause)) => (
            SyncState::Failed { stage, cause },
            SyncAction::Abort,
        ),
        _ => (state, SyncAction::Nothing),
    }
}

/// Takes one step of a sync: from where it stands and what happened, to
/// where it stands next and what to do.
///
/// The stages run in the order asking, linking, rendering, installing. A
/// stage that fails ends the sync, and no stage after it is started.
/// Asking is never forced, whatever the arguments say.
pub fn sync(_args: &SyncArgs, state: SyncState, event: SyncEvent) -> (r: (SyncState, SyncAction))
    ensures
        r == sync_step(state, event),
{
    match (state, event) {
        (SyncState::Idle, SyncEvent::Start) => (
            SyncState::Running(Stage::Asking),
            SyncAction::Run { stage: Stage::Asking, ask: AskArgs { force: false } },
        ),
        (SyncState::Running(stage), SyncEvent::Finished) => match stage.next() {
            Some(next) => (
                SyncState::Running(next),
                SyncAction::Run { stage: next, ask: AskArgs { force: false } },
            ),
            None => (SyncState::Done, SyncAction::Finish),
        },
        (SyncState::Running(stage), SyncEvent::Failure(cause)) => (
            SyncState::Failed { stage, cause },
            SyncAction::Abort,
        ),
        (state, _) => (state, SyncAction::Nothing),
    }
}

/// Where a sync stands after `events`, in the order in which they came,
/// when it stood at `state` before them.
pub open spec fn sync_after(state: SyncState, events: Seq<SyncEvent>) -> SyncState
    decreases events.len(),
{
    if events.len() == 0 {
        state
    } else {
        sync_step(sync_after(state, events.drop_last()), events.last()).0
    }
}

/// What a sync does on the event at place `at` of `events`.
pub open spec fn sync_action_at(state: SyncState, events: Seq<SyncEvent>, at: int) -> SyncAction {
    sync_step(sync_after(state, events.take(at)), events[at]).1
}

/// How far a sync has come: the place of the stage that is at work or
/// failed, none before the start, all four at the end.
pub open spec fn sync_progress(state: SyncState) -> int {
    match state {
        SyncState::Idle => -1,
        SyncState::Running(stage) => stage.rank(),
        SyncState::Failed { stage, .. } => stage.rank(),
        SyncState::Done => 4,
    }
}

/// A sync whose stages all end well runs asking, linking, rendering and
/// installing, in this order, and then ends.
pub proof fn lemma_stages_in_order()
    ensures
        ({
            let events = seq![
                SyncEvent::Start,
                SyncEvent::Finished,
                SyncEvent::Finished,
                SyncEvent::Finished,
                SyncEvent::Finished,
            ];
            &&& sync_action_at(SyncState::Idle, events, 0) == run(Stage::Asking)
            &&& sync_action_at(SyncState::Idle, events, 1) == run(Stage::Linking)
            &&& sync_action_at(SyncState::Idle, events, 2) == run(Stage::Rendering)
            &&& sync_action_at(SyncState::Idle, events, 3) == run(Stage::Installing)
            &&& sync_action_at(SyncState::Idle, events, 4) == SyncAction::Finish
            &&& sync_after(SyncState::Idle, events) == SyncState::Done
        }),
{
    let events = seq![
        SyncEvent::Start,
        SyncEvent::Finished,
        SyncEvent::Finished,
        SyncEvent::Finished,
        SyncEvent::Finished,
    ];
    let idle = SyncState::Idle;
    assert(events.take(0) =~= Seq::<SyncEvent>::empty());
    assert(sync_after(idle, events.take(0)) == idle);
    assert(events.take(1).drop_last() =~= events.take(0));
    assert(sync_after(idle, events.take(1)) == SyncState::Running(Stage::Asking));
    assert(events.take(2).drop_last() =~= events.take(1));
    assert(sync_after(idle, events.take(2)) == SyncState::Running(Stage::Linking));
    assert(events.take(3).drop_last() =~= events.take(2));
    assert(sync_after(idle, events.take(3)) == SyncState::Running(Stage::Rendering));
    assert(events.take(4).drop_last() =~= events.take(3));
    assert(sync_after(idle, events.take(4)) == SyncState::Running(Stage::Installing));
    assert(events.drop_last() =~= events.take(4));
}

/// Once a stage has failed, the sync stays where it is, with the stage and
/// the cause, and does nothing, whatever comes.
pub proof fn lemma_sync_failure_is_final(
    state: SyncState,
    events: Seq<SyncEvent>,
    from: int,
    to: int,
)
    requires
        0 <= from <= to <= events.len(),
        sync_after(state, events.take(from)) is Failed,
    ensures
        sync_after(state, events.take(to)) == sync_after(state, events.take(from)),
        to < events.len() ==> sync_action_at(state, events, to) == SyncAction::Nothing,
    decreases to - from,
{
    if from < to {
        lemma_sync_failure_is_final(state, events, from, to - 1);
        assert(events.take(to).drop_last() =~= events.take(to - 1));
        assert(events.take(to).last() == events[to - 1]);
    }
}

/// After a stage has failed no stage is started: each later step does
/// nothing.
pub proof fn lemma_no_stage_after_failure(
    state: SyncState,
    events: Seq<SyncEvent>,
    failed: int,
    later: int,
)
    requires
        0 <= failed < later < events.len(),
        sync_action_at(state, events, failed) == SyncAction::Abort,
    ensures
        sync_action_at(state, events, later) == SyncAction::Nothing,
{
    assert(events.take(failed + 1).drop_last() =~= events.take(failed));
    assert(events.take(failed + 1).last() == events[failed]);
    lemma_sync_failure_is_final(state, events, failed + 1, later);
}

/// A sync never goes back to a stage that it has left.
pub proof fn lemma_sync_progress_grows(
    state: SyncState,
    events: Seq<SyncEvent>,
    from: int,
    to: int,
)
    requires
        0 <= from <= to <= events.len(),
    ensures
        sync_progress(sync_after(state, events.take(from))) <= sync_progress(
            sync_after(state, events.take(to)),
        ),
    decreases to - from,
{
    if from < to {
        lemma_sync_progress_grows(state, events, from, to - 1);
        assert(events.take(to).drop_last() =~= events.take(to - 1));
        assert(events.take(to).last() == events[to - 1]);
    }
}

/// Each stage is started at most once, and in the order of the stages: of
/// two stages started, the one started later stands later.
pub proof fn lemma_each_stage_once(
    events: Seq<SyncEvent>,
    earlier: int,
    later: int,
    first: Stage,
    second: Stage,
)
    requires
        0 <= earlier < later < events.len(),
        sync_action_at(SyncState::Idle, events, earlier) == run(first),
        sync_action_at(SyncState::Idle, events, later) == run(second),
    ensures
        first.rank() < second.rank(),
{
    let idle = SyncState::Idle;
    assert(events.take(earlier + 1).drop_last() =~= events.take(earlier));
    assert(events.take(earlier + 1).last() == events[earlier]);
    assert(sync_after(idle, events.take(earlier + 1)) == SyncState::Running(first));
    lemma_sync_progress_grows(idle, events, earlier + 1, later);
}

} // verus!
