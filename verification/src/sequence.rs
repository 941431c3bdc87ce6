//! The order in which an operation asks, locks, plans, changes, notes and undoes.
//!
//! A [`Sequence`] names the stage at hand. Whoever runs the operation carries the stage out and
//! hands back what came of it.

use vstd::prelude::*;

use crate::error::{error_text, CliError, CliErrorV};
use crate::lock;
use crate::prepared;

verus! {

/// An operation that changes resources.
#[derive(Clone, Copy, Debug, PartialEq, Eq, Structural)]
pub enum Mutation {
    Up,
    Down,
    Prune,
}

/// How an operation ended.
#[derive(Clone, Copy, Debug, PartialEq, Eq, Structural)]
pub enum Ending {
    /// What would change was shown.
    Previewed,
    /// There was nothing to change.
    Absent,
    /// The person did not agree.
    Declined,
    /// It failed before the lock was held.
    Barred,
    /// It ran under the lock, with or without success.
    Ran,
}

/// What is to be done next.
#[derive(Clone, Copy, Debug, PartialEq, Eq, Structural)]
pub enum Stage {
    /// Work out what would change, without the lock.
    Preview,
    /// Let a person agree.
    Agree,
    /// Acquire the lock.
    Lock,
    /// Work out under the lock what changes.
    Plan,
    /// Save the journal with the plan.
    Open,
    /// Choose the next planned change.
    Choose,
    /// Make sure that the lock is still held, for a change.
    Assert,
    /// Make the change.
    Change,
    /// Save the journal with the change.
    Note,
    /// Save the journal and inspect the environment.
    Inspect,
    /// Save the journal with the failure.
    Abandon,
    /// Choose the next change to undo.
    ChooseUndo,
    /// Make sure that the lock is still held, for undoing a change.
    AssertUndo,
    /// Undo the change.
    Undo,
    /// Save the journal with the outcome.
    Close,
    /// Give the lock back.
    Release,
    /// Nothing is left to do.
    Done(Ending),
}

/// What came of a stage.
pub enum Event {
    /// It was carried out.
    Done,
    /// There was nothing to do, or the person did not agree.
    Nothing,
    /// A change was tried. The operator may have asked to stop meanwhile.
    Changed { succeeded: bool, cancelled: bool },
    /// It failed. The reason is what the journal says of the failure.
    Failed { error: CliError, reason: String },
}

/// The model of [`Event`].
pub enum EventV {
    Done,
    Nothing,
    Changed(bool, bool),
    Failed(CliErrorV, Seq<char>),
}

impl View for Event {
    type V = EventV;

    open spec fn view(&self) -> EventV {
        match self {
            Event::Done => EventV::Done,
            Event::Nothing => EventV::Nothing,
            Event::Changed { succeeded, cancelled } => EventV::Changed(*succeeded, *cancelled),
            Event::Failed { error, reason } => EventV::Failed(error@, reason@),
        }
    }
}

/// An operation under way.
pub struct Sequence {
    mutation: Mutation,
    dry_run: bool,
    keep_failed: bool,
    stage: Stage,
    stopped: bool,
    failure: Option<(CliError, String)>,
}

/// The model of [`Sequence`].
pub struct SequenceV {
    /// The operation.
    pub mutation: Mutation,
    /// Whether nothing may change.
    pub dry_run: bool,
    /// Whether changes stay where a later one fails.
    pub keep_failed: bool,
    /// What is to be done next.
    pub stage: Stage,
    /// Whether the operator asked to stop.
    pub stopped: bool,
    /// The failure so far, with what the journal says of it.
    pub failure: Option<(CliErrorV, Seq<char>)>,
}

/// The model of a failure.
pub open spec fn failure_view(failure: Option<(CliError, String)>) -> Option<(CliErrorV, Seq<char>)> {
    match failure {
        Some((error, reason)) => Some((error@, reason@)),
        None => None,
    }
}

impl View for Sequence {
    type V = SequenceV;

    closed spec fn view(&self) -> SequenceV {
        SequenceV {
            mutation: self.mutation,
            dry_run: self.dry_run,
            keep_failed: self.keep_failed,
            stage: self.stage,
            stopped: self.stopped,
            failure: failure_view(self.failure),
        }
    }
}

/// An operation of which nothing has been done.
pub open spec fn fresh(mutation: Mutation, dry_run: bool, keep_failed: bool) -> SequenceV {
    SequenceV { mutation, dry_run, keep_failed, stage: Stage::Preview, stopped: false, failure: None }
}

/// The stage that follows one that failed.
pub open spec fn after_failure(mutation: Mutation, stage: Stage) -> Stage {
    match stage {
        Stage::Preview | Stage::Agree | Stage::Lock => Stage::Done(Ending::Barred),
        Stage::Plan | Stage::Open | Stage::Abandon | Stage::Close => Stage::Release,
        Stage::Choose | Stage::Note => if mutation == Mutation::Up {
            Stage::Abandon
        } else {
            Stage::Release
        },
        Stage::Assert => match mutation {
            Mutation::Up => Stage::Abandon,
            Mutation::Down => Stage::Close,
            Mutation::Prune => Stage::Release,
        },
        Stage::Change => if mutation == Mutation::Up {
            Stage::Abandon
        } else {
            Stage::Close
        },
        Stage::Inspect => Stage::Abandon,
        Stage::ChooseUndo | Stage::AssertUndo => Stage::Close,
        Stage::Undo => Stage::ChooseUndo,
        Stage::Release => Stage::Done(Ending::Ran),
        Stage::Done(ending) => Stage::Done(ending),
    }
}

/// The stage that follows one that was carried out.
pub open spec fn after_success(s: SequenceV) -> Stage {
    match s.stage {
        Stage::Preview => if s.dry_run {
            Stage::Done(Ending::Previewed)
        } else if s.mutation == Mutation::Up {
            Stage::Lock
        } else {
            Stage::Agree
        },
        Stage::Agree => Stage::Lock,
        Stage::Lock => Stage::Plan,
        Stage::Plan => Stage::Open,
        Stage::Open => Stage::Choose,
        Stage::Choose => Stage::Assert,
        Stage::Assert => Stage::Change,
        Stage::Change => if s.mutation == Mutation::Prune {
            Stage::Close
        } else {
            Stage::Note
        },
        Stage::Note => if !s.stopped {
            Stage::Choose
        } else if s.mutation == Mutation::Up {
            Stage::Abandon
        } else {
            Stage::Close
        },
        Stage::Inspect => Stage::Close,
        Stage::Abandon => if s.keep_failed {
            Stage::Release
        } else {
            Stage::ChooseUndo
        },
        Stage::ChooseUndo => Stage::AssertUndo,
        Stage::AssertUndo => Stage::Undo,
        Stage::Undo => Stage::ChooseUndo,
        Stage::Close => Stage::Release,
        Stage::Release => Stage::Done(Ending::Ran),
        Stage::Done(ending) => Stage::Done(ending),
    }
}

/// The stage that follows one that had nothing to do.
pub open spec fn after_nothing(s: SequenceV) -> Stage {
    match s.stage {
        Stage::Preview => Stage::Done(Ending::Absent),
        Stage::Agree => Stage::Done(Ending::Declined),
        Stage::Choose => if s.mutation == Mutation::Up {
            Stage::Inspect
        } else {
            Stage::Close
        },
        Stage::ChooseUndo => Stage::Close,
        _ => after_success(s),
    }
}

/// The stage that follows.
pub open spec fn stage_after(s: SequenceV, event: EventV) -> Stage {
    match event {
        EventV::Done => after_success(s),
        EventV::Nothing => after_nothing(s),
        EventV::Changed(succeeded, cancelled) => if s.stage == Stage::Change && s.mutation == Mutation::Down
            && !succeeded {
            // What was not destroyed is left for a later attempt.
            if cancelled {
                Stage::Close
            } else {
                Stage::Choose
            }
        } else {
            after_success(s)
        },
        EventV::Failed(_, _) => after_failure(s.mutation, s.stage),
    }
}

/// Whether the failure of a stage is one of several that are reported together at the end.
pub open spec fn is_collected(mutation: Mutation, stage: Stage) -> bool {
    match stage {
        Stage::Assert | Stage::Change => mutation == Mutation::Down,
        Stage::ChooseUndo | Stage::AssertUndo | Stage::Undo | Stage::Done(_) => true,
        _ => false,
    }
}

/// What is reported where the lock could not be given back.
pub open spec fn unreleased(failure: Option<(CliErrorV, Seq<char>)>, error: CliErrorV) -> CliErrorV {
    match failure {
        Some((first, _)) => CliErrorV::Operation(
            error_text(first) + "; additionally failed to release the mutation lock: "@ + error_text(error),
        ),
        None => error,
    }
}

/// What is reported where the operator stopped an operation.
pub open spec fn cancellation() -> CliErrorV {
    CliErrorV::Operation("operation cancelled after the active plugin reached a safe stopping point"@)
}

/// The failure after a stage.
pub open spec fn failure_after(s: SequenceV, event: EventV) -> Option<(CliErrorV, Seq<char>)> {
    match event {
        EventV::Failed(error, reason) => if s.stage == Stage::Release {
            Some((unreleased(s.failure, error), reason))
        } else if is_collected(s.mutation, s.stage) {
            s.failure
        } else {
            Some((error, reason))
        },
        _ => if s.stage == Stage::Note && s.stopped && s.mutation == Mutation::Up {
            Some((cancellation(), error_text(cancellation())))
        } else {
            s.failure
        },
    }
}

/// The operation after a stage.
#[verifier::opaque]
pub open spec fn after(s: SequenceV, event: EventV) -> SequenceV {
    SequenceV {
        stage: stage_after(s, event),
        stopped: s.stopped || (s.stage == Stage::Change && (event matches EventV::Changed(_, cancelled)
            && cancelled)),
        failure: failure_after(s, event),
        ..s
    }
}

impl Event {
    /// The failure of a stage that the journal describes as it is presented.
    pub fn failed(error: CliError) -> (r: Event)
        ensures
            r@ == EventV::Failed(error@, error_text(error@)),
    {
        let reason = error.message();
        Event::Failed { error, reason }
    }

    /// What came of a stage that gives nothing but success or failure.
    pub fn of(outcome: Result<(), CliError>) -> (r: Event)
        ensures
            match outcome {
                Ok(()) => r@ == EventV::Done,
                Err(e) => r@ == EventV::Failed(e@, error_text(e@)),
            },
    {
        match outcome {
            Ok(()) => Event::Done,
            Err(e) => Event::failed(e),
        }
    }
}

/// Finds the stage that follows one that failed.
fn next_after_failure(mutation: Mutation, stage: Stage) -> (r: Stage)
    ensures
        r == after_failure(mutation, stage),
{
    match stage {
        Stage::Preview | Stage::Agree | Stage::Lock => Stage::Done(Ending::Barred),
        Stage::Plan | Stage::Open | Stage::Abandon | Stage::Close => Stage::Release,
        Stage::Choose | Stage::Note => match mutation {
            Mutation::Up => Stage::Abandon,
            Mutation::Down | Mutation::Prune => Stage::Release,
        },
        Stage::Assert => match mutation {
            Mutation::Up => Stage::Abandon,
            Mutation::Down => Stage::Close,
            Mutation::Prune => Stage::Release,
        },
        Stage::Change => match mutation {
            Mutation::Up => Stage::Abandon,
            Mutation::Down | Mutation::Prune => Stage::Close,
        },
        Stage::Inspect => Stage::Abandon,
        Stage::ChooseUndo | Stage::AssertUndo => Stage::Close,
        Stage::Undo => Stage::ChooseUndo,
        Stage::Release => Stage::Done(Ending::Ran),
        Stage::Done(ending) => Stage::Done(ending),
    }
}

impl Sequence {
    /// Begins an operation.
    pub fn start(mutation: Mutation, dry_run: bool, keep_failed: bool) -> (r: Sequence)
        ensures
            r@ == fresh(mutation, dry_run, keep_failed),
    {
        Sequence { mutation, dry_run, keep_failed, stage: Stage::Preview, stopped: false, failure: None }
    }

    /// What is to be done next.
    pub fn stage(&self) -> (r: Stage)
        ensures
            r == self@.stage,
    {
        self.stage
    }

    /// What the journal says of the failure.
    pub fn reason(&self) -> (r: Option<&str>)
        ensures
            match (r, self@.failure) {
                (Some(s), Some((_, reason))) => s@ == reason,
                (None, None) => true,
                _ => false,
            },
    {
        match &self.failure {
            Some((_, reason)) => Some(reason.as_str()),
            None => None,
        }
    }

    /// The outcome so far.
    pub fn outcome(self) -> (r: Result<(), CliError>)
        ensures
            match (r, self@.failure) {
                (Ok(()), None) => true,
                (Err(e), Some((error, _))) => e@ == error,
                _ => false,
            },
    {
        match self.failure {
            Some((error, _)) => Err(error),
            None => Ok(()),
        }
    }

    /// Finds the stage that follows one that was carried out.
    fn next_after_success(&self) -> (r: Stage)
        ensures
            r == after_success(self@),
    {
        match self.stage {
            Stage::Preview => if self.dry_run {
                Stage::Done(Ending::Previewed)
            } else if self.mutation == Mutation::Up {
                Stage::Lock
            } else {
                Stage::Agree
            },
            Stage::Agree => Stage::Lock,
            Stage::Lock => Stage::Plan,
            Stage::Plan => Stage::Open,
            Stage::Open => Stage::Choose,
            Stage::Choose => Stage::Assert,
            Stage::Assert => Stage::Change,
            Stage::Change => if self.mutation == Mutation::Prune {
                Stage::Close
            } else {
                Stage::Note
            },
            Stage::Note => if !self.stopped {
                Stage::Choose
            } else if self.mutation == Mutation::Up {
                Stage::Abandon
            } else {
                Stage::Close
            },
            Stage::Inspect => Stage::Close,
            Stage::Abandon => if self.keep_failed {
                Stage::Release
            } else {
                Stage::ChooseUndo
            },
            Stage::ChooseUndo => Stage::AssertUndo,
            Stage::AssertUndo => Stage::Undo,
            Stage::Undo => Stage::ChooseUndo,
            Stage::Close => Stage::Release,
            Stage::Release => Stage::Done(Ending::Ran),
            Stage::Done(ending) => Stage::Done(ending),
        }
    }

    /// Finds the stage that follows one that had nothing to do.
    fn next_after_nothing(&self) -> (r: Stage)
        ensures
            r == after_nothing(self@),
    {
        match self.stage {
            Stage::Preview => Stage::Done(Ending::Absent),
            Stage::Agree => Stage::Done(Ending::Declined),
            Stage::Choose => if self.mutation == Mutation::Up {
                Stage::Inspect
            } else {
                Stage::Close
            },
            Stage::ChooseUndo => Stage::Close,
            _ => self.next_after_success(),
        }
    }

    /// Takes note of a failure.
    fn fail(&mut self, error: CliError, reason: String)
        ensures
            final(self)@ == (SequenceV {
                failure: failure_after(old(self)@, EventV::Failed(error@, reason@)),
                ..old(self)@
            }),
    {
        let collected = match self.stage {
            Stage::Assert | Stage::Change => self.mutation == Mutation::Down,
            Stage::ChooseUndo | Stage::AssertUndo | Stage::Undo | Stage::Done(_) => true,
            _ => false,
        };
        if collected {
            return;
        }
        if self.stage == Stage::Release {
            let earlier: Result<(), CliError> = match self.failure.take() {
                Some((first, _)) => Err(first),
                None => Ok(()),
            };
            if let Err(both) = lock::finish_with_lock_release(earlier, Err(error)) {
                self.failure = Some((both, reason));
            }
        } else {
            self.failure = Some((error, reason));
        }
    }

    /// Goes on from the stage at hand.
    pub fn step(&mut self, event: Event)
        ensures
            final(self)@ == after(old(self)@, event@),
    {
        proof {
            reveal(after);
        }
        match event {
            Event::Done => {
                let stage = self.next_after_success();
                self.stop_if_asked();
                self.stage = stage;
            },
            Event::Nothing => {
                let stage = self.next_after_nothing();
                self.stop_if_asked();
                self.stage = stage;
            },
            Event::Changed { succeeded, cancelled } => {
                let destroys = self.stage == Stage::Change && self.mutation == Mutation::Down;
                let stage = if destroys && !succeeded {
                    if cancelled {
                        Stage::Close
                    } else {
                        Stage::Choose
                    }
                } else {
                    self.next_after_success()
                };
                self.stop_if_asked();
                self.stopped = self.stopped || (self.stage == Stage::Change && cancelled);
                self.stage = stage;
            },
            Event::Failed { error, reason } => {
                let stage = next_after_failure(self.mutation, self.stage);
                self.fail(error, reason);
                self.stage = stage;
            },
        }
    }

    /// Takes note that the operator stopped the operation, where its last change was saved.
    fn stop_if_asked(&mut self)
        ensures
            final(self)@ == (SequenceV {
                failure: failure_after(old(self)@, EventV::Done),
                ..old(self)@
            }),
    {
        if self.stage == Stage::Note && self.stopped && self.mutation == Mutation::Up {
            if let Err(error) = prepared::check_apply_cancellation(true) {
                let reason = error.message();
                self.failure = Some((error, reason));
            }
        }
    }
}

// ---------------------------------------------------------------------------
// What holds of every course of events
// ---------------------------------------------------------------------------

/// An operation after some events.
pub open spec fn reached(start: SequenceV, events: Seq<EventV>) -> SequenceV
    decreases events.len(),
{
    if events.len() == 0 {
        start
    } else {
        after(reached(start, events.drop_last()), events.last())
    }
}

/// Whether a stage was gone through.
pub open spec fn visited(start: SequenceV, events: Seq<EventV>, stage: Stage) -> bool {
    exists|i: int| 0 <= i < events.len() && (#[trigger] reached(start, events.take(i))).stage == stage
}

/// Whether a stage did what it is for.
pub open spec fn is_success(stage: Stage, event: EventV) -> bool {
    !(event is Failed) && !(stage == Stage::Agree && event is Nothing)
}

/// Whether a stage was carried out.
pub open spec fn carried_out(start: SequenceV, events: Seq<EventV>, stage: Stage) -> bool {
    exists|i: int|
        0 <= i < events.len() && (#[trigger] reached(start, events.take(i))).stage == stage
            && is_success(stage, events[i])
}

/// A stage of an operation that holds the lock.
pub open spec fn is_locked(stage: Stage) -> bool {
    match stage {
        Stage::Preview | Stage::Agree | Stage::Lock | Stage::Done(_) => false,
        _ => true,
    }
}

/// A stage of an operation that has a plan and has saved it.
pub open spec fn is_opened(stage: Stage) -> bool {
    match stage {
        Stage::Plan | Stage::Open | Stage::Release => false,
        _ => is_locked(stage),
    }
}

/// A stage of an operation that is undone.
pub open spec fn is_undone(stage: Stage) -> bool {
    stage == Stage::ChooseUndo || stage == Stage::AssertUndo || stage == Stage::Undo
}

/// What was done before a stage.
struct PastV {
    agreed: bool,
    locked: bool,
    planned: bool,
    opened: bool,
    inspected: bool,
    released: bool,
}

/// What was done in a course of events.
spec fn past(start: SequenceV, events: Seq<EventV>) -> PastV {
    PastV {
        agreed: carried_out(start, events, Stage::Agree),
        locked: carried_out(start, events, Stage::Lock),
        planned: carried_out(start, events, Stage::Plan),
        opened: carried_out(start, events, Stage::Open),
        inspected: carried_out(start, events, Stage::Inspect),
        released: visited(start, events, Stage::Release),
    }
}

/// What was done after one more event.
spec fn past_after(p: PastV, s: SequenceV, event: EventV) -> PastV {
    PastV {
        agreed: p.agreed || (s.stage == Stage::Agree && is_success(Stage::Agree, event)),
        locked: p.locked || (s.stage == Stage::Lock && is_success(Stage::Lock, event)),
        planned: p.planned || (s.stage == Stage::Plan && is_success(Stage::Plan, event)),
        opened: p.opened || (s.stage == Stage::Open && is_success(Stage::Open, event)),
        inspected: p.inspected || (s.stage == Stage::Inspect && is_success(Stage::Inspect, event)),
        released: p.released || s.stage == Stage::Release,
    }
}

/// What holds at every stage of what was done before.
spec fn is_in_order(s: SequenceV, p: PastV) -> bool {
    &&& s.stage != Stage::Preview && !(s.stage is Done) ==> !s.dry_run
    &&& is_locked(s.stage) ==> p.locked
    &&& !is_locked(s.stage) && !(s.stage is Done) ==> !p.locked
    &&& s.stage is Done && p.locked ==> p.released
    &&& !(s.stage is Done) ==> !p.released
    &&& s.mutation != Mutation::Up && (s.stage == Stage::Lock || is_locked(s.stage)) ==> p.agreed
    &&& s.stage == Stage::Open || is_opened(s.stage) ==> p.planned
    &&& is_opened(s.stage) ==> p.opened
    &&& is_undone(s.stage) ==> !s.keep_failed && s.failure is Some
    &&& is_undone(s.stage) || s.stage == Stage::Abandon || s.stage == Stage::Inspect ==> s.mutation
        == Mutation::Up
    &&& s.stage == Stage::Abandon ==> s.failure is Some
    &&& s.mutation == Mutation::Up && s.failure is None && (s.stage == Stage::Close || s.stage
        == Stage::Release || s.stage == Stage::Done(Ending::Ran)) ==> p.inspected
}

/// One more event keeps to the order.
proof fn lemma_stays_in_order(s: SequenceV, p: PastV, event: EventV)
    requires
        is_in_order(s, p),
    ensures
        is_in_order(after(s, event), past_after(p, s, event)),
{
    reveal(after);
}

/// What was gone through stays gone through.
proof fn lemma_history(start: SequenceV, events: Seq<EventV>, stage: Stage)
    requires
        events.len() > 0,
    ensures
        ({
            let fewer = events.drop_last();
            let s = reached(start, fewer);
            &&& visited(start, events, stage) == (visited(start, fewer, stage) || s.stage == stage)
            &&& carried_out(start, events, stage) == (carried_out(start, fewer, stage) || (s.stage == stage
                && is_success(stage, events.last())))
        }),
{
    let fewer = events.drop_last();
    let last = events.len() - 1;
    assert(events.take(last as int) =~= fewer);
    assert forall|i: int| 0 <= i < fewer.len() implies #[trigger] fewer.take(i) == events.take(i) by {
        assert(fewer.take(i) =~= events.take(i));
    }
    if visited(start, fewer, stage) {
        let i = choose|i: int|
            0 <= i < fewer.len() && (#[trigger] reached(start, fewer.take(i))).stage == stage;
        assert(fewer.take(i) == events.take(i));
        assert(reached(start, events.take(i)).stage == stage);
    }
    if carried_out(start, fewer, stage) {
        let i = choose|i: int|
            0 <= i < fewer.len() && (#[trigger] reached(start, fewer.take(i))).stage == stage
                && is_success(stage, fewer[i]);
        assert(fewer.take(i) == events.take(i));
        assert(reached(start, events.take(i)).stage == stage && events[i] == fewer[i]);
    }
    if visited(start, events, stage) {
        let i = choose|i: int|
            0 <= i < events.len() && (#[trigger] reached(start, events.take(i))).stage == stage;
        if i < last {
            assert(fewer.take(i) == events.take(i));
            assert(reached(start, fewer.take(i)).stage == stage);
        }
    }
    if carried_out(start, events, stage) {
        let i = choose|i: int|
            0 <= i < events.len() && (#[trigger] reached(start, events.take(i))).stage == stage
                && is_success(stage, events[i]);
        if i < last {
            assert(fewer.take(i) == events.take(i));
            assert(reached(start, fewer.take(i)).stage == stage && events[i] == fewer[i]);
        }
    }
    assert(reached(start, events.take(last as int)) == reached(start, fewer));
}

/// Every course of events keeps to the order.
proof fn lemma_in_order(start: SequenceV, events: Seq<EventV>)
    requires
        start == fresh(start.mutation, start.dry_run, start.keep_failed),
    ensures
        is_in_order(reached(start, events), past(start, events)),
        reached(start, events).mutation == start.mutation,
        reached(start, events).dry_run == start.dry_run,
        reached(start, events).keep_failed == start.keep_failed,
    decreases events.len(),
{
    if events.len() > 0 {
        let fewer = events.drop_last();
        lemma_in_order(start, fewer);
        lemma_stays_in_order(reached(start, fewer), past(start, fewer), events.last());
        lemma_history(start, events, Stage::Agree);
        lemma_history(start, events, Stage::Lock);
        lemma_history(start, events, Stage::Plan);
        lemma_history(start, events, Stage::Open);
        lemma_history(start, events, Stage::Inspect);
        lemma_history(start, events, Stage::Release);
        assert(past(start, events) == past_after(past(start, fewer), reached(start, fewer), events.last()));
        assert(reached(start, events).mutation == start.mutation) by {
            reveal(after);
        }
        assert(reached(start, events).dry_run == start.dry_run) by {
            reveal(after);
        }
        assert(reached(start, events).keep_failed == start.keep_failed) by {
            reveal(after);
        }
    }
}

/// Nothing is changed in a dry run, or without the lock, or but by a plan that was worked out
/// under the lock and saved. Nothing is destroyed that a person did not agree to. The lock was
/// confirmed right before the change.
pub proof fn changes_are_guarded(mutation: Mutation, dry_run: bool, keep_failed: bool, events: Seq<EventV>)
    requires
        reached(fresh(mutation, dry_run, keep_failed), events).stage == Stage::Change,
    ensures
        ({
            let start = fresh(mutation, dry_run, keep_failed);
            &&& !dry_run
            &&& carried_out(start, events, Stage::Lock)
            &&& carried_out(start, events, Stage::Plan)
            &&& carried_out(start, events, Stage::Open)
            &&& !visited(start, events, Stage::Release)
            &&& mutation != Mutation::Up ==> carried_out(start, events, Stage::Agree)
            &&& events.len() > 0
            &&& reached(start, events.drop_last()).stage == Stage::Assert
            &&& !(events.last() is Failed)
        }),
{
    reveal(after);
    lemma_in_order(fresh(mutation, dry_run, keep_failed), events);
}

/// Nothing is undone but what `up` did before it failed, where failed changes are not kept, and
/// under the lock, which was confirmed right before.
pub proof fn undoing_is_guarded(mutation: Mutation, dry_run: bool, keep_failed: bool, events: Seq<EventV>)
    requires
        reached(fresh(mutation, dry_run, keep_failed), events).stage == Stage::Undo,
    ensures
        ({
            let start = fresh(mutation, dry_run, keep_failed);
            &&& mutation == Mutation::Up
            &&& !keep_failed
            &&& reached(start, events).failure is Some
            &&& carried_out(start, events, Stage::Lock)
            &&& !visited(start, events, Stage::Release)
            &&& events.len() > 0
            &&& reached(start, events.drop_last()).stage == Stage::AssertUndo
            &&& !(events.last() is Failed)
        }),
{
    reveal(after);
    lemma_in_order(fresh(mutation, dry_run, keep_failed), events);
}

/// An operation that got the lock has gone through giving it back when it ends.
pub proof fn lock_is_given_back(mutation: Mutation, dry_run: bool, keep_failed: bool, events: Seq<EventV>)
    requires
        reached(fresh(mutation, dry_run, keep_failed), events).stage is Done,
        carried_out(fresh(mutation, dry_run, keep_failed), events, Stage::Lock),
    ensures
        visited(fresh(mutation, dry_run, keep_failed), events, Stage::Release),
{
    lemma_in_order(fresh(mutation, dry_run, keep_failed), events);
}

/// What `up` reports as a success was inspected.
pub proof fn success_is_inspected(dry_run: bool, keep_failed: bool, events: Seq<EventV>)
    requires
        reached(fresh(Mutation::Up, dry_run, keep_failed), events).stage == Stage::Done(Ending::Ran),
        reached(fresh(Mutation::Up, dry_run, keep_failed), events).failure is None,
    ensures
        carried_out(fresh(Mutation::Up, dry_run, keep_failed), events, Stage::Inspect),
{
    lemma_in_order(fresh(Mutation::Up, dry_run, keep_failed), events);
}

/// An operation that failed never ends in success.
pub proof fn failures_are_reported(start: SequenceV, events: Seq<EventV>, more: Seq<EventV>)
    requires
        reached(start, events).failure is Some,
    ensures
        reached(start, events + more).failure is Some,
    decreases more.len(),
{
    reveal(after);
    if more.len() == 0 {
        assert(events + more =~= events);
    } else {
        failures_are_reported(start, events, more.drop_last());
        assert((events + more).drop_last() =~= events + more.drop_last());
        assert((events + more).last() == more.last());
    }
}

/// A change that succeeded is saved before anything else is done, and one that was cancelled
/// is not followed by another.
pub proof fn changes_are_noted(s: SequenceV, cancelled: bool, saved: EventV)
    requires
        s.stage == Stage::Change,
        s.mutation != Mutation::Prune,
    ensures
        ({
            let noting = after(s, EventV::Changed(true, cancelled));
            &&& noting.stage == Stage::Note
            &&& cancelled ==> after(noting, saved).stage != Stage::Choose
        }),
{
    reveal(after);
}

} // verus!
