//! `up`: planning, applying in order, verifying, and undoing what failed.

use vstd::prelude::*;

use crate::config::Capability;
use crate::error::{error_text, CliError, CliErrorV};
use crate::journal::{self, JournalV, OperationJournal, OperationKind, OperationStatus};
use crate::models::{ContextV, PlanV};
use crate::prepared::{
    self, all_planned, applied_views, applied_with, journal_after_apply, prepared_views, started, AppliedCapability,
    AppliedV, ApplyAttempt, PreparedCapability, PreparedV, APPLY_ORDER,
};
use crate::protocol;
use crate::protocol::{
    ApplyRequest, DestroyRequest, DestroyResult, OperationContext, PluginManifest, ResourceStatus,
};
use crate::rollback;
use crate::rollback::{limits_of, undo_of, undo_state, LimitV, RollbackOperation};
use crate::rpc::ClientError;
use crate::text;
use crate::value;
use crate::value::{Data, DataV};
use crate::view::EnvironmentView;

verus! {

// ---------------------------------------------------------------------------
// Preparing
// ---------------------------------------------------------------------------

/// What is desired of an environment, with the file that holds its Compose model.
pub fn up_desired(desired: &Data, compose_path: &str) -> (r: Data)
    requires
        desired@ is Object,
    ensures
        r@ == DataV::Object(
            value::put(desired@->Object_0, "resolved_compose_path"@, DataV::Str(compose_path@)),
        ),
{
    broadcast use value::lemma_object_view;

    let mut entries = match desired.as_object() {
        Some(entries) => value::duplicate_entries(entries),
        None => Vec::new(),
    };
    value::put_entry(&mut entries, "resolved_compose_path", Data::text(compose_path));
    Data::Object(entries)
}

/// The capabilities of `up` while they are prepared, in the order in which they are applied.
/// The target comes first to hand, as the others are prepared from its state.
pub struct UpPlan {
    pub target: PreparedCapability,
    pub target_state: Data,
    pub prepared: Vec<PreparedCapability>,
}

impl UpPlan {
    /// What is prepared so far stands in the order in which it is applied, with the target in
    /// its place as soon as the order reaches it.
    pub open spec fn wf(self) -> bool {
        &&& self.prepared@.len() <= 6
        &&& self.target.capability == Capability::Target
        &&& self.target_state@ == prepared::state_or_empty(self.target@.current.state)
        &&& forall|i: int|
            0 <= i < self.prepared@.len() ==> (#[trigger] self.prepared@[i]).capability == APPLY_ORDER@[i]
        &&& self.prepared@.len() > 1 ==> self.prepared@[1]@ == self.target@
    }

    /// Begins with the target.
    pub fn new(target: PreparedCapability) -> (r: UpPlan)
        requires
            target.capability == Capability::Target,
        ensures
            r.wf(),
            r.target == target,
            r.prepared@.len() == 0,
    {
        let target_state = prepared::target_state_of(&target.current);
        UpPlan { target, target_state, prepared: Vec::new() }
    }

    /// The capability that is prepared next, if any is left.
    pub fn next(&self) -> (r: Option<Capability>)
        requires
            self.wf(),
        ensures
            r == if self.prepared@.len() < 6 && self.prepared@.len() != 1 {
                Some(APPLY_ORDER@[self.prepared@.len() as int])
            } else {
                None
            },
            r matches Some(c) ==> c != Capability::Target,
    {
        let order = APPLY_ORDER;
        if self.prepared.len() < 6 && self.prepared.len() != 1 {
            Some(order[self.prepared.len()])
        } else {
            None
        }
    }

    /// Takes a capability that was prepared, and the target after it where it is its turn.
    pub fn take(&mut self, item: PreparedCapability)
        requires
            old(self).wf(),
            old(self).prepared@.len() < 6,
            old(self).prepared@.len() != 1,
            item.capability == APPLY_ORDER@[old(self).prepared@.len() as int],
        ensures
            final(self).wf(),
            final(self).target == old(self).target,
            final(self).target_state == old(self).target_state,
            prepared_views(final(self).prepared@) == if old(self).prepared@.len() == 0 {
                prepared_views(old(self).prepared@).push(item@).push(old(self).target@)
            } else {
                prepared_views(old(self).prepared@).push(item@)
            },
    {
        let ghost before = self.prepared@;
        let ghost model = item@;
        self.prepared.push(item);
        if self.prepared.len() == 1 {
            self.prepared.push(self.target.duplicate());
            assert(prepared_views(self.prepared@) =~= prepared_views(before).push(model).push(self.target@));
        } else {
            assert(prepared_views(self.prepared@) =~= prepared_views(before).push(model));
        }
    }
}

/// Builders and runtimes are prepared and applied after the target they run on.
pub proof fn target_precedes_what_runs_on_it(i: int, j: int)
    requires
        0 <= i < 6,
        0 <= j < 6,
        APPLY_ORDER@[i] == Capability::Target,
        APPLY_ORDER@[j] == Capability::Builder || APPLY_ORDER@[j] == Capability::Runtime,
    ensures
        i < j,
{
}

// ---------------------------------------------------------------------------
// Applying
// ---------------------------------------------------------------------------

/// Whether any action of a plan destroys something.
pub open spec fn plan_destroys(plan: PlanV) -> bool {
    exists|k: int| 0 <= k < plan.actions.len() && (#[trigger] plan.actions[k]).destructive
}

/// Whether any action destroys something.
pub open spec fn destroys(items: Seq<PreparedV>) -> bool {
    exists|i: int| 0 <= i < items.len() && plan_destroys((#[trigger] items[i]).plan)
}

/// Tests whether any action destroys something.
pub fn is_destructive(items: &Vec<PreparedCapability>) -> (r: bool)
    ensures
        r == destroys(prepared_views(items@)),
{
    let ghost views = prepared_views(items@);
    let mut i: usize = 0;
    while i < items.len()
        invariant
            i <= items@.len(),
            views == prepared_views(items@),
            forall|k: int| 0 <= k < i ==> !plan_destroys((#[trigger] views[k]).plan),
        decreases items.len() - i,
    {
        let plan = &items[i].plan;
        let ghost actions = plan@.actions;
        let mut j: usize = 0;
        while j < plan.actions.len()
            invariant
                j <= plan.actions@.len(),
                i < items@.len(),
                *plan == items@[i as int].plan,
                views == prepared_views(items@),
                actions == plan@.actions,
                forall|k: int| 0 <= k < j ==> !(#[trigger] actions[k]).destructive,
            decreases plan.actions.len() - j,
        {
            assert(actions[j as int] == plan.actions@[j as int]@);
            if plan.actions[j].destructive {
                assert(plan_destroys(views[i as int].plan));
                return true;
            }
            j += 1;
        }
        assert(views[i as int].plan == plan@);
        i += 1;
    }
    false
}

/// The state of `up` while capabilities are applied.
pub struct UpRun {
    /// The locked plans, in order.
    pub items: Vec<PreparedCapability>,
    /// The capability whose turn it is.
    pub next: usize,
    /// Whether that capability is being applied.
    pub busy: bool,
    /// What was applied, or begun.
    pub applied: Vec<AppliedCapability>,
    /// What is known of the target.
    pub target_state: Data,
    pub journal: OperationJournal,
}

/// What an applied capability has in common with what was planned.
#[verifier::ext_equal]
pub struct BegunV {
    pub capability: Capability,
    pub plugin_id: Seq<char>,
    pub plan: PlanV,
}

/// What is begun when a capability is applied.
pub open spec fn begun(item: PreparedV) -> BegunV {
    BegunV { capability: item.capability, plugin_id: item.plugin_id, plan: item.plan }
}

/// What is begun by applying the first `n` capabilities: those that change something.
pub open spec fn changes(items: Seq<PreparedV>, n: int) -> Seq<BegunV>
    decreases n,
{
    if n <= 0 {
        Seq::empty()
    } else if items[n - 1].plan.has_changes {
        changes(items, n - 1).push(begun(items[n - 1]))
    } else {
        changes(items, n - 1)
    }
}

/// What was begun.
pub open spec fn begun_of(applied: Seq<AppliedV>) -> Seq<BegunV> {
    Seq::new(applied.len(), |i: int| begun(applied[i].prepared))
}

/// The first place from `i` on at which something changes, or the end.
pub open spec fn next_change(items: Seq<PreparedV>, i: int) -> int
    decreases items.len() - i,
{
    if i < 0 || i >= items.len() || items[i].plan.has_changes {
        i
    } else {
        next_change(items, i + 1)
    }
}

/// A context that tells the state of the target.
pub open spec fn with_target(context: ContextV, target: DataV) -> ContextV {
    ContextV {
        metadata: DataV::Object(value::put(context.metadata->Object_0, "target"@, target)),
        ..context
    }
}

/// A capability as it is applied: any but the target learns the state of the target.
pub open spec fn as_applied(item: PreparedV, target: DataV) -> PreparedV {
    if item.capability == Capability::Target {
        item
    } else {
        PreparedV { context: with_target(item.context, target), ..item }
    }
}

/// Sets a named value of a request's metadata.
fn set_metadata(context: &mut OperationContext, name: &str, v: Data)
    requires
        old(context)@.metadata is Object,
    ensures
        final(context)@ == (ContextV {
            metadata: DataV::Object(value::put(old(context)@.metadata->Object_0, name@, v@)),
            ..old(context)@
        }),
        final(context).secrets == old(context).secrets,
{
    broadcast use value::lemma_object_view;

    let mut entries = match context.metadata.as_object() {
        Some(entries) => value::duplicate_entries(entries),
        None => Vec::new(),
    };
    value::put_entry(&mut entries, name, v);
    context.metadata = Data::Object(entries);
}

/// The journal of `up` when applying begins.
pub open spec fn up_journal(environment_id: Seq<char>, operation_id: Seq<u8>, items: Seq<PreparedV>) -> JournalV {
    JournalV {
        actions: all_planned(items),
        status: OperationStatus::Applying,
        ..journal::fresh_journal(environment_id, OperationKind::Up, operation_id)
    }
}

/// How `up` ends.
pub enum UpEnd {
    /// The environment is ready.
    Done(EnvironmentView),
    /// It is not: what was begun is undone, for this reason.
    Failed { error: CliError, message: String },
}

/// The name of a status in messages.
pub open spec fn status_name(status: ResourceStatus) -> Seq<char> {
    match status {
        ResourceStatus::Absent => "Absent"@,
        ResourceStatus::Pending => "Pending"@,
        ResourceStatus::Ready => "Ready"@,
        ResourceStatus::Degraded => "Degraded"@,
        ResourceStatus::Destroying => "Destroying"@,
        ResourceStatus::Unknown => "Unknown"@,
    }
}

/// The name of a status in messages.
pub fn name_status(status: ResourceStatus) -> (r: &'static str)
    ensures
        r@ == status_name(status),
{
    match status {
        ResourceStatus::Absent => "Absent",
        ResourceStatus::Pending => "Pending",
        ResourceStatus::Ready => "Ready",
        ResourceStatus::Degraded => "Degraded",
        ResourceStatus::Destroying => "Destroying",
        ResourceStatus::Unknown => "Unknown",
    }
}

impl UpRun {
    /// Everything that changes before the current place was begun, in order, and nothing
    /// else; while a capability is being applied, it is begun too.
    pub open spec fn wf(self) -> bool {
        let items = prepared_views(self.items@);
        &&& self.next <= self.items@.len()
        &&& forall|i: int| 0 <= i < items.len() ==> (#[trigger] items[i]).context.metadata is Object
        &&& begun_of(applied_views(self.applied@)) == changes(
            items,
            self.next + if self.busy {
                1int
            } else {
                0int
            },
        )
        &&& self.busy ==> self.next < self.items@.len() && items[self.next as int].plan.has_changes
    }

    /// Begins to apply locked plans. A plan that destroys something is refused.
    pub fn start(
        items: Vec<PreparedCapability>,
        target_state: Data,
        environment_id: &str,
        operation_id: [u8; 16],
    ) -> (r: Result<UpRun, CliError>)
        requires
            forall|i: int| 0 <= i < items@.len() ==> (#[trigger] items@[i])@.context.metadata is Object,
        ensures
            match r {
                Ok(run) => {
                    &&& !destroys(prepared_views(items@))
                    &&& run.wf()
                    &&& run.items == items
                    &&& run.next == 0
                    &&& !run.busy
                    &&& run.applied@.len() == 0
                    &&& run.target_state == target_state
                    &&& run.journal@ == up_journal(environment_id@, operation_id@, prepared_views(items@))
                },
                Err(e) => destroys(prepared_views(items@)) && e@ == CliErrorV::Operation(
                    "`up` refused a destructive provider plan; inspect `up --dry-run`, then use `down` explicitly before recreating the environment"@,
                ),
            },
    {
        if is_destructive(&items) {
            return Err(
                CliError::Operation(
                    "`up` refused a destructive provider plan; inspect `up --dry-run`, then use `down` explicitly before recreating the environment".to_owned(),
                ),
            );
        }
        let mut journal = OperationJournal::of_operation(environment_id, OperationKind::Up, operation_id);
        prepared::record_planned_actions(&mut journal, &items);
        assert(Seq::<journal::RecordV>::empty() + all_planned(prepared_views(items@)) =~= all_planned(
            prepared_views(items@),
        ));
        journal.status = OperationStatus::Applying;
        let applied: Vec<AppliedCapability> = Vec::new();
        assert(begun_of(applied_views(applied@)) =~= Seq::<BegunV>::empty());
        Ok(UpRun { items, next: 0, busy: false, applied, target_state, journal })
    }

    /// Goes on to the next capability that changes something; `false` at the end.
    pub fn advance(&mut self) -> (r: bool)
        requires
            old(self).wf(),
            !old(self).busy,
        ensures
            final(self).wf(),
            final(self).next == next_change(prepared_views(old(self).items@), old(self).next as int),
            r == (final(self).next < final(self).items@.len()),
            r ==> final(self).items@[final(self).next as int].plan.has_changes,
            final(self).items == old(self).items,
            final(self).applied == old(self).applied,
            final(self).target_state == old(self).target_state,
            final(self).journal == old(self).journal,
            !final(self).busy,
    {
        let ghost items = prepared_views(self.items@);
        let ghost from = self.next as int;
        while self.next < self.items.len() && !self.items[self.next].plan.has_changes
            invariant
                self.wf(),
                !self.busy,
                items == prepared_views(self.items@),
                self.items == old(self).items,
                self.applied == old(self).applied,
                self.target_state == old(self).target_state,
                self.journal == old(self).journal,
                next_change(items, from) == next_change(items, self.next as int),
            decreases self.items.len() - self.next,
        {
            assert(items[self.next as int] == self.items@[self.next as int]@);
            self.next = self.next + 1;
        }
        if self.next < self.items.len() {
            assert(items[self.next as int] == self.items@[self.next as int]@);
        }
        self.next < self.items.len()
    }

    /// Begins to apply the current capability. It is taken note of before it is applied: a
    /// plugin can fail after it created part of its resources, and must be able to clean up.
    pub fn begin(&mut self) -> (r: ApplyRequest)
        requires
            old(self).wf(),
            !old(self).busy,
            old(self).next < old(self).items@.len(),
            old(self).items@[old(self).next as int].plan.has_changes,
        ensures
            final(self).wf(),
            final(self).busy,
            final(self).items == old(self).items,
            final(self).next == old(self).next,
            final(self).target_state == old(self).target_state,
            final(self).journal == old(self).journal,
            ({
                let item = as_applied(
                    prepared_views(old(self).items@)[old(self).next as int],
                    old(self).target_state@,
                );
                &&& applied_views(final(self).applied@) == applied_views(old(self).applied@).push(started(item))
                &&& r.context@ == item.context
                &&& r.plan@ == item.plan
                &&& r.journal@.len() == 0
            }),
            asks_to_apply(r, prepared_views(old(self).items@)[old(self).next as int], old(self).target_state@),
    {
        let ghost items = prepared_views(self.items@);
        let ghost before = self.applied@;
        assert(items[self.next as int] == self.items@[self.next as int]@);
        let mut item = self.items[self.next].duplicate();
        if item.capability != Capability::Target {
            set_metadata(&mut item.context, "target", self.target_state.duplicate());
        }
        let context = item.context.duplicate();
        let plan = item.plan.duplicate();
        let ghost model = item@;
        assert(model == as_applied(items[self.next as int], self.target_state@));
        let entry = AppliedCapability::new(item);
        self.applied.push(entry);
        self.busy = true;
        proof {
            assert(applied_views(self.applied@) =~= applied_views(before).push(started(model)));
            assert(begun_of(applied_views(self.applied@)) =~= begun_of(applied_views(before)).push(
                begun(items[self.next as int]),
            ));
        }
        ApplyRequest { context, plan, journal: Vec::new() }
    }

    /// Takes note of an attempt. The returned flag says whether the operator asked to stop.
    pub fn record(&mut self, attempt: ApplyAttempt) -> (r: Result<bool, CliError>)
        requires
            old(self).wf(),
            old(self).busy,
        ensures
            match (attempt.result, r) {
                (Ok(result), Ok(cancelled)) => {
                    let last = (old(self).applied@.len() - 1) as int;
                    let item = applied_views(old(self).applied@)[last];
                    &&& cancelled == attempt.cancelled
                    &&& final(self).wf()
                    &&& !final(self).busy
                    &&& final(self).next == old(self).next + 1
                    &&& final(self).items == old(self).items
                    &&& applied_views(final(self).applied@) == applied_views(old(self).applied@).update(
                        last,
                        applied_with(item, result@),
                    )
                    &&& final(self).journal@ == journal_after_apply(
                        old(self).journal@,
                        item.prepared,
                        result@,
                    )
                    &&& final(self).target_state@ == if item.prepared.capability == Capability::Target {
                        result@.state
                    } else {
                        old(self).target_state@
                    }
                },
                (Err(a), Err(b)) => a == b && *final(self) == *old(self),
                _ => false,
            },
    {
        let ghost items = prepared_views(self.items@);
        let ghost before = applied_views(self.applied@);
        proof {
            assert(begun_of(before).len() == before.len());
            assert(changes(items, self.next + 1).len() > 0);
        }
        let count: usize = self.items.len();
        let last: usize = self.applied.len() - 1;
        let result = attempt.result?;
        let capability = self.applied[last].prepared.capability;
        let cancelled = attempt.cancelled;
        let mut entry = match self.applied.pop() {
            Some(entry) => entry,
            None => {
                assert(false);
                return Ok(cancelled);
            },
        };
        let ghost item = entry@;
        assert(before[last as int] == item);
        let again = ApplyAttempt { result: Ok(result), cancelled };
        let (result, cancelled) = match prepared::record_apply_attempt(&mut entry, &mut self.journal, again) {
            Ok(pair) => pair,
            Err(error) => {
                assert(false);
                return Err(error);
            },
        };
        self.applied.push(entry);
        if capability == Capability::Target {
            self.target_state = result.state.duplicate();
        }
        self.busy = false;
        self.next = if self.next < count {
            self.next + 1
        } else {
            count
        };
        proof {
            assert(applied_views(self.applied@) =~= before.update(last as int, applied_with(item, result@)));
            assert(begun_of(applied_views(self.applied@)) =~= begun_of(before));
        }
        Ok(cancelled)
    }

    /// Everything is applied: what was made is looked at.
    pub fn verify(&mut self)
        ensures
            final(self).journal@ == (JournalV { status: OperationStatus::Verifying, ..old(self).journal@ }),
            final(self).items == old(self).items,
            final(self).next == old(self).next,
            final(self).busy == old(self).busy,
            final(self).applied == old(self).applied,
            final(self).target_state == old(self).target_state,
    {
        self.journal.status = OperationStatus::Verifying;
    }

    /// Decides how `up` ends: only an environment that is ready is a success.
    pub fn conclude(&mut self, outcome: Result<EnvironmentView, CliError>) -> (r: UpEnd)
        ensures
            final(self).items == old(self).items,
            final(self).next == old(self).next,
            final(self).busy == old(self).busy,
            final(self).applied == old(self).applied,
            final(self).target_state == old(self).target_state,
            match (outcome, r) {
                (Ok(environment), UpEnd::Done(shown)) => environment.status == ResourceStatus::Ready && shown
                    == environment && final(self).journal@ == (JournalV {
                    status: OperationStatus::Succeeded,
                    error: None,
                    ..old(self).journal@
                }),
                (Ok(environment), UpEnd::Failed { error, message }) => {
                    &&& environment.status != ResourceStatus::Ready
                    &&& message@ == "environment readiness ended in state "@ + status_name(environment.status)
                    &&& error@ == CliErrorV::Operation(message@)
                    &&& final(self).journal == old(self).journal
                },
                (Err(e), UpEnd::Failed { error, message }) => error == e && message@ == error_text(e@)
                    && final(self).journal == old(self).journal,
                _ => false,
            },
            concludes(
                match outcome {
                    Ok(environment) => Some(environment.status),
                    Err(_) => None,
                },
                r is Done,
                old(self).journal@,
                final(self).journal@,
            ),
    {
        match outcome {
            Ok(environment) => {
                if environment.status == ResourceStatus::Ready {
                    self.journal.status = OperationStatus::Succeeded;
                    self.journal.error = None;
                    UpEnd::Done(environment)
                } else {
                    let message = text::cat2(
                        "environment readiness ended in state ",
                        name_status(environment.status),
                    );
                    UpEnd::Failed { error: CliError::Operation(message.clone()), message }
                }
            },
            Err(error) => {
                let message = error.message();
                UpEnd::Failed { error, message }
            },
        }
    }
}

// ---------------------------------------------------------------------------
// Undoing
// ---------------------------------------------------------------------------

/// The line that reports an action which cannot be undone.
pub open spec fn limit_line(plugin_id: Seq<char>, limit: LimitV) -> Seq<char> {
    plugin_id + ": action `"@ + limit.action_id + "` ("@ + limit.kind + ") cannot be automatically rolled back: "@
        + limit.reason
}

/// The lines that report what cannot be undone of a capability.
pub open spec fn limit_lines(item: AppliedV) -> Seq<Seq<char>> {
    Seq::new(limits_of(item).len(), |i: int| limit_line(item.prepared.plugin_id, limits_of(item)[i]))
}

/// Going back over the first `n` applied capabilities: the failures so far, how many are
/// left, and what is undone next.
pub open spec fn go_back(applied: Seq<AppliedV>, n: int, failures: Seq<Seq<char>>) -> (
    Seq<Seq<char>>,
    int,
    Option<RollbackOperation>,
)
    decreases n,
{
    if n <= 0 {
        (failures, 0, None)
    } else {
        let item = applied[n - 1];
        let reported = failures + limit_lines(item);
        match undo_of(item) {
            Some(operation) => (reported, n - 1, Some(operation)),
            None => go_back(applied, n - 1, reported),
        }
    }
}

/// Begins to undo a failed operation, unless what failed is kept.
pub fn begin_rollback(journal: &mut OperationJournal, error: &str, keep_failed: bool) -> (r: bool)
    ensures
        r == !keep_failed,
        final(journal)@ == (JournalV {
            error: Some(error@),
            status: if keep_failed {
                OperationStatus::Failed
            } else {
                OperationStatus::RollingBack
            },
            ..old(journal)@
        }),
{
    journal.error = Some(error.to_owned());
    journal.status = if keep_failed {
        OperationStatus::Failed
    } else {
        OperationStatus::RollingBack
    };
    !keep_failed
}

/// The state of undoing a failed operation.
pub struct RollbackRun {
    /// How many applied capabilities are left, from the first on.
    pub left: usize,
    /// What could not be undone.
    pub failures: Vec<String>,
}

/// What is undone next.
#[derive(Clone, Copy, Debug, PartialEq, Eq)]
pub struct RollbackTask {
    /// The place of the applied capability.
    pub index: usize,
    pub operation: RollbackOperation,
}

impl RollbackRun {
    /// Begins with the capability that was applied last.
    pub fn new(applied: &Vec<AppliedCapability>) -> (r: RollbackRun)
        ensures
            r.left == applied@.len(),
            text::texts(r.failures@) == Seq::<Seq<char>>::empty(),
    {
        let failures: Vec<String> = Vec::new();
        assert(text::texts(failures@) =~= Seq::<Seq<char>>::empty());
        RollbackRun { left: applied.len(), failures }
    }

    /// Goes back to the next capability that can be undone, and reports what cannot.
    pub fn next(&mut self, applied: &Vec<AppliedCapability>) -> (r: Option<RollbackTask>)
        requires
            old(self).left <= applied@.len(),
        ensures
            ({
                let (failures, left, operation) = go_back(
                    applied_views(applied@),
                    old(self).left as int,
                    text::texts(old(self).failures@),
                );
                &&& text::texts(final(self).failures@) == failures
                &&& final(self).left == left
                &&& match (r, operation) {
                    (Some(task), Some(op)) => task.index == left && task.operation == op && left
                        < applied@.len(),
                    (None, None) => true,
                    _ => false,
                }
            }),
    {
        let ghost views = applied_views(applied@);
        let ghost goal = go_back(views, self.left as int, text::texts(self.failures@));
        while self.left > 0
            invariant
                self.left <= applied@.len(),
                views == applied_views(applied@),
                goal == go_back(views, old(self).left as int, text::texts(old(self).failures@)),
                goal == go_back(views, self.left as int, text::texts(self.failures@)),
            decreases self.left,
        {
            let index: usize = self.left - 1;
            let item = &applied[index];
            assert(views[index as int] == item@);
            let classification = rollback::classify_rollback(item);
            self.report(item.prepared.plugin_id.as_str(), &classification.unsupported, Ghost(item@));
            self.left = index;
            if let Some(operation) = classification.operation {
                return Some(RollbackTask { index, operation });
            }
        }
        None
    }

    /// Reports what cannot be undone of a capability.
    fn report(&mut self, plugin_id: &str, limits: &Vec<rollback::UnsupportedRollback>, Ghost(item): Ghost<AppliedV>)
        requires
            plugin_id@ == item.prepared.plugin_id,
            rollback::limit_views(limits@) == limits_of(item),
        ensures
            text::texts(final(self).failures@) == text::texts(old(self).failures@) + limit_lines(item),
            final(self).left == old(self).left,
    {
        let ghost before = text::texts(self.failures@);
        let ghost all = limit_lines(item);
        let ghost views = rollback::limit_views(limits@);
        let mut i: usize = 0;
        assert(views.len() == limits@.len());
        assert(before + all.take(0) =~= before);
        while i < limits.len()
            invariant
                i <= limits@.len(),
                views == rollback::limit_views(limits@),
                views == limits_of(item),
                plugin_id@ == item.prepared.plugin_id,
                all == limit_lines(item),
                self.left == old(self).left,
                text::texts(self.failures@) == before + all.take(i as int),
            decreases limits.len() - i,
        {
            let limit = &limits[i];
            assert(views[i as int] == limit@);
            let head = text::cat5(
                plugin_id,
                ": action `",
                limit.action_id.as_str(),
                "` (",
                limit.kind.as_str(),
            );
            let line = text::cat3(
                head.as_str(),
                ") cannot be automatically rolled back: ",
                limit.reason.as_str(),
            );
            self.fail(line);
            assert(before + all.take(i + 1) =~= (before + all.take(i as int)).push(all[i as int]));
            i += 1;
        }
        assert(all.take(all.len() as int) =~= all);
    }

    /// Adds a failure.
    fn fail(&mut self, line: String)
        ensures
            text::texts(final(self).failures@) == text::texts(old(self).failures@).push(line@),
            final(self).left == old(self).left,
    {
        let ghost before = self.failures@;
        self.failures.push(line);
        assert(text::texts(self.failures@) =~= text::texts(before).push(line@));
    }

    /// The plugin of a capability is not there: the others are still undone.
    pub fn unavailable(&mut self, plugin_id: &str, failure: &CliError)
        ensures
            text::texts(final(self).failures@) == text::texts(old(self).failures@).push(
                plugin_id@ + ": "@ + error_text(failure@),
            ),
            final(self).left == old(self).left,
    {
        self.fail(text::cat3(plugin_id, ": ", failure.message().as_str()));
    }

    /// The lock is lost: nothing more is undone.
    pub fn lock_lost(&mut self, plugin_id: &str, failure: &CliError)
        ensures
            text::texts(final(self).failures@) == text::texts(old(self).failures@).push(
                plugin_id@ + ": "@ + error_text(failure@),
            ),
            final(self).left == 0,
    {
        self.fail(text::cat3(plugin_id, ": ", failure.message().as_str()));
        self.left = 0;
    }

    /// Takes note of what undoing a capability gave.
    pub fn undone(&mut self, plugin_id: &str, outcome: Result<DestroyResult, ClientError>)
        ensures
            final(self).left == old(self).left,
            text::texts(final(self).failures@) == match undo_failure(plugin_id@, outcome) {
                Some(line) => text::texts(old(self).failures@).push(line),
                None => text::texts(old(self).failures@),
            },
    {
        match outcome {
            Ok(result) => {
                assert(text::texts(result.remaining@).len() == result.remaining@.len());
                if result.remaining.len() > 0 {
                    let remaining = text::join(&result.remaining, ", ");
                    self.fail(text::cat3(plugin_id, ": rollback left resources: ", remaining.as_str()));
                } else if !result.destroyed {
                    self.fail(text::cat2(plugin_id, ": rollback did not report completion"));
                }
            },
            Err(failure) => {
                self.fail(text::cat3(plugin_id, ": ", failure.message().as_str()));
            },
        }
    }

    /// Ends undoing: a failure says everything that could not be undone.
    pub fn finish(self, journal: &mut OperationJournal, error: &str) -> (r: Result<(), CliError>)
        ensures
            match r {
                Ok(()) => self.failures@.len() == 0 && final(journal)@ == (JournalV {
                    status: OperationStatus::Failed,
                    ..old(journal)@
                }),
                Err(e) => {
                    let combined = error@ + "; rollback incomplete: "@ + text::joined(
                        text::texts(self.failures@),
                        "; "@,
                    );
                    &&& self.failures@.len() > 0
                    &&& e@ == CliErrorV::Operation(combined)
                    &&& final(journal)@ == (JournalV {
                        status: OperationStatus::Failed,
                        error: Some(combined),
                        ..old(journal)@
                    })
                },
            },
    {
        journal.status = OperationStatus::Failed;
        if self.failures.len() == 0 {
            return Ok(());
        }
        let combined = text::cat3(
            error,
            "; rollback incomplete: ",
            text::join(&self.failures, "; ").as_str(),
        );
        journal.error = Some(combined.clone());
        Err(CliError::Operation(combined))
    }
}

/// What undoing a capability left undone.
pub open spec fn undo_failure(plugin_id: Seq<char>, outcome: Result<DestroyResult, ClientError>) -> Option<
    Seq<char>,
> {
    match outcome {
        Ok(result) => if result.remaining@.len() > 0 {
            Some(
                plugin_id + ": rollback left resources: "@ + text::joined(
                    text::texts(result.remaining@),
                    ", "@,
                ),
            )
        } else if !result.destroyed {
            Some(plugin_id + ": rollback did not report completion"@)
        } else {
            None
        },
        Err(failure) => Some(plugin_id + ": "@ + failure.text()),
    }
}

/// What is known of the desired state that a plan was made for.
pub open spec fn planned_desired(plan: PlanV) -> DataV {
    match value::field(plan.metadata, "desired"@) {
        Some(v) => v,
        None => DataV::Object(Seq::empty()),
    }
}

/// The context in which a capability is undone. A rollback is told what was desired; a cleanup
/// sees the secrets alone that the plugin declares by name.
pub open spec fn undo_context(
    item: PreparedV,
    operation: RollbackOperation,
    manifest: PluginManifest,
    target: DataV,
) -> ContextV {
    let metadata = item.context.metadata->Object_0;
    let told = if operation == RollbackOperation::Rollback {
        value::put(metadata, "rollback_desired"@, planned_desired(item.plan))
    } else {
        metadata
    };
    ContextV {
        secrets: if operation == RollbackOperation::Cleanup {
            rollback::exact_secrets(manifest.required_secrets@, item.context.secrets)
        } else {
            item.context.secrets
        },
        metadata: DataV::Object(
            value::put(
                value::put(told, "operation"@, DataV::Str(operation.name())),
                "target"@,
                target,
            ),
        ),
        ..item.context
    }
}

/// The request that undoes a capability.
pub fn rollback_request(
    item: &AppliedCapability,
    operation: RollbackOperation,
    manifest: &PluginManifest,
    target_state: &Data,
) -> (r: DestroyRequest)
    requires
        item@.prepared.context.metadata is Object,
    ensures
        r.context@ == undo_context(item@.prepared, operation, *manifest, target_state@),
        prepared::option_data(r.current) == Some(undo_state(item@, operation)),
        !r.force,
        protocol::journal_views(r.journal@) == item@.journal,
{
    let mut context = item.prepared.context.duplicate();
    if operation == RollbackOperation::Rollback {
        let desired = match item.prepared.plan.metadata.get("desired") {
            Some(v) => v.duplicate(),
            None => Data::object(),
        };
        set_metadata(&mut context, "rollback_desired", desired);
    } else {
        rollback::scope_rollback_cleanup_secrets(manifest, &mut context.secrets);
    }
    set_metadata(&mut context, "operation", Data::text(operation.context_name()));
    set_metadata(&mut context, "target", target_state.duplicate());
    DestroyRequest {
        context,
        current: Some(rollback::rollback_current_state(item, operation)),
        force: false,
        journal: protocol::duplicate_journal(&item.journal),
    }
}

/// Undoing goes back from the last capability to the first: what is undone next was applied
/// before everything that was undone so far.
pub proof fn undoing_goes_backwards(applied: Seq<AppliedV>, n: int, failures: Seq<Seq<char>>)
    requires
        0 <= n <= applied.len(),
    ensures
        0 <= go_back(applied, n, failures).1 <= n,
        go_back(applied, n, failures).2 is Some ==> go_back(applied, n, failures).1 < n && undo_of(
            applied[go_back(applied, n, failures).1],
        ) == go_back(applied, n, failures).2,
        forall|k: int|
            go_back(applied, n, failures).1 < k < n ==> undo_of(#[trigger] applied[k]) is None,
    decreases n,
{
    if n > 0 && undo_of(applied[n - 1]) is None {
        undoing_goes_backwards(applied, n - 1, failures + limit_lines(applied[n - 1]));
        let at = go_back(applied, n, failures).1;
        assert forall|k: int| at < k < n implies undo_of(#[trigger] applied[k]) is None by {
            if k < n - 1 {
                assert(undo_of(applied[k]) is None);
            }
        }
    }
}

/// The lines on what cannot be undone of the capabilities from `n` back to `m`.
pub open spec fn reported(applied: Seq<AppliedV>, n: int, m: int) -> Seq<Seq<char>>
    decreases n,
{
    if n <= m || n <= 0 {
        Seq::empty()
    } else {
        limit_lines(applied[n - 1]) + reported(applied, n - 1, m)
    }
}

/// Nothing that cannot be undone is passed over in silence: going back reports every such
/// action of every capability that it comes by, and nothing else.
pub proof fn limits_are_reported(applied: Seq<AppliedV>, n: int, failures: Seq<Seq<char>>)
    requires
        0 <= n <= applied.len(),
    ensures
        go_back(applied, n, failures).0 == failures + reported(
            applied,
            n,
            go_back(applied, n, failures).1,
        ),
    decreases n,
{
    undoing_goes_backwards(applied, n, failures);
    let left = go_back(applied, n, failures).1;
    if n <= 0 {
        assert(failures + Seq::<Seq<char>>::empty() =~= failures);
    } else {
        let lines = limit_lines(applied[n - 1]);
        if undo_of(applied[n - 1]) is Some {
            assert(reported(applied, n - 1, left) =~= Seq::<Seq<char>>::empty());
            assert(lines + Seq::<Seq<char>>::empty() =~= lines);
        } else {
            undoing_goes_backwards(applied, n - 1, failures + lines);
            limits_are_reported(applied, n - 1, failures + lines);
            assert((failures + lines) + reported(applied, n - 1, left) =~= failures + (lines + reported(
                applied,
                n - 1,
                left,
            )));
        }
    }
}

/// What sets one name of some metadata.
proof fn lemma_metadata(metadata: Seq<(Seq<char>, DataV)>, name: Seq<char>, v: DataV, other: Seq<char>)
    ensures
        value::lookup(value::put(metadata, name, v), name) == Some(v),
        other != name ==> value::lookup(value::put(metadata, name, v), other) == value::lookup(metadata, other),
{
    value::lemma_put_found(metadata, name, v);
    if other != name {
        value::lemma_put_kept(metadata, name, v, other);
    }
}

/// A plugin that undoes a change is told whether it rolls back or cleans up, on which target, and
/// for a rollback what its plan was made for. It is told everything else as when it applied.
pub proof fn undoing_is_told_what_was_planned(
    item: PreparedV,
    operation: RollbackOperation,
    manifest: PluginManifest,
    target: DataV,
    other: Seq<char>,
)
    requires
        item.context.metadata is Object,
    ensures
        ({
            let told = undo_context(item, operation, manifest, target);
            &&& value::field(told.metadata, "operation"@) == match operation {
                RollbackOperation::Rollback => Some(DataV::Str("rollback"@)),
                RollbackOperation::Cleanup => Some(DataV::Str("rollback_cleanup"@)),
            }
            &&& value::field(told.metadata, "target"@) == Some(target)
            &&& operation == RollbackOperation::Rollback ==> value::field(told.metadata, "rollback_desired"@)
                == match value::field(item.plan.metadata, "desired"@) {
                Some(desired) => Some(desired),
                None => Some(DataV::Object(Seq::empty())),
            }
            &&& operation == RollbackOperation::Cleanup ==> value::field(told.metadata, "rollback_desired"@)
                == value::field(item.context.metadata, "rollback_desired"@)
            &&& other != "operation"@ && other != "target"@ && other != "rollback_desired"@ ==> value::field(
                told.metadata,
                other,
            ) == value::field(item.context.metadata, other)
            &&& operation == RollbackOperation::Rollback ==> told.secrets == item.context.secrets
            &&& told.operation_id == item.context.operation_id
            &&& told.environment_id == item.context.environment_id
            &&& told.profile == item.context.profile
            &&& told.project_root == item.context.project_root
            &&& told.config == item.context.config
        }),
{
    reveal_strlit("operation");
    reveal_strlit("target");
    reveal_strlit("rollback_desired");
    assert("operation"@.len() == 9 && "target"@.len() == 6 && "rollback_desired"@.len() == 16);
    let metadata = item.context.metadata->Object_0;
    let desired = planned_desired(item.plan);
    let told = if operation == RollbackOperation::Rollback {
        value::put(metadata, "rollback_desired"@, desired)
    } else {
        metadata
    };
    let named = DataV::Str(operation.name());
    let next = value::put(told, "operation"@, named);
    lemma_metadata(metadata, "rollback_desired"@, desired, other);
    lemma_metadata(told, "operation"@, named, "rollback_desired"@);
    lemma_metadata(told, "operation"@, named, other);
    lemma_metadata(next, "target"@, target, "operation"@);
    lemma_metadata(next, "target"@, target, "rollback_desired"@);
    lemma_metadata(next, "target"@, target, other);
}

/// Undoing a change counts as done exactly where the plugin reports that it is done and that
/// nothing is left.
pub proof fn undoing_counts_only_when_nothing_is_left(
    plugin_id: Seq<char>,
    outcome: Result<DestroyResult, ClientError>,
)
    ensures
        undo_failure(plugin_id, outcome) is None <==> (outcome matches Ok(result) && result.destroyed
            && result.remaining@.len() == 0),
        undo_failure(plugin_id, outcome) matches Some(line) ==> text::has_prefix(line, plugin_id),
{
    if let Some(line) = undo_failure(plugin_id, outcome) {
        assert(line.subrange(0, plugin_id.len() as int) =~= plugin_id);
    }
}

/// What runs on a target is applied with the state that the target has by then, and everything
/// else of its request is what was planned. The target's own request is the planned one.
pub proof fn changes_are_applied_to_the_target(item: PreparedV, target: DataV, other: Seq<char>)
    requires
        item.context.metadata is Object,
    ensures
        as_applied(item, target).plan == item.plan,
        as_applied(item, target).plugin_id == item.plugin_id,
        as_applied(item, target).capability == item.capability,
        as_applied(item, target).context.secrets == item.context.secrets,
        as_applied(item, target).context.config == item.context.config,
        as_applied(item, target).context.environment_id == item.context.environment_id,
        as_applied(item, target).context.operation_id == item.context.operation_id,
        item.capability == Capability::Target ==> as_applied(item, target) == item,
        item.capability != Capability::Target ==> value::field(
            as_applied(item, target).context.metadata,
            "target"@,
        ) == Some(target),
        other != "target"@ ==> value::field(as_applied(item, target).context.metadata, other)
            == value::field(item.context.metadata, other),
{
    lemma_metadata(item.context.metadata->Object_0, "target"@, target, other);
}

/// Every plan with changes is applied, in order, and no other: what is applied next is the first
/// plan with changes that is left.
pub proof fn only_changes_are_applied(items: Seq<PreparedV>, from: int)
    requires
        0 <= from <= items.len(),
    ensures
        from <= next_change(items, from) <= items.len(),
        next_change(items, from) < items.len() ==> items[next_change(items, from)].plan.has_changes,
        forall|k: int| from <= k < next_change(items, from) ==> !(#[trigger] items[k]).plan.has_changes,
    decreases items.len() - from,
{
    if from < items.len() && !items[from].plan.has_changes {
        only_changes_are_applied(items, from + 1);
    }
}

/// `up` destroys nothing: what it refuses is exactly a plan with a destructive action.
pub proof fn up_never_destroys(items: Seq<PreparedV>)
    ensures
        destroys(items) <==> !(forall|i: int, k: int|
            0 <= i < items.len() && 0 <= k < items[i].plan.actions.len() ==> !(
            #[trigger] items[i].plan.actions[k]).destructive),
{
    if destroys(items) {
        let i = choose|i: int| 0 <= i < items.len() && plan_destroys((#[trigger] items[i]).plan);
        let k = choose|k: int|
            0 <= k < items[i].plan.actions.len() && (#[trigger] items[i].plan.actions[k]).destructive;
        assert(items[i].plan.actions[k].destructive);
    } else {
        assert forall|i: int, k: int| 0 <= i < items.len() && 0 <= k < items[i].plan.actions.len() implies !(
        #[trigger] items[i].plan.actions[k]).destructive by {
            assert(!plan_destroys(items[i].plan));
        }
    }
}

/// What the application is desired to be names the file of its Compose model.
pub proof fn compose_model_is_named(desired: Seq<(Seq<char>, DataV)>, path: Seq<char>, other: Seq<char>)
    ensures
        value::lookup(value::put(desired, "resolved_compose_path"@, DataV::Str(path)), "resolved_compose_path"@)
            == Some(DataV::Str(path)),
        other != "resolved_compose_path"@ ==> value::lookup(
            value::put(desired, "resolved_compose_path"@, DataV::Str(path)),
            other,
        ) == value::lookup(desired, other),
{
    lemma_metadata(desired, "resolved_compose_path"@, DataV::Str(path), other);
}

/// A request to apply what was planned for a capability, on the target as it is.
pub open spec fn asks_to_apply(request: ApplyRequest, item: PreparedV, target: DataV) -> bool {
    &&& request.context@ == as_applied(item, target).context
    &&& request.plan@ == item.plan
    &&& request.journal@.len() == 0
}

/// How an operation ends after the environment was inspected: well where the environment is ready,
/// and only then does its journal say so.
pub open spec fn concludes(
    status: Option<ResourceStatus>,
    done: bool,
    before: JournalV,
    after: JournalV,
) -> bool {
    &&& done == (status == Some(ResourceStatus::Ready))
    &&& after.actions == before.actions
    &&& after.status == if done {
        OperationStatus::Succeeded
    } else {
        before.status
    }
}

/// Every request to apply carries the plan that was made, with the settings and secrets it was made
/// for, and tells what runs on a target the target as it is now.
pub proof fn plans_are_applied_as_made(request: ApplyRequest, item: PreparedV, target: DataV)
    requires
        asks_to_apply(request, item, target),
        item.context.metadata is Object,
    ensures
        request.plan@ == item.plan,
        request.context@.secrets == item.context.secrets,
        request.context@.config == item.context.config,
        request.context@.environment_id == item.context.environment_id,
        item.capability == Capability::Target ==> request.context@ == item.context,
        item.capability != Capability::Target ==> value::field(request.context@.metadata, "target"@) == Some(target),
{
    value::lemma_put_found(item.context.metadata->Object_0, "target"@, target);
}

/// An operation succeeds exactly where the environment was inspected and is ready: one that cannot
/// be inspected, or is in any other state, fails, and the journal never calls it a success.
pub proof fn only_ready_environments_succeed(
    status: Option<ResourceStatus>,
    done: bool,
    before: JournalV,
    after: JournalV,
)
    requires
        concludes(status, done, before, after),
        before.status != OperationStatus::Succeeded,
    ensures
        status == Some(ResourceStatus::Ready) ==> done && after.status == OperationStatus::Succeeded,
        status != Some(ResourceStatus::Ready) ==> !done && after.status != OperationStatus::Succeeded,
        after.actions == before.actions,
{
}

/// The journal of an operation that begins to apply holds the actions of every plan, for the
/// environment, none of them done.
pub proof fn journals_begin_with_what_is_planned(
    environment_id: Seq<char>,
    operation_id: Seq<u8>,
    items: Seq<PreparedV>,
)
    ensures
        up_journal(environment_id, operation_id, items).environment_id == environment_id,
        up_journal(environment_id, operation_id, items).operation_id == operation_id,
        up_journal(environment_id, operation_id, items).kind == OperationKind::Up,
        up_journal(environment_id, operation_id, items).status == OperationStatus::Applying,
        up_journal(environment_id, operation_id, items).actions == all_planned(items),
        up_journal(environment_id, operation_id, items).error is None,
{
}

/// Removing what was made sees only the secrets that the plugin names itself; putting back what
/// was there sees those that applying saw.
pub proof fn undoing_sees_the_right_secrets(item: PreparedV, manifest: PluginManifest, target: DataV, i: int)
    ensures
        undo_context(item, RollbackOperation::Rollback, manifest, target).secrets == item.context.secrets,
        0 <= i < undo_context(item, RollbackOperation::Cleanup, manifest, target).secrets.len()
            ==> item.context.secrets.contains(
            undo_context(item, RollbackOperation::Cleanup, manifest, target).secrets[i],
        ) && undo_context(item, RollbackOperation::Cleanup, manifest, target).secrets[i].0 != "*"@ && exists|k: int|
            0 <= k < manifest.required_secrets@.len() && (#[trigger] manifest.required_secrets@[k]).name@
                == undo_context(item, RollbackOperation::Cleanup, manifest, target).secrets[i].0,
        undo_context(item, RollbackOperation::Cleanup, manifest, target).config == item.context.config,
        undo_context(item, RollbackOperation::Rollback, manifest, target).config == item.context.config,
{
    rollback::cleanup_sees_declared_secrets_alone(manifest.required_secrets@, item.context.secrets);
    let kept = rollback::exact_secrets(manifest.required_secrets@, item.context.secrets);
    if 0 <= i < kept.len() {
        assert(rollback::declares_exactly(manifest.required_secrets@, kept[i].0));
    }
}

/// What cannot be undone is told with the plugin, the action, its kind and the reason.
pub proof fn limits_tell_their_reason(item: AppliedV, i: int)
    requires
        0 <= i < limits_of(item).len(),
    ensures
        limit_lines(item).len() == limits_of(item).len(),
        limit_lines(item)[i] == item.prepared.plugin_id + ": action `"@ + limits_of(item)[i].action_id + "` ("@
            + limits_of(item)[i].kind + ") cannot be automatically rolled back: "@ + limits_of(item)[i].reason,
{
}

/// What failed to be undone is told with its plugin and what is left.
pub proof fn failed_undoing_tells_what_is_left(plugin_id: Seq<char>, outcome: Result<DestroyResult, ClientError>)
    ensures
        outcome matches Ok(result) ==> (result.remaining@.len() > 0 ==> undo_failure(plugin_id, outcome) == Some(
            plugin_id + ": rollback left resources: "@ + text::joined(text::texts(result.remaining@), ", "@),
        )),
        outcome matches Err(failure) ==> undo_failure(plugin_id, outcome) == Some(
            plugin_id + ": "@ + failure.text(),
        ),
{
}

} // verus!
