//! The journal of an operation: a cache and recovery aid, never the source of truth.

use vstd::prelude::*;

use crate::config::Capability;
use crate::models::{ActionV, PlanV};
use crate::outside;
use crate::path;
use crate::protocol;
use crate::protocol::{ActionJournalEntry, EntryV, JournalStatus, PlanResult};
use crate::text;
use crate::value::{Data, DataV};

verus! {

/// What an operation does.
#[derive(Clone, Copy, Debug, Eq, PartialEq, Structural)]
pub enum OperationKind {
    Up,
    Down,
    Prune,
}

/// How far an operation got.
#[derive(Clone, Copy, Debug, Eq, PartialEq, Structural)]
pub enum OperationStatus {
    Planning,
    Applying,
    Verifying,
    RollingBack,
    Succeeded,
    Failed,
    Interrupted,
}

/// Non-secret record of an applied or planned plugin action.
#[derive(Clone, Debug, Eq, PartialEq)]
pub struct JournalAction {
    pub plugin_id: String,
    pub capability: Option<String>,
    pub plan_id: Option<String>,
    pub action_id: String,
    pub summary: String,
    pub public_metadata: Data,
    pub completed: bool,
}

/// The model of [`JournalAction`].
#[verifier::ext_equal]
pub struct RecordV {
    pub plugin_id: Seq<char>,
    pub capability: Option<Seq<char>>,
    pub plan_id: Option<Seq<char>>,
    pub action_id: Seq<char>,
    pub summary: Seq<char>,
    pub public_metadata: DataV,
    pub completed: bool,
}

impl View for JournalAction {
    type V = RecordV;

    open spec fn view(&self) -> RecordV {
        RecordV {
            plugin_id: self.plugin_id@,
            capability: text::option_of(self.capability),
            plan_id: text::option_of(self.plan_id),
            action_id: self.action_id@,
            summary: self.summary@,
            public_metadata: self.public_metadata@,
            completed: self.completed,
        }
    }
}

/// The models of recorded actions.
pub open spec fn record_views(actions: Seq<JournalAction>) -> Seq<RecordV> {
    Seq::new(actions.len(), |i: int| actions[i]@)
}

/// A cache and recovery aid, never the source of truth for deployed resources.
#[derive(Clone, Debug, Eq, PartialEq)]
pub struct OperationJournal {
    pub schema: u32,
    pub operation_id: [u8; 16],
    pub environment_id: String,
    pub kind: OperationKind,
    pub status: OperationStatus,
    pub actions: Vec<JournalAction>,
    pub error: Option<String>,
}

/// The model of [`OperationJournal`].
#[verifier::ext_equal]
pub struct JournalV {
    pub schema: u32,
    pub operation_id: Seq<u8>,
    pub environment_id: Seq<char>,
    pub kind: OperationKind,
    pub status: OperationStatus,
    pub actions: Seq<RecordV>,
    pub error: Option<Seq<char>>,
}

impl View for OperationJournal {
    type V = JournalV;

    open spec fn view(&self) -> JournalV {
        JournalV {
            schema: self.schema,
            operation_id: self.operation_id@,
            environment_id: self.environment_id@,
            kind: self.kind,
            status: self.status,
            actions: record_views(self.actions@),
            error: text::option_of(self.error),
        }
    }
}

/// The journal of an operation at its beginning.
pub open spec fn fresh_journal(environment_id: Seq<char>, kind: OperationKind, operation_id: Seq<u8>) -> JournalV {
    JournalV {
        schema: 1,
        operation_id,
        environment_id,
        kind,
        status: OperationStatus::Planning,
        actions: Seq::empty(),
        error: None,
    }
}

/// What one capability plans, as far as the journal keeps it.
#[verifier::ext_equal]
pub struct PlannedV {
    pub capability: Capability,
    pub plugin_id: Seq<char>,
    pub plan: PlanV,
}

/// The record of one planned action.
pub open spec fn planned_record(item: PlannedV, action: ActionV) -> RecordV {
    RecordV {
        plugin_id: item.plugin_id,
        capability: Some(item.capability.text()),
        plan_id: Some(item.plan.plan_id),
        action_id: action.id,
        summary: action.summary,
        public_metadata: action.metadata,
        completed: false,
    }
}

/// The records of the actions that one capability plans.
pub open spec fn planned_records(item: PlannedV) -> Seq<RecordV> {
    Seq::new(item.plan.actions.len(), |i: int| planned_record(item, item.plan.actions[i]))
}

/// Whether an action is planned.
pub open spec fn is_planned(plan: PlanV, action_id: Seq<char>) -> bool {
    exists|i: int| 0 <= i < plan.actions.len() && (#[trigger] plan.actions[i]).id == action_id
}

/// Whether a plugin reports that an action succeeded.
pub open spec fn has_succeeded(entries: Seq<EntryV>, action_id: Seq<char>) -> bool {
    exists|i: int|
        0 <= i < entries.len() && (#[trigger] entries[i]).action_id == action_id && entries[i].status
            == JournalStatus::Succeeded
}

/// Whether a record is of an action that is now complete: one of this capability, this
/// plugin and exactly this plan.
pub open spec fn is_completed_by(record: RecordV, item: PlannedV, entries: Seq<EntryV>, all: bool) -> bool {
    &&& record.plugin_id == item.plugin_id
    &&& record.capability == Some(item.capability.text())
    &&& record.plan_id == Some(item.plan.plan_id)
    &&& if all {
        is_planned(item.plan, record.action_id)
    } else {
        has_succeeded(entries, record.action_id)
    }
}

/// The records after a plugin finished.
pub open spec fn marked(records: Seq<RecordV>, item: PlannedV, entries: Seq<EntryV>, all: bool) -> Seq<RecordV> {
    Seq::new(
        records.len(),
        |i: int|
            RecordV {
                completed: records[i].completed || is_completed_by(records[i], item, entries, all),
                ..records[i]
            },
    )
}

/// The file of a journal.
pub open spec fn journal_file(operation_id: Seq<u8>) -> Seq<char> {
    outside::uuid_text(operation_id) + ".json"@
}

impl OperationJournal {
    /// The journal of an operation with a fresh identity.
    pub fn new(environment_id: &str, kind: OperationKind) -> (r: OperationJournal)
        ensures
            r@ == fresh_journal(environment_id@, kind, r.operation_id@),
    {
        OperationJournal::of_operation(environment_id, kind, outside::uuid_random())
    }

    /// The journal of an operation at its beginning.
    pub fn of_operation(environment_id: &str, kind: OperationKind, operation_id: [u8; 16]) -> (r:
        OperationJournal)
        ensures
            r@ == fresh_journal(environment_id@, kind, operation_id@),
    {
        let actions: Vec<JournalAction> = Vec::new();
        assert(record_views(actions@) =~= Seq::<RecordV>::empty());
        OperationJournal {
            schema: 1,
            operation_id,
            environment_id: environment_id.to_owned(),
            kind,
            status: OperationStatus::Planning,
            actions,
            error: None,
        }
    }

    /// The file of the journal.
    pub fn path(&self, operations_dir: &str) -> (r: String)
        ensures
            r@ == path::joined_path(operations_dir@, journal_file(self@.operation_id)),
    {
        let name = text::cat2(outside::uuid_hyphenated(self.operation_id).as_str(), ".json");
        path::join(operations_dir, name.as_str())
    }

    /// The file into which the journal is written before it takes the place of the last one.
    pub fn temporary_path(&self, operations_dir: &str) -> (r: String)
        ensures
            r@ == path::joined_path(operations_dir@, "."@ + journal_file(self@.operation_id) + ".tmp"@),
    {
        let name = text::cat2(outside::uuid_hyphenated(self.operation_id).as_str(), ".json");
        path::join(operations_dir, text::cat3(".", name.as_str(), ".tmp").as_str())
    }

    /// Records the actions that a capability plans.
    pub fn record_planned(&mut self, capability: Capability, plugin_id: &str, plan: &PlanResult)
        ensures
            final(self)@ == (JournalV {
                actions: old(self)@.actions + planned_records(
                    PlannedV { capability, plugin_id: plugin_id@, plan: plan@ },
                ),
                ..old(self)@
            }),
    {
        let ghost before = *self;
        let ghost item = PlannedV { capability, plugin_id: plugin_id@, plan: plan@ };
        let ghost all = planned_records(item);
        let mut i: usize = 0;
        assert(all.take(0) =~= Seq::<RecordV>::empty());
        assert(self@.actions =~= before@.actions + all.take(0));
        while i < plan.actions.len()
            invariant
                i <= plan.actions@.len(),
                item == (PlannedV { capability, plugin_id: plugin_id@, plan: plan@ }),
                all == planned_records(item),
                self@ == (JournalV { actions: before@.actions + all.take(i as int), ..before@ }),
            decreases plan.actions.len() - i,
        {
            let action = &plan.actions[i];
            let ghost earlier = self.actions@;
            let record = JournalAction {
                plugin_id: plugin_id.to_owned(),
                capability: Some(capability.as_str().to_owned()),
                plan_id: Some(plan.plan_id.clone()),
                action_id: action.id.clone(),
                summary: action.summary.clone(),
                public_metadata: action.metadata.duplicate(),
                completed: false,
            };
            self.actions.push(record);
            proof {
                assert(item.plan.actions[i as int] == action@);
                assert(record@ == all[i as int]);
                assert(record_views(self.actions@) =~= record_views(earlier).push(record@));
                assert(before@.actions + all.take(i + 1) =~= (before@.actions + all.take(i as int)).push(
                    all[i as int],
                ));
            }
            i += 1;
        }
        assert(all.take(all.len() as int) =~= all);
    }
}

/// Marks the actions of exactly this plan that are complete: all of them, or those that
/// the plugin reports to have succeeded.
pub fn mark_plugin_actions_completed(
    journal: &mut OperationJournal,
    capability: Capability,
    plugin_id: &str,
    plan: &PlanResult,
    plugin_journal: &Vec<ActionJournalEntry>,
    complete_all_planned: bool,
)
    ensures
        final(journal)@ == (JournalV {
            actions: marked(
                old(journal)@.actions,
                PlannedV { capability, plugin_id: plugin_id@, plan: plan@ },
                protocol::journal_views(plugin_journal@),
                complete_all_planned,
            ),
            ..old(journal)@
        }),
{
    let ghost before = *journal;
    let ghost item = PlannedV { capability, plugin_id: plugin_id@, plan: plan@ };
    let ghost entries = protocol::journal_views(plugin_journal@);
    let ghost all = marked(before@.actions, item, entries, complete_all_planned);
    let mut i: usize = 0;
    while i < journal.actions.len()
        invariant
            i <= journal.actions@.len(),
            journal.actions@.len() == before.actions@.len(),
            journal.schema == before.schema,
            journal.operation_id == before.operation_id,
            journal.environment_id == before.environment_id,
            journal.kind == before.kind,
            journal.status == before.status,
            journal.error == before.error,
            item == (PlannedV { capability, plugin_id: plugin_id@, plan: plan@ }),
            entries == protocol::journal_views(plugin_journal@),
            all == marked(before@.actions, item, entries, complete_all_planned),
            forall|k: int| 0 <= k < i ==> (#[trigger] journal.actions@[k])@ == all[k],
            forall|k: int| i <= k < journal.actions@.len() ==> journal.actions@[k] == before.actions@[k],
        decreases journal.actions.len() - i,
    {
        let action = &journal.actions[i];
        assert(before@.actions[i as int] == action@);
        let here = text::same(action.plugin_id.as_str(), plugin_id) && is_text(
            &action.capability,
            capability.as_str(),
        ) && is_text(&action.plan_id, plan.plan_id.as_str());
        let done = if !here {
            false
        } else if complete_all_planned {
            plans(plan, action.action_id.as_str())
        } else {
            reports_success(plugin_journal, action.action_id.as_str())
        };
        let changed = JournalAction {
            plugin_id: action.plugin_id.clone(),
            capability: text::copy_option(&action.capability),
            plan_id: text::copy_option(&action.plan_id),
            action_id: action.action_id.clone(),
            summary: action.summary.clone(),
            public_metadata: action.public_metadata.duplicate(),
            completed: action.completed || done,
        };
        assert(changed@ == all[i as int]);
        journal.actions.set(i, changed);
        i += 1;
    }
    assert(record_views(journal.actions@) =~= all);
}

/// Tests for a text.
fn is_text(s: &Option<String>, t: &str) -> (r: bool)
    ensures
        r == (text::option_of(*s) == Some(t@)),
{
    match s {
        Some(s) => text::same(s.as_str(), t),
        None => false,
    }
}

/// Tests whether an action is planned.
fn plans(plan: &PlanResult, action_id: &str) -> (r: bool)
    ensures
        r == is_planned(plan@, action_id@),
{
    let mut i: usize = 0;
    while i < plan.actions.len()
        invariant
            i <= plan.actions@.len(),
            forall|k: int| 0 <= k < i ==> (#[trigger] plan@.actions[k]).id != action_id@,
        decreases plan.actions.len() - i,
    {
        assert(plan@.actions[i as int] == plan.actions@[i as int]@);
        if text::same(plan.actions[i].id.as_str(), action_id) {
            return true;
        }
        i += 1;
    }
    false
}

/// Tests whether a plugin reports that an action succeeded.
fn reports_success(entries: &Vec<ActionJournalEntry>, action_id: &str) -> (r: bool)
    ensures
        r == has_succeeded(protocol::journal_views(entries@), action_id@),
{
    let ghost views = protocol::journal_views(entries@);
    let mut i: usize = 0;
    while i < entries.len()
        invariant
            i <= entries@.len(),
            views == protocol::journal_views(entries@),
            forall|k: int|
                0 <= k < i ==> !((#[trigger] views[k]).action_id == action_id@ && views[k].status
                    == JournalStatus::Succeeded),
        decreases entries.len() - i,
    {
        assert(views[i as int] == entries@[i as int]@);
        if entries[i].status == JournalStatus::Succeeded && text::same(
            entries[i].action_id.as_str(),
            action_id,
        ) {
            return true;
        }
        i += 1;
    }
    false
}

/// Completing the actions of one plan leaves the records of other plugins, capabilities and
/// plans alone, and no record that was complete is taken back.
pub proof fn completion_is_scoped(records: Seq<RecordV>, item: PlannedV, entries: Seq<EntryV>, all: bool)
    ensures
        forall|i: int|
            0 <= i < records.len() ==> ({
                let after = (#[trigger] marked(records, item, entries, all)[i]);
                &&& records[i].completed ==> after.completed
                &&& (records[i].plugin_id != item.plugin_id || records[i].capability != Some(
                    item.capability.text(),
                ) || records[i].plan_id != Some(item.plan.plan_id)) ==> after == records[i]
            }),
{
}

} // verus!
