//! What a capability is about to do, and what it did.

use vstd::prelude::*;

use crate::canonical;
use crate::client;
use crate::config;
use crate::error::{CliError, CliErrorV};
use crate::journal;
use crate::journal::{JournalV, OperationJournal, PlannedV, RecordV};
use crate::models::{ActionV, ApplyV, ContextV, InspectV, PlanV};
use crate::outside;
use crate::protocol;
use crate::protocol::{
    ActionJournalEntry, ApplyResult, EntryV, InspectResult, JournalStatus, OperationContext, PlanResult,
};
use crate::text;
use crate::value;
use crate::value::{Data, DataV};

verus! {

/// The capabilities in the order in which they are applied.
pub const APPLY_ORDER: [config::Capability; 6] = [
    config::Capability::Source,
    config::Capability::Target,
    config::Capability::Builder,
    config::Capability::Runtime,
    config::Capability::Exposure,
    config::Capability::Dns,
];

/// The capabilities in the order in which they are destroyed.
pub const DESTROY_ORDER: [config::Capability; 4] = [
    config::Capability::Dns,
    config::Capability::Exposure,
    config::Capability::Runtime,
    config::Capability::Target,
];

/// The protocol's name of a capability.
pub open spec fn wire_capability(capability: config::Capability) -> protocol::Capability {
    match capability {
        config::Capability::Source => protocol::Capability::Source,
        config::Capability::Builder => protocol::Capability::Builder,
        config::Capability::Target => protocol::Capability::Target,
        config::Capability::Runtime => protocol::Capability::Runtime,
        config::Capability::Exposure => protocol::Capability::Exposure,
        config::Capability::Dns => protocol::Capability::Dns,
    }
}

/// The protocol's name of a capability.
pub fn protocol_capability(capability: config::Capability) -> (r: protocol::Capability)
    ensures
        r == wire_capability(capability),
{
    match capability {
        config::Capability::Source => protocol::Capability::Source,
        config::Capability::Builder => protocol::Capability::Builder,
        config::Capability::Target => protocol::Capability::Target,
        config::Capability::Runtime => protocol::Capability::Runtime,
        config::Capability::Exposure => protocol::Capability::Exposure,
        config::Capability::Dns => protocol::Capability::Dns,
    }
}

/// A capability that was inspected and planned.
#[derive(Clone)]
pub struct PreparedCapability {
    pub capability: config::Capability,
    pub plugin_id: String,
    pub context: OperationContext,
    pub current: InspectResult,
    pub plan: PlanResult,
}

/// The model of [`PreparedCapability`].
#[verifier::ext_equal]
pub struct PreparedV {
    pub capability: config::Capability,
    pub plugin_id: Seq<char>,
    pub context: ContextV,
    pub current: InspectV,
    pub plan: PlanV,
}

impl View for PreparedCapability {
    type V = PreparedV;

    open spec fn view(&self) -> PreparedV {
        PreparedV {
            capability: self.capability,
            plugin_id: self.plugin_id@,
            context: self.context@,
            current: self.current@,
            plan: self.plan@,
        }
    }
}

/// The models of prepared capabilities.
pub open spec fn prepared_views(items: Seq<PreparedCapability>) -> Seq<PreparedV> {
    Seq::new(items.len(), |i: int| items[i]@)
}

impl PreparedCapability {
    /// A copy.
    pub fn duplicate(&self) -> (r: PreparedCapability)
        ensures
            r@ == self@,
    {
        PreparedCapability {
            capability: self.capability,
            plugin_id: self.plugin_id.clone(),
            context: self.context.duplicate(),
            current: self.current.duplicate(),
            plan: self.plan.duplicate(),
        }
    }
}

/// What the journal keeps of a prepared capability.
pub open spec fn planned_of(item: PreparedV) -> PlannedV {
    PlannedV { capability: item.capability, plugin_id: item.plugin_id, plan: item.plan }
}

/// A capability whose plan is or was applied.
#[derive(Clone)]
pub struct AppliedCapability {
    pub prepared: PreparedCapability,
    pub journal: Vec<ActionJournalEntry>,
    pub post_apply_state: Option<Data>,
}

/// The model of [`AppliedCapability`].
#[verifier::ext_equal]
pub struct AppliedV {
    pub prepared: PreparedV,
    pub journal: Seq<EntryV>,
    pub post_apply_state: Option<DataV>,
}

/// The value that may be there.
pub open spec fn option_data(v: Option<Data>) -> Option<DataV> {
    match v {
        Some(v) => Some(v@),
        None => None,
    }
}

impl View for AppliedCapability {
    type V = AppliedV;

    open spec fn view(&self) -> AppliedV {
        AppliedV {
            prepared: self.prepared@,
            journal: protocol::journal_views(self.journal@),
            post_apply_state: option_data(self.post_apply_state),
        }
    }
}

/// The models of applied capabilities.
pub open spec fn applied_views(items: Seq<AppliedCapability>) -> Seq<AppliedV> {
    Seq::new(items.len(), |i: int| items[i]@)
}

// ---------------------------------------------------------------------------
// What is kept for a rollback
// ---------------------------------------------------------------------------

/// Whether a journal tells how to undo an action.
pub open spec fn has_claim(entries: Seq<EntryV>, action_id: Seq<char>) -> bool {
    exists|i: int|
        0 <= i < entries.len() && (#[trigger] entries[i]).action_id == action_id && entries[i].rollback is Some
}

/// The highest sequence number, or zero.
pub open spec fn highest(entries: Seq<EntryV>) -> u64
    decreases entries.len(),
{
    if entries.len() == 0 {
        0
    } else {
        let before = highest(entries.drop_last());
        if entries.last().sequence > before {
            entries.last().sequence
        } else {
            before
        }
    }
}

/// The next sequence number, as far as there is one.
pub open spec fn next_sequence(n: u64) -> u64 {
    if n == u64::MAX {
        n
    } else {
        (n + 1) as u64
    }
}

/// The status of the last entry of an action.
pub open spec fn last_status(entries: Seq<EntryV>, action_id: Seq<char>) -> JournalStatus
    decreases entries.len(),
{
    if entries.len() == 0 {
        JournalStatus::Started
    } else if entries.last().action_id == action_id {
        entries.last().status
    } else {
        last_status(entries.drop_last(), action_id)
    }
}

/// The entry that stands in for what a plugin did not report.
pub open spec fn fallback(entries: Seq<EntryV>, reported: Seq<EntryV>, action: ActionV) -> EntryV {
    EntryV {
        sequence: next_sequence(highest(entries)),
        action_id: action.id,
        status: last_status(reported, action.id),
        timestamp: None,
        message: None,
        rollback: action.rollback,
        metadata: action.metadata,
    }
}

/// The journal of a plugin with an entry for each of the first `n` planned actions that can
/// be undone and that the plugin left out.
pub open spec fn completed_journal(actions: Seq<ActionV>, reported: Seq<EntryV>, n: int) -> Seq<EntryV>
    decreases n,
{
    if n <= 0 {
        reported
    } else {
        let before = completed_journal(actions, reported, n - 1);
        let action = actions[n - 1];
        if action.rollback is None || has_claim(before, action.id) {
            before
        } else {
            before.push(fallback(before, reported, action))
        }
    }
}

/// The journal with which a plan can be rolled back.
pub open spec fn rollback_entries(plan: PlanV, reported: Seq<EntryV>) -> Seq<EntryV> {
    completed_journal(plan.actions, reported, plan.actions.len() as int)
}

/// What a plugin reported stays as it is, in front.
pub proof fn reported_entries_are_kept(plan: PlanV, reported: Seq<EntryV>)
    ensures
        reported.len() <= rollback_entries(plan, reported).len(),
        rollback_entries(plan, reported).take(reported.len() as int) == reported,
{
    lemma_reported_kept(plan.actions, reported, plan.actions.len() as int);
}

/// What a plugin reported stays as it is, in front.
proof fn lemma_reported_kept(actions: Seq<ActionV>, reported: Seq<EntryV>, n: int)
    ensures
        reported.len() <= completed_journal(actions, reported, n).len(),
        completed_journal(actions, reported, n).take(reported.len() as int) == reported,
    decreases n,
{
    if n <= 0 {
        assert(reported.take(reported.len() as int) =~= reported);
    } else {
        lemma_reported_kept(actions, reported, n - 1);
        let before = completed_journal(actions, reported, n - 1);
        assert(completed_journal(actions, reported, n).take(reported.len() as int) =~= before.take(
            reported.len() as int,
        ));
    }
}

/// Every planned action that can be undone has an entry that tells how.
pub proof fn every_inverse_is_journaled(plan: PlanV, reported: Seq<EntryV>, i: int)
    requires
        0 <= i < plan.actions.len(),
        plan.actions[i].rollback is Some,
    ensures
        has_claim(rollback_entries(plan, reported), plan.actions[i].id),
{
    lemma_inverse_journaled(plan.actions, reported, i, plan.actions.len() as int);
}

/// Every planned action that can be undone has an entry that tells how.
proof fn lemma_inverse_journaled(actions: Seq<ActionV>, reported: Seq<EntryV>, i: int, n: int)
    requires
        0 <= i < n <= actions.len(),
        actions[i].rollback is Some,
    ensures
        has_claim(completed_journal(actions, reported, n), actions[i].id),
    decreases n,
{
    let before = completed_journal(actions, reported, n - 1);
    let after = completed_journal(actions, reported, n);
    if i < n - 1 {
        lemma_inverse_journaled(actions, reported, i, n - 1);
        let k = choose|k: int|
            0 <= k < before.len() && (#[trigger] before[k]).action_id == actions[i].id && before[k].rollback is Some;
        assert(after[k] == before[k]);
    } else if !has_claim(before, actions[i].id) {
        assert(after[before.len() as int].action_id == actions[i].id);
    }
}

/// Tests whether a journal tells how to undo an action.
fn claims(entries: &Vec<ActionJournalEntry>, action_id: &str) -> (r: bool)
    ensures
        r == has_claim(protocol::journal_views(entries@), action_id@),
{
    let ghost views = protocol::journal_views(entries@);
    let mut i: usize = 0;
    while i < entries.len()
        invariant
            i <= entries@.len(),
            views == protocol::journal_views(entries@),
            forall|k: int|
                0 <= k < i ==> !((#[trigger] views[k]).action_id == action_id@ && views[k].rollback is Some),
        decreases entries.len() - i,
    {
        assert(views[i as int] == entries@[i as int]@);
        if entries[i].rollback.is_some() && text::same(entries[i].action_id.as_str(), action_id) {
            return true;
        }
        i += 1;
    }
    false
}

/// The highest sequence number, or zero.
fn highest_sequence(entries: &Vec<ActionJournalEntry>) -> (r: u64)
    ensures
        r == highest(protocol::journal_views(entries@)),
{
    let ghost views = protocol::journal_views(entries@);
    let mut n: u64 = 0;
    let mut i: usize = 0;
    assert(views.take(0) =~= Seq::<EntryV>::empty());
    while i < entries.len()
        invariant
            i <= entries@.len(),
            views == protocol::journal_views(entries@),
            n == highest(views.take(i as int)),
        decreases entries.len() - i,
    {
        assert(views.take(i + 1).drop_last() =~= views.take(i as int));
        assert(views.take(i + 1).last() == entries@[i as int]@);
        if entries[i].sequence > n {
            n = entries[i].sequence;
        }
        i += 1;
    }
    assert(views.take(views.len() as int) =~= views);
    n
}

/// The status of the last entry of an action.
fn status_of(entries: &Vec<ActionJournalEntry>, action_id: &str) -> (r: JournalStatus)
    ensures
        r == last_status(protocol::journal_views(entries@), action_id@),
{
    let ghost views = protocol::journal_views(entries@);
    let mut n: usize = entries.len();
    assert(views.take(views.len() as int) =~= views);
    while n > 0
        invariant
            n <= entries@.len(),
            views == protocol::journal_views(entries@),
            last_status(views, action_id@) == last_status(views.take(n as int), action_id@),
        decreases n,
    {
        assert(views.take(n as int).drop_last() =~= views.take(n - 1));
        assert(views.take(n as int).last() == entries@[n - 1]@);
        if text::same(entries[n - 1].action_id.as_str(), action_id) {
            return entries[n - 1].status;
        }
        n -= 1;
    }
    JournalStatus::Started
}

/// The journal with which a plan can be rolled back: what the plugin reported, and an entry
/// of the locked plan for each action that it left out.
pub fn rollback_journal(plan: &PlanResult, plugin_journal: &Vec<ActionJournalEntry>) -> (r: Vec<
    ActionJournalEntry,
>)
    ensures
        protocol::journal_views(r@) == rollback_entries(plan@, protocol::journal_views(plugin_journal@)),
{
    let ghost actions = plan@.actions;
    let ghost reported = protocol::journal_views(plugin_journal@);
    let mut out = protocol::duplicate_journal(plugin_journal);
    let mut i: usize = 0;
    while i < plan.actions.len()
        invariant
            i <= plan.actions@.len(),
            actions == plan@.actions,
            reported == protocol::journal_views(plugin_journal@),
            protocol::journal_views(out@) == completed_journal(actions, reported, i as int),
        decreases plan.actions.len() - i,
    {
        let action = &plan.actions[i];
        let ghost before = out@;
        assert(actions[i as int] == action@);
        if action.rollback.is_some() && !claims(&out, action.id.as_str()) {
            let top: u64 = highest_sequence(&out);
            let entry = ActionJournalEntry {
                sequence: if top == u64::MAX {
                    top
                } else {
                    top + 1
                },
                action_id: action.id.clone(),
                status: status_of(plugin_journal, action.id.as_str()),
                timestamp: None,
                message: None,
                rollback: protocol::duplicate_rollback(&action.rollback),
                metadata: action.metadata.duplicate(),
            };
            out.push(entry);
            assert(protocol::journal_views(out@) =~= protocol::journal_views(before).push(entry@));
        }
        i += 1;
    }
    out
}

impl AppliedCapability {
    /// A capability whose plan is about to be applied: how to undo it is known from the plan
    /// alone.
    pub fn new(prepared: PreparedCapability) -> (r: AppliedCapability)
        ensures
            r@ == started(prepared@),
    {
        let none: Vec<ActionJournalEntry> = Vec::new();
        assert(protocol::journal_views(none@) =~= Seq::<EntryV>::empty());
        let journal = rollback_journal(&prepared.plan, &none);
        AppliedCapability { prepared, journal, post_apply_state: None }
    }

    /// Takes note of what applying the plan gave.
    pub fn record_apply_result(&mut self, result: &ApplyResult)
        ensures
            final(self)@ == applied_with(old(self)@, result@),
    {
        self.journal = rollback_journal(&self.prepared.plan, &result.journal);
        self.post_apply_state = Some(result.state.duplicate());
    }
}

/// A capability whose plan is about to be applied.
pub open spec fn started(prepared: PreparedV) -> AppliedV {
    AppliedV {
        prepared,
        journal: rollback_entries(prepared.plan, Seq::empty()),
        post_apply_state: None,
    }
}

/// A capability whose plan was applied.
pub open spec fn applied_with(item: AppliedV, result: ApplyV) -> AppliedV {
    AppliedV {
        prepared: item.prepared,
        journal: rollback_entries(item.prepared.plan, result.journal),
        post_apply_state: Some(result.state),
    }
}

// ---------------------------------------------------------------------------
// Applying
// ---------------------------------------------------------------------------

/// What came of applying a plan, and whether the operator asked to stop meanwhile.
pub struct ApplyAttempt {
    pub result: Result<ApplyResult, CliError>,
    pub cancelled: bool,
}

/// The journal after a plan was applied: a plugin that reports nothing completed everything.
pub open spec fn journal_after_apply(j: JournalV, item: PreparedV, result: ApplyV) -> JournalV {
    JournalV {
        actions: journal::marked(j.actions, planned_of(item), result.journal, result.journal.len() == 0),
        ..j
    }
}

/// Takes note of an attempt. A result is recorded even where the operator asked to stop, so
/// that exactly what was created can be cleaned up.
pub fn record_apply_attempt(
    item: &mut AppliedCapability,
    journal: &mut OperationJournal,
    attempt: ApplyAttempt,
) -> (r: Result<(ApplyResult, bool), CliError>)
    ensures
        match (attempt.result, r) {
            (Ok(result), Ok((returned, cancelled))) => {
                &&& returned == result
                &&& cancelled == attempt.cancelled
                &&& final(item)@ == applied_with(old(item)@, result@)
                &&& final(journal)@ == journal_after_apply(old(journal)@, old(item)@.prepared, result@)
            },
            (Err(a), Err(b)) => a == b && *final(item) == *old(item) && *final(journal) == *old(journal),
            _ => false,
        },
{
    match attempt.result {
        Err(error) => Err(error),
        Ok(result) => {
            item.record_apply_result(&result);
            assert(protocol::journal_views(result.journal@).len() == result.journal@.len());
            journal::mark_plugin_actions_completed(
                journal,
                item.prepared.capability,
                item.prepared.plugin_id.as_str(),
                &item.prepared.plan,
                &result.journal,
                result.journal.len() == 0,
            );
            Ok((result, attempt.cancelled))
        },
    }
}

/// Stops an operation that the operator asked to stop.
pub fn check_apply_cancellation(cancelled: bool) -> (r: Result<(), CliError>)
    ensures
        match r {
            Ok(()) => !cancelled,
            Err(e) => cancelled && e@ == CliErrorV::Operation(
                "operation cancelled after the active plugin reached a safe stopping point"@,
            ),
        },
{
    if cancelled {
        Err(
            CliError::Operation(
                "operation cancelled after the active plugin reached a safe stopping point".to_owned(),
            ),
        )
    } else {
        Ok(())
    }
}

/// The records of the actions that capabilities plan.
pub open spec fn all_planned(items: Seq<PreparedV>) -> Seq<RecordV>
    decreases items.len(),
{
    if items.len() == 0 {
        Seq::empty()
    } else {
        all_planned(items.drop_last()) + journal::planned_records(planned_of(items.last()))
    }
}

/// Records the actions that capabilities plan.
pub fn record_planned_actions(journal: &mut OperationJournal, prepared: &Vec<PreparedCapability>)
    ensures
        final(journal)@ == (JournalV {
            actions: old(journal)@.actions + all_planned(prepared_views(prepared@)),
            ..old(journal)@
        }),
{
    let ghost before = journal@;
    let ghost views = prepared_views(prepared@);
    let mut i: usize = 0;
    assert(views.take(0) =~= Seq::<PreparedV>::empty());
    assert(before.actions + Seq::<RecordV>::empty() =~= before.actions);
    while i < prepared.len()
        invariant
            i <= prepared@.len(),
            views == prepared_views(prepared@),
            journal@ == (JournalV { actions: before.actions + all_planned(views.take(i as int)), ..before }),
        decreases prepared.len() - i,
    {
        let item = &prepared[i];
        proof {
            assert(views.take(i + 1).drop_last() =~= views.take(i as int));
            assert(views.take(i + 1).last() == item@);
        }
        journal.record_planned(item.capability, item.plugin_id.as_str(), &item.plan);
        assert(journal@.actions =~= before.actions + all_planned(views.take(i + 1)));
        i += 1;
    }
    assert(views.take(views.len() as int) =~= views);
}

// ---------------------------------------------------------------------------
// Plans
// ---------------------------------------------------------------------------

/// What is desired, with the state of the target.
pub open spec fn desired_for(base: Seq<(Seq<char>, DataV)>, target: DataV) -> DataV {
    DataV::Object(value::put(base, "target"@, target))
}

/// What is desired, with the state of the target.
pub fn desired_with_target(base: &Data, target: &Data) -> (r: Data)
    requires
        base@ is Object,
    ensures
        r@ == desired_for(base@->Object_0, target@),
{
    broadcast use value::lemma_object_view;

    let mut entries = match base.as_object() {
        Some(entries) => value::duplicate_entries(entries),
        None => Vec::new(),
    };
    value::put_entry(&mut entries, "target", target.duplicate());
    Data::Object(entries)
}

/// What must not change between showing a plan and carrying it out.
#[derive(Clone, Debug, Eq, PartialEq)]
pub struct PlanContractEntry {
    pub capability: String,
    pub plugin_id: String,
    pub plan_digest: String,
}

/// The digest of a plan: of its canonical notation.
pub open spec fn plan_digest(plan: PlanResult) -> Seq<char> {
    outside::hex_text(
        outside::sha256_of(
            vstd::utf8::encode_utf8(value::encoded(value::canonical(protocol::plan_value(plan)))),
        ),
    )
}

/// The models of contracts: capability, plugin and digest.
pub open spec fn contract_views(entries: Seq<PlanContractEntry>) -> Seq<(Seq<char>, Seq<char>, Seq<char>)> {
    Seq::new(entries.len(), |i: int| (entries[i].capability@, entries[i].plugin_id@, entries[i].plan_digest@))
}

/// What must not change of capabilities.
pub open spec fn contracts_of(items: Seq<PreparedCapability>) -> Seq<(Seq<char>, Seq<char>, Seq<char>)> {
    Seq::new(
        items.len(),
        |i: int| (items[i].capability.text(), items[i].plugin_id@, plan_digest(items[i].plan)),
    )
}

/// What must not change between showing plans and carrying them out.
pub fn plan_contract(prepared: &Vec<PreparedCapability>) -> (r: Vec<PlanContractEntry>)
    ensures
        contract_views(r@) == contracts_of(prepared@),
{
    let mut out: Vec<PlanContractEntry> = Vec::new();
    let mut i: usize = 0;
    while i < prepared.len()
        invariant
            i <= prepared@.len(),
            out@.len() == i,
            forall|k: int|
                0 <= k < i ==> (#[trigger] out@[k]).capability@ == prepared@[k].capability.text()
                    && out@[k].plugin_id@ == prepared@[k].plugin_id@ && out@[k].plan_digest@ == plan_digest(
                    prepared@[k].plan,
                ),
        decreases prepared.len() - i,
    {
        let item = &prepared[i];
        let encoded = value::encode(&value::canonical_json(&item.plan.to_value()));
        let digest = outside::sha256(encoded.as_str().as_bytes());
        out.push(
            PlanContractEntry {
                capability: item.capability.as_str().to_owned(),
                plugin_id: item.plugin_id.clone(),
                plan_digest: outside::hex_encode(digest.as_slice()),
            },
        );
        i += 1;
    }
    assert(contract_views(out@) =~= contracts_of(prepared@));
    out
}

/// Tests whether two contracts agree.
pub fn same_contract(a: &Vec<PlanContractEntry>, b: &Vec<PlanContractEntry>) -> (r: bool)
    ensures
        r == (contract_views(a@) == contract_views(b@)),
{
    let ghost x = contract_views(a@);
    let ghost y = contract_views(b@);
    assert(x.len() == a@.len() && y.len() == b@.len());
    if a.len() != b.len() {
        return false;
    }
    let mut i: usize = 0;
    while i < a.len()
        invariant
            i <= a@.len(),
            a@.len() == b@.len(),
            x == contract_views(a@),
            y == contract_views(b@),
            forall|k: int| 0 <= k < i ==> #[trigger] x[k] == y[k],
        decreases a.len() - i,
    {
        assert(x[i as int] == (a@[i as int].capability@, a@[i as int].plugin_id@, a@[i as int].plan_digest@));
        assert(y[i as int] == (b@[i as int].capability@, b@[i as int].plugin_id@, b@[i as int].plan_digest@));
        if !(text::same(a[i].capability.as_str(), b[i].capability.as_str()) && text::same(
            a[i].plugin_id.as_str(),
            b[i].plugin_id.as_str(),
        ) && text::same(a[i].plan_digest.as_str(), b[i].plan_digest.as_str())) {
            assert(x[i as int] != y[i as int]);
            return false;
        }
        i += 1;
    }
    assert(x =~= y);
    true
}

/// Plans that differ in nothing but the order of names agree.
pub proof fn contract_ignores_the_order_of_names(a: PlanResult, b: PlanResult)
    requires
        canonical::is_document(protocol::plan_value(a)),
        canonical::is_document(protocol::plan_value(b)),
        canonical::same_but_order(protocol::plan_value(a), protocol::plan_value(b)),
    ensures
        plan_digest(a) == plan_digest(b),
{
    canonical::canonical_form_ignores_order(protocol::plan_value(a), protocol::plan_value(b));
}

/// The sum, as far as the machine can count.
pub open spec fn capped(n: nat) -> nat {
    if n <= usize::MAX {
        n
    } else {
        usize::MAX as nat
    }
}

/// The work of carrying out a plan: one unit for each action, for each environment that is
/// selected, and for the request itself.
pub open spec fn plan_units(metadata: DataV, plan: PlanV) -> nat {
    let selected = match client::selected_count(metadata) {
        Some(n) => n,
        None => 0,
    };
    capped(capped(plan.actions.len() + selected) + 1)
}

/// The seconds that carrying out a locked plan may take.
pub fn locked_plan_request_timeout(context: &OperationContext, plan: &PlanResult) -> (r: u64)
    ensures
        r == client::timeout_seconds(context.config@, plan_units(context.metadata@, plan@)),
{
    let selected: usize = match client::selection_len(context) {
        Some(n) => n,
        None => 0,
    };
    let units: usize = plan.actions.len().saturating_add(selected).saturating_add(1);
    client::operation_request_timeout(context, units)
}

/// Observed state that holds nothing is an empty table.
pub open spec fn state_or_empty(state: DataV) -> DataV {
    if state is Null {
        DataV::Object(Seq::empty())
    } else {
        state
    }
}

/// The state of a target, from which the other capabilities are prepared.
pub fn target_state_of(current: &InspectResult) -> (r: Data)
    ensures
        r@ == state_or_empty(current@.state),
{
    match &current.state {
        Data::Null => Data::object(),
        other => other.duplicate(),
    }
}

/// What is desired of a capability names the target's state, and everything else as it was.
pub proof fn desired_names_the_target(base: Seq<(Seq<char>, DataV)>, target: DataV, other: Seq<char>)
    ensures
        value::field(desired_for(base, target), "target"@) == Some(target),
        other != "target"@ ==> value::field(desired_for(base, target), other) == value::lookup(base, other),
{
    value::lemma_put_found(base, "target"@, target);
    if other != "target"@ {
        value::lemma_put_kept(base, "target"@, target, other);
    }
}

/// What a plugin reports of an applied plan is what it may later be undone from: its state is
/// kept, and what it reports of its actions is never dropped.
pub proof fn results_are_kept_for_undoing(item: AppliedV, result: ApplyV)
    ensures
        applied_with(item, result).post_apply_state == Some(result.state),
        applied_with(item, result).prepared == item.prepared,
        applied_with(item, result).journal.take(result.journal.len() as int) == result.journal,
        started(item.prepared).post_apply_state is None,
        started(item.prepared).prepared == item.prepared,
{
    reported_entries_are_kept(item.prepared.plan, result.journal);
    let kept = applied_with(item, result).journal;
    assert(kept.take(result.journal.len() as int) =~= result.journal);
}

/// Every action of every plan is in the journal before anything is changed, under its plugin,
/// capability and plan, and none of them counts as completed.
pub proof fn every_planned_action_is_journaled(items: Seq<PreparedV>, i: int, k: int)
    requires
        0 <= i < items.len(),
        0 <= k < items[i].plan.actions.len(),
    ensures
        exists|j: int|
            0 <= j < all_planned(items).len() && is_record_of(
                #[trigger] all_planned(items)[j],
                items[i],
                items[i].plan.actions[k],
            ),
    decreases items.len(),
{
    let all = all_planned(items);
    let before = all_planned(items.drop_last());
    if i == items.len() - 1 {
        let j = before.len() + k;
        assert(all[j] == journal::planned_records(planned_of(items.last()))[k]);
        assert(is_record_of(all[j], items[i], items[i].plan.actions[k]));
    } else {
        assert(items.drop_last()[i] == items[i]);
        every_planned_action_is_journaled(items.drop_last(), i, k);
        let j = choose|j: int|
            0 <= j < before.len() && is_record_of(#[trigger] before[j], items[i], items[i].plan.actions[k]);
        assert(all[j] == before[j]);
    }
}

/// A record is that of an action that is not carried out yet.
pub open spec fn is_record_of(record: RecordV, item: PreparedV, action: ActionV) -> bool {
    &&& record.plugin_id == item.plugin_id
    &&& record.capability == Some(item.capability.text())
    &&& record.plan_id == Some(item.plan.plan_id)
    &&& record.action_id == action.id
    &&& record.summary == action.summary
    &&& record.public_metadata == action.metadata
    &&& !record.completed
}

/// A plugin that reports what it did completes the actions that it reports as succeeded, and no
/// others; one that reports nothing completed its plan.
pub proof fn only_reported_actions_are_completed(j: JournalV, item: PreparedV, result: ApplyV, i: int)
    requires
        0 <= i < j.actions.len(),
        !j.actions[i].completed,
        j.actions[i].plugin_id == item.plugin_id,
        j.actions[i].capability == Some(item.capability.text()),
        j.actions[i].plan_id == Some(item.plan.plan_id),
    ensures
        journal_after_apply(j, item, result).actions.len() == j.actions.len(),
        result.journal.len() > 0 ==> (journal_after_apply(j, item, result).actions[i].completed <==> exists|k: int|
            0 <= k < result.journal.len() && (#[trigger] result.journal[k]).action_id == j.actions[i].action_id
                && result.journal[k].status == JournalStatus::Succeeded),
        result.journal.len() == 0 ==> (journal_after_apply(j, item, result).actions[i].completed <==> exists|k: int|
            0 <= k < item.plan.actions.len() && (#[trigger] item.plan.actions[k]).id == j.actions[i].action_id),
{
}

/// The deadline of a plan counts each action and each selected environment, and one more.
pub proof fn deadlines_count_the_work(metadata: DataV, plan: PlanV)
    ensures
        client::selected_count(metadata) is None && plan.actions.len() < usize::MAX ==> plan_units(metadata, plan)
            == plan.actions.len() + 1,
        client::selected_count(metadata) matches Some(n) ==> (plan.actions.len() + n < usize::MAX ==> plan_units(
            metadata,
            plan,
        ) == plan.actions.len() + n + 1),
        plan_units(metadata, plan) <= usize::MAX,
{
}

/// The highest number is none lower than any.
proof fn lemma_highest(entries: Seq<EntryV>)
    ensures
        forall|i: int| 0 <= i < entries.len() ==> (#[trigger] entries[i]).sequence <= highest(entries),
    decreases entries.len(),
{
    if entries.len() > 0 {
        lemma_highest(entries.drop_last());
        assert forall|i: int| 0 <= i < entries.len() implies (#[trigger] entries[i]).sequence <= highest(entries) by {
            if i < entries.len() - 1 {
                assert(entries.drop_last()[i] == entries[i]);
            }
        }
    }
}

/// An inverse that is added to a journal comes after every entry that was there, and is that of
/// the planned action.
pub proof fn added_inverses_come_last(entries: Seq<EntryV>, reported: Seq<EntryV>, action: ActionV)
    ensures
        fallback(entries, reported, action).action_id == action.id,
        fallback(entries, reported, action).rollback == action.rollback,
        fallback(entries, reported, action).metadata == action.metadata,
        forall|i: int|
            0 <= i < entries.len() ==> (#[trigger] entries[i]).sequence <= fallback(entries, reported, action).sequence,
        forall|i: int|
            0 <= i < entries.len() && fallback(entries, reported, action).sequence != u64::MAX ==> (
            #[trigger] entries[i]).sequence < fallback(entries, reported, action).sequence,
{
    lemma_highest(entries);
}

/// The status of an added inverse is the one that was reported last of its action, and that of
/// an action that was started where nothing was reported.
pub proof fn added_inverses_keep_the_status(entries: Seq<EntryV>, reported: Seq<EntryV>, action: ActionV, last: EntryV)
    requires
        last.action_id == action.id,
    ensures
        fallback(entries, reported.push(last), action).status == last.status,
        (forall|i: int| 0 <= i < reported.len() ==> (#[trigger] reported[i]).action_id != action.id) ==> fallback(
            entries,
            reported,
            action,
        ).status == JournalStatus::Started,
    decreases reported.len(),
{
    assert(reported.push(last).last() == last);
    if reported.len() > 0 {
        if forall|i: int| 0 <= i < reported.len() ==> (#[trigger] reported[i]).action_id != action.id {
            let before = reported.drop_last();
            assert(reported[reported.len() - 1].action_id != action.id);
            assert forall|i: int| 0 <= i < before.len() implies (#[trigger] before[i]).action_id != action.id by {
                assert(before[i] == reported[i]);
            }
            added_inverses_keep_the_status(entries, before, action, last);
        }
    }
}

/// Every capability is asked for by its own name.
pub proof fn capabilities_are_asked_for_by_name(capability: config::Capability)
    ensures
        wire_capability(capability).text() == capability.text(),
        !(wire_capability(capability) is Other),
{
}

/// Two contracts agree exactly where as many capabilities are filled, each by the same plugin with
/// a plan of the same digest: a plan that changed is noticed by its digest.
pub proof fn contracts_pin_every_plan(a: Seq<PreparedCapability>, b: Seq<PreparedCapability>)
    ensures
        contracts_of(a) == contracts_of(b) <==> a.len() == b.len() && forall|i: int|
            0 <= i < a.len() ==> (#[trigger] a[i]).capability.text() == b[i].capability.text() && a[i].plugin_id@
                == b[i].plugin_id@ && outside::hex_text(
                outside::sha256_of(
                    vstd::utf8::encode_utf8(value::encoded(value::canonical(protocol::plan_value(a[i].plan)))),
                ),
            ) == outside::hex_text(
                outside::sha256_of(
                    vstd::utf8::encode_utf8(value::encoded(value::canonical(protocol::plan_value(b[i].plan)))),
                ),
            ),
{
    let x = contracts_of(a);
    let y = contracts_of(b);
    if x == y {
        assert(x.len() == y.len());
        assert forall|i: int| 0 <= i < a.len() implies (#[trigger] a[i]).capability.text() == b[i].capability.text()
            && a[i].plugin_id@ == b[i].plugin_id@ && plan_digest(a[i].plan) == plan_digest(b[i].plan) by {
            assert(x[i] == y[i]);
        }
    }
    if a.len() == b.len() && forall|i: int|
        0 <= i < a.len() ==> (#[trigger] a[i]).capability.text() == b[i].capability.text() && a[i].plugin_id@
            == b[i].plugin_id@ && plan_digest(a[i].plan) == plan_digest(b[i].plan) {
        assert forall|i: int| 0 <= i < x.len() implies #[trigger] x[i] == y[i] by {
            assert(a[i].capability.text() == b[i].capability.text());
        }
        assert(x =~= y);
    }
}

/// The state of a target goes on as it is; where there is none, it is an empty object.
pub proof fn target_states_are_kept(state: DataV)
    ensures
        !(state is Null) ==> state_or_empty(state) == state,
        state is Null ==> state_or_empty(state) == DataV::Object(Seq::empty()),
{
}

} // verus!
