//! How a failed operation is undone.

use vstd::prelude::*;

use crate::collections;
use crate::collections::{StringMap, StringSet};
use crate::config::Capability;
use crate::models;
use crate::models::{ActionV, PlanV};
use crate::prepared::{AppliedCapability, AppliedV, PreparedCapability, PreparedV};
use crate::protocol;
use crate::protocol::{
    ActionJournalEntry, EntryV, JournalStatus, PluginManifest, ResourceStatus, RollbackMetadata, RollbackV,
    SecretRequirement, SecretValue,
};
use crate::text;
use crate::value;
use crate::value::{Data, DataV};

verus! {

/// How a capability is undone.
#[derive(Clone, Copy, Debug, Eq, PartialEq, Structural)]
pub enum RollbackOperation {
    /// What did not exist before is removed.
    Cleanup,
    /// What existed before is restored.
    Rollback,
}

impl RollbackOperation {
    /// The name of the operation in a request.
    pub open spec fn name(self) -> Seq<char> {
        match self {
            RollbackOperation::Cleanup => "rollback_cleanup"@,
            RollbackOperation::Rollback => "rollback"@,
        }
    }

    /// The name of the operation in a request.
    pub fn context_name(self) -> (r: &'static str)
        ensures
            r@ == self.name(),
    {
        match self {
            RollbackOperation::Cleanup => "rollback_cleanup",
            RollbackOperation::Rollback => "rollback",
        }
    }
}

/// The state from which a capability is undone: a cleanup removes exactly what was created,
/// a rollback starts from what was there before.
pub open spec fn undo_state(item: AppliedV, operation: RollbackOperation) -> DataV {
    if operation == RollbackOperation::Cleanup && item.post_apply_state is Some {
        item.post_apply_state->0
    } else {
        item.prepared.current.state
    }
}

/// The state from which a capability is undone.
pub fn rollback_current_state(item: &AppliedCapability, operation: RollbackOperation) -> (r: Data)
    ensures
        r@ == undo_state(item@, operation),
{
    if operation == RollbackOperation::Cleanup {
        if let Some(state) = &item.post_apply_state {
            return state.duplicate();
        }
    }
    item.prepared.current.state.duplicate()
}

/// An action that cannot be undone, and why.
#[derive(Clone, Debug, Eq, PartialEq)]
pub struct UnsupportedRollback {
    pub action_id: String,
    pub kind: String,
    pub reason: String,
}

/// The model of [`UnsupportedRollback`].
#[verifier::ext_equal]
pub struct LimitV {
    pub action_id: Seq<char>,
    pub kind: Seq<char>,
    pub reason: Seq<char>,
}

impl View for UnsupportedRollback {
    type V = LimitV;

    open spec fn view(&self) -> LimitV {
        LimitV { action_id: self.action_id@, kind: self.kind@, reason: self.reason@ }
    }
}

/// The models of limitations.
pub open spec fn limit_views(items: Seq<UnsupportedRollback>) -> Seq<LimitV> {
    Seq::new(items.len(), |i: int| items[i]@)
}

/// How a capability is undone, and what stays.
#[derive(Clone, Debug, Eq, PartialEq)]
pub struct RollbackClassification {
    pub operation: Option<RollbackOperation>,
    pub unsupported: Vec<UnsupportedRollback>,
}

// ---------------------------------------------------------------------------
// What the journal claims
// ---------------------------------------------------------------------------

/// Among the first `n` entries, the latest of an action.
pub open spec fn latest(entries: Seq<EntryV>, action_id: Seq<char>, n: int) -> Option<EntryV>
    decreases n,
{
    if n <= 0 {
        None
    } else {
        let before = latest(entries, action_id, n - 1);
        let e = entries[n - 1];
        if e.action_id == action_id && (before matches Some(b) ==> e.sequence >= b.sequence) {
            Some(e)
        } else {
            before
        }
    }
}

/// Among the first `n` entries, the latest that tells how to undo an action.
pub open spec fn latest_inverse(entries: Seq<EntryV>, action_id: Seq<char>, n: int) -> Option<EntryV>
    decreases n,
{
    if n <= 0 {
        None
    } else {
        let before = latest_inverse(entries, action_id, n - 1);
        let e = entries[n - 1];
        if e.action_id == action_id && e.rollback is Some && (before matches Some(b) ==> e.sequence
            >= b.sequence) {
            Some(e)
        } else {
            before
        }
    }
}

/// An action that did not run, or was undone already.
pub open spec fn is_settled(status: JournalStatus) -> bool {
    status == JournalStatus::Skipped || status == JournalStatus::RolledBack
}

/// Whether an action may have run.
pub open spec fn may_have_run(entries: Seq<EntryV>, action_id: Seq<char>) -> bool {
    latest(entries, action_id, entries.len() as int) matches Some(e) ==> !is_settled(e.status)
}

/// How an action that may have run is undone, as far as the journal tells.
pub open spec fn claim(entries: Seq<EntryV>, action_id: Seq<char>) -> Option<RollbackV> {
    match latest_inverse(entries, action_id, entries.len() as int) {
        Some(e) => if may_have_run(entries, action_id) {
            e.rollback
        } else {
            None
        },
        None => None,
    }
}

/// The actions with a claim among the first `n` entries, in order.
pub open spec fn claimed_ids(entries: Seq<EntryV>, n: int) -> Seq<Seq<char>>
    decreases n,
{
    if n <= 0 {
        Seq::empty()
    } else {
        let before = claimed_ids(entries, n - 1);
        let id = entries[n - 1].action_id;
        if claim(entries, id) is Some {
            collections::with_text(before, id)
        } else {
            before
        }
    }
}

/// The claims of a journal, in the order of the actions' names.
pub open spec fn claims_of(entries: Seq<EntryV>) -> Seq<(Seq<char>, RollbackV)> {
    let ids = claimed_ids(entries, entries.len() as int);
    Seq::new(ids.len(), |i: int| (ids[i], claim(entries, ids[i])->0))
}

/// The latest entry of an action.
fn latest_entry<'a>(entries: &'a Vec<ActionJournalEntry>, action_id: &str) -> (r: Option<&'a ActionJournalEntry>)
    ensures
        ({
            let views = protocol::journal_views(entries@);
            match (r, latest(views, action_id@, views.len() as int)) {
                (Some(e), Some(model)) => e@ == model,
                (None, None) => true,
                _ => false,
            }
        }),
{
    let ghost views = protocol::journal_views(entries@);
    let mut found: Option<&'a ActionJournalEntry> = None;
    let mut i: usize = 0;
    while i < entries.len()
        invariant
            i <= entries@.len(),
            views == protocol::journal_views(entries@),
            match (found, latest(views, action_id@, i as int)) {
                (Some(e), Some(model)) => e@ == model,
                (None, None) => true,
                _ => false,
            },
        decreases entries.len() - i,
    {
        let e = &entries[i];
        assert(views[i as int] == e@);
        if text::same(e.action_id.as_str(), action_id) {
            let newer = match found {
                Some(b) => e.sequence >= b.sequence,
                None => true,
            };
            if newer {
                found = Some(e);
            }
        }
        i += 1;
    }
    found
}

/// The latest entry that tells how to undo an action.
fn latest_inverse_entry<'a>(entries: &'a Vec<ActionJournalEntry>, action_id: &str) -> (r: Option<
    &'a ActionJournalEntry,
>)
    ensures
        ({
            let views = protocol::journal_views(entries@);
            match (r, latest_inverse(views, action_id@, views.len() as int)) {
                (Some(e), Some(model)) => e@ == model && e.rollback is Some,
                (None, None) => true,
                _ => false,
            }
        }),
{
    let ghost views = protocol::journal_views(entries@);
    let mut found: Option<&'a ActionJournalEntry> = None;
    let mut i: usize = 0;
    while i < entries.len()
        invariant
            i <= entries@.len(),
            views == protocol::journal_views(entries@),
            match (found, latest_inverse(views, action_id@, i as int)) {
                (Some(e), Some(model)) => e@ == model && e.rollback is Some,
                (None, None) => true,
                _ => false,
            },
        decreases entries.len() - i,
    {
        let e = &entries[i];
        assert(views[i as int] == e@);
        if e.rollback.is_some() && text::same(e.action_id.as_str(), action_id) {
            let newer = match found {
                Some(b) => e.sequence >= b.sequence,
                None => true,
            };
            if newer {
                found = Some(e);
            }
        }
        i += 1;
    }
    found
}

/// Tests whether an action may have run.
pub fn rollback_action_may_have_run(item: &AppliedCapability, action_id: &str) -> (r: bool)
    ensures
        r == may_have_run(item@.journal, action_id@),
{
    match latest_entry(&item.journal, action_id) {
        None => true,
        Some(e) => !(e.status == JournalStatus::Skipped || e.status == JournalStatus::RolledBack),
    }
}

/// How an action that may have run is undone.
fn claim_for(item: &AppliedCapability, action_id: &str) -> (r: Option<RollbackMetadata>)
    ensures
        protocol::option_rollback(r) == claim(item@.journal, action_id@),
{
    match latest_inverse_entry(&item.journal, action_id) {
        None => None,
        Some(e) => if rollback_action_may_have_run(item, action_id) {
            protocol::duplicate_rollback(&e.rollback)
        } else {
            None
        },
    }
}

/// The claims of entries.
pub open spec fn claim_views(entries: Seq<(String, RollbackMetadata)>) -> Seq<(Seq<char>, RollbackV)> {
    Seq::new(entries.len(), |i: int| (entries[i].0@, entries[i].1@))
}

/// The claims of what was applied: how each action that may have run is undone. The latest
/// entry of an action counts.
pub fn rollback_claims(item: &AppliedCapability) -> (r: StringMap<RollbackMetadata>)
    ensures
        r.wf(),
        claim_views(r.entries@) == claims_of(item@.journal),
{
    let ghost views = item@.journal;
    let mut ids = StringSet::new();
    let mut i: usize = 0;
    while i < item.journal.len()
        invariant
            i <= item.journal@.len(),
            views == item@.journal,
            ids.wf(),
            ids@ == claimed_ids(views, i as int),
            forall|k: int| 0 <= k < ids@.len() ==> claim(views, #[trigger] ids@[k]) is Some,
        decreases item.journal.len() - i,
    {
        let id = item.journal[i].action_id.as_str();
        assert(views[i as int] == item.journal@[i as int]@);
        if claim_for(item, id).is_some() {
            let ghost before = ids@;
            ids.insert(id.to_owned());
            proof {
                collections::lemma_slot(before, id@);
                assert forall|k: int| 0 <= k < ids@.len() implies claim(views, #[trigger] ids@[k]) is Some by {
                    let at = collections::slot(before, id@);
                    if ids@.len() == before.len() || k < at {
                        if k < before.len() {
                            assert(claim(views, before[k]) is Some);
                        }
                    } else if k > at {
                        assert(claim(views, before[k - 1]) is Some);
                    }
                }
            }
        }
        i += 1;
    }
    let mut entries: Vec<(String, RollbackMetadata)> = Vec::new();
    let mut k: usize = 0;
    assert(ids.items@.len() == ids@.len());
    while k < ids.items.len()
        invariant
            k <= ids.items@.len(),
            views == item@.journal,
            ids@.len() == ids.items@.len(),
            forall|m: int| 0 <= m < ids@.len() ==> claim(views, #[trigger] ids@[m]) is Some,
            forall|m: int| 0 <= m < ids@.len() ==> #[trigger] ids@[m] == ids.items@[m]@,
            entries@.len() == k,
            forall|m: int|
                0 <= m < k ==> (#[trigger] entries@[m]).0@ == ids@[m] && claim(views, ids@[m]) == Some(
                    entries@[m].1@,
                ),
        decreases ids.items.len() - k,
    {
        let id = &ids.items[k];
        assert(ids@[k as int] == id@);
        if let Some(rollback) = claim_for(item, id.as_str()) {
            entries.push((id.clone(), rollback));
        }
        k += 1;
    }
    assert(claim_views(entries@) =~= claims_of(views));
    assert(collections::keys_of(entries@) =~= ids@);
    StringMap { entries }
}

// ---------------------------------------------------------------------------
// Limitations
// ---------------------------------------------------------------------------

/// The kind of the first action with a name.
pub open spec fn planned_kind(actions: Seq<ActionV>, action_id: Seq<char>) -> Option<Seq<char>>
    decreases actions.len(),
{
    if actions.len() == 0 {
        None
    } else if actions[0].id == action_id {
        Some(actions[0].kind)
    } else {
        planned_kind(actions.subrange(1, actions.len() as int), action_id)
    }
}

/// The kind of an action: that of the plan, else that of its inverse.
pub open spec fn kind_of(plan: PlanV, action_id: Seq<char>, rollback: RollbackV) -> Seq<char> {
    match planned_kind(plan.actions, action_id) {
        Some(kind) => kind,
        None => match rollback.action {
            Some(action) => action,
            None => "unknown"@,
        },
    }
}

/// The kind of an action.
pub fn rollback_action_kind(item: &AppliedCapability, action_id: &str, rollback: &RollbackMetadata) -> (r: String)
    ensures
        r@ == kind_of(item@.prepared.plan, action_id@, rollback@),
{
    let ghost actions = item@.prepared.plan.actions;
    let mut i: usize = 0;
    assert(actions.subrange(0, actions.len() as int) =~= actions);
    while i < item.prepared.plan.actions.len()
        invariant
            i <= item.prepared.plan.actions@.len(),
            actions == item@.prepared.plan.actions,
            planned_kind(actions, action_id@) == planned_kind(
                actions.subrange(i as int, actions.len() as int),
                action_id@,
            ),
        decreases item.prepared.plan.actions.len() - i,
    {
        let action = &item.prepared.plan.actions[i];
        let ghost rest = actions.subrange(i as int, actions.len() as int);
        assert(rest[0] == action@);
        if text::same(action.id.as_str(), action_id) {
            return action.kind.clone();
        }
        assert(rest.subrange(1, rest.len() as int) =~= actions.subrange(i + 1, actions.len() as int));
        i += 1;
    }
    match &rollback.action {
        Some(action) => action.clone(),
        None => "unknown".to_owned(),
    }
}

/// The reason that a plugin gives, or another.
pub open spec fn reason_of(rollback: RollbackV, default: Seq<char>) -> Seq<char> {
    match value::text_of(value::field(rollback.metadata, "reason"@)) {
        Some(reason) => reason,
        None => default,
    }
}

/// The reason that a plugin gives, or another.
fn reason(rollback: &RollbackMetadata, default: &str) -> (r: String)
    ensures
        r@ == reason_of(rollback@, default@),
{
    match rollback.metadata.get_str("reason") {
        Some(reason) => reason.to_owned(),
        None => default.to_owned(),
    }
}

/// The limitation of a claim.
pub open spec fn claim_limit(plan: PlanV, c: (Seq<char>, RollbackV), reason: Seq<char>) -> LimitV {
    LimitV { action_id: c.0, kind: kind_of(plan, c.0, c.1), reason }
}

/// The claims that are not supported, with the plugin's reasons.
pub open spec fn refused(plan: PlanV, claims: Seq<(Seq<char>, RollbackV)>) -> Seq<LimitV>
    decreases claims.len(),
{
    if claims.len() == 0 {
        Seq::empty()
    } else {
        let before = refused(plan, claims.drop_last());
        let c = claims.last();
        if c.1.supported {
            before
        } else {
            before.push(
                claim_limit(
                    plan,
                    c,
                    reason_of(c.1, "the plugin marked this action as non-reversible"@),
                ),
            )
        }
    }
}

/// The claims that are supported, with a reason why they are of no use here.
pub open spec fn stranded(plan: PlanV, claims: Seq<(Seq<char>, RollbackV)>, reason: Seq<char>) -> Seq<LimitV>
    decreases claims.len(),
{
    if claims.len() == 0 {
        Seq::empty()
    } else {
        let before = stranded(plan, claims.drop_last(), reason);
        if claims.last().1.supported {
            before.push(claim_limit(plan, claims.last(), reason))
        } else {
            before
        }
    }
}

/// The limitations of a target that existed before.
pub open spec fn target_limits(plan: PlanV, claims: Seq<(Seq<char>, RollbackV)>) -> Seq<LimitV> {
    Seq::new(
        claims.len(),
        |i: int|
            claim_limit(
                plan,
                claims[i],
                if claims[i].1.supported {
                    "the target already existed, so its aggregate destroy operation is not a safe action inverse"@
                } else {
                    reason_of(claims[i].1, "the plugin marked this target action as non-reversible"@)
                },
            ),
    )
}

/// The planned actions that may have run and that nothing is claimed of.
pub open spec fn unclaimed(actions: Seq<ActionV>, entries: Seq<EntryV>, reason: Seq<char>) -> Seq<LimitV>
    decreases actions.len(),
{
    if actions.len() == 0 {
        Seq::empty()
    } else {
        let before = unclaimed(actions.drop_last(), entries, reason);
        let a = actions.last();
        if claim(entries, a.id) is None && may_have_run(entries, a.id) {
            before.push(LimitV { action_id: a.id, kind: a.kind, reason })
        } else {
            before
        }
    }
}

/// What is missing to restore a runtime.
pub open spec fn missing_inverses(plan: PlanV, entries: Seq<EntryV>, reason: Seq<char>) -> Seq<LimitV> {
    if plan.actions.len() == 0 {
        seq![LimitV { action_id: "runtime"@, kind: "runtime"@, reason }]
    } else {
        unclaimed(plan.actions, entries, reason)
    }
}

/// The claims of a journal hold an action exactly where it may have run and some entry tells
/// how to undo it.
pub proof fn claims_are_complete(entries: Seq<EntryV>, action_id: Seq<char>)
    ensures
        (exists|i: int| 0 <= i < claims_of(entries).len() && (#[trigger] claims_of(entries)[i]).0 == action_id)
            <==> claim(entries, action_id) is Some,
{
    let n = entries.len() as int;
    let ids = claimed_ids(entries, n);
    lemma_claimed_ids(entries, n, action_id);
    if claim(entries, action_id) is Some {
        lemma_latest_inverse(entries, action_id, n);
        assert(ids.contains(action_id));
        let i = choose|i: int| 0 <= i < ids.len() && ids[i] == action_id;
        assert(claims_of(entries)[i].0 == action_id);
    }
    if exists|i: int| 0 <= i < claims_of(entries).len() && (#[trigger] claims_of(entries)[i]).0 == action_id {
        let i = choose|i: int|
            0 <= i < claims_of(entries).len() && (#[trigger] claims_of(entries)[i]).0 == action_id;
        assert(ids[i] == action_id);
        assert(ids.contains(action_id));
    }
}

/// A latest inverse is one of the entries.
proof fn lemma_latest_inverse(entries: Seq<EntryV>, action_id: Seq<char>, n: int)
    requires
        n <= entries.len(),
        latest_inverse(entries, action_id, n) is Some,
    ensures
        exists|i: int| 0 <= i < n && (#[trigger] entries[i]).action_id == action_id,
    decreases n,
{
    if n > 0 {
        if latest_inverse(entries, action_id, n - 1) is Some {
            lemma_latest_inverse(entries, action_id, n - 1);
        } else {
            assert(entries[n - 1].action_id == action_id);
        }
    }
}

/// The claimed actions are those with a claim that occur.
proof fn lemma_claimed_ids(entries: Seq<EntryV>, n: int, action_id: Seq<char>)
    requires
        n <= entries.len(),
    ensures
        claimed_ids(entries, n).contains(action_id) <==> (claim(entries, action_id) is Some && exists|i: int|
            0 <= i < n && (#[trigger] entries[i]).action_id == action_id),
        collections::ordered(claimed_ids(entries, n)),
    decreases n,
{
    if n > 0 {
        lemma_claimed_ids(entries, n - 1, action_id);
        let before = claimed_ids(entries, n - 1);
        let id = entries[n - 1].action_id;
        if claim(entries, id) is Some {
            collections::lemma_with_text(before, id);
            assert(claimed_ids(entries, n).contains(action_id) <==> before.contains(action_id) || action_id
                == id);
        }
        if exists|i: int| 0 <= i < n && (#[trigger] entries[i]).action_id == action_id {
            let i = choose|i: int| 0 <= i < n && (#[trigger] entries[i]).action_id == action_id;
            if i < n - 1 {
                assert(entries[i].action_id == action_id);
            }
        }
    } else {
        assert(claimed_ids(entries, n) =~= Seq::<Seq<char>>::empty());
    }
}

/// The planned actions that may have run and that nothing is claimed of.
fn unclaimed_limits(item: &AppliedCapability, reason: &str) -> (r: Vec<UnsupportedRollback>)
    ensures
        limit_views(r@) == unclaimed(item@.prepared.plan.actions, item@.journal, reason@),
{
    let ghost actions = item@.prepared.plan.actions;
    let ghost entries = item@.journal;
    let mut out: Vec<UnsupportedRollback> = Vec::new();
    let mut i: usize = 0;
    assert(actions.take(0) =~= Seq::<ActionV>::empty());
    assert(limit_views(out@) =~= Seq::<LimitV>::empty());
    while i < item.prepared.plan.actions.len()
        invariant
            i <= item.prepared.plan.actions@.len(),
            actions == item@.prepared.plan.actions,
            entries == item@.journal,
            limit_views(out@) == unclaimed(actions.take(i as int), entries, reason@),
        decreases item.prepared.plan.actions.len() - i,
    {
        let action = &item.prepared.plan.actions[i];
        let ghost before = out@;
        proof {
            assert(actions.take(i + 1).drop_last() =~= actions.take(i as int));
            assert(actions.take(i + 1).last() == action@);
        }
        if claim_for(item, action.id.as_str()).is_none() && rollback_action_may_have_run(
            item,
            action.id.as_str(),
        ) {
            let limit = UnsupportedRollback {
                action_id: action.id.clone(),
                kind: action.kind.clone(),
                reason: reason.to_owned(),
            };
            out.push(limit);
            assert(limit_views(out@) =~= limit_views(before).push(limit@));
        }
        i += 1;
    }
    assert(actions.take(actions.len() as int) =~= actions);
    out
}

/// What is missing to restore a runtime.
pub fn missing_runtime_inverse_limitations(item: &AppliedCapability, reason: &str) -> (r: Vec<UnsupportedRollback>)
    ensures
        limit_views(r@) == missing_inverses(item@.prepared.plan, item@.journal, reason@),
{
    if item.prepared.plan.actions.len() == 0 {
        let mut out: Vec<UnsupportedRollback> = Vec::new();
        out.push(
            UnsupportedRollback {
                action_id: "runtime".to_owned(),
                kind: "runtime".to_owned(),
                reason: reason.to_owned(),
            },
        );
        assert(limit_views(out@) =~= seq![
            LimitV { action_id: "runtime"@, kind: "runtime"@, reason: reason@ },
        ]);
        return out;
    }
    unclaimed_limits(item, reason)
}

/// The claims that are not supported, with the plugin's reasons.
fn refused_limits(item: &AppliedCapability, claims: &StringMap<RollbackMetadata>) -> (r: Vec<
    UnsupportedRollback,
>)
    ensures
        limit_views(r@) == refused(item@.prepared.plan, claim_views(claims.entries@)),
{
    let ghost plan = item@.prepared.plan;
    let ghost all = claim_views(claims.entries@);
    let mut out: Vec<UnsupportedRollback> = Vec::new();
    let mut i: usize = 0;
    assert(all.take(0) =~= Seq::<(Seq<char>, RollbackV)>::empty());
    assert(limit_views(out@) =~= Seq::<LimitV>::empty());
    while i < claims.entries.len()
        invariant
            i <= claims.entries@.len(),
            plan == item@.prepared.plan,
            all == claim_views(claims.entries@),
            limit_views(out@) == refused(plan, all.take(i as int)),
        decreases claims.entries.len() - i,
    {
        let id = claims.entries[i].0.as_str();
        let rollback = &claims.entries[i].1;
        let ghost before = out@;
        proof {
            assert(all.take(i + 1).drop_last() =~= all.take(i as int));
            assert(all.take(i + 1).last() == (id@, rollback@));
        }
        if !rollback.supported {
            let limit = UnsupportedRollback {
                action_id: id.to_owned(),
                kind: rollback_action_kind(item, id, rollback),
                reason: reason(rollback, "the plugin marked this action as non-reversible"),
            };
            out.push(limit);
            assert(limit_views(out@) =~= limit_views(before).push(limit@));
        }
        i += 1;
    }
    assert(all.take(all.len() as int) =~= all);
    out
}

/// The claims that are supported, with a reason why they are of no use here.
fn stranded_limits(item: &AppliedCapability, claims: &StringMap<RollbackMetadata>, reason: &str) -> (r: Vec<
    UnsupportedRollback,
>)
    ensures
        limit_views(r@) == stranded(item@.prepared.plan, claim_views(claims.entries@), reason@),
{
    let ghost plan = item@.prepared.plan;
    let ghost all = claim_views(claims.entries@);
    let mut out: Vec<UnsupportedRollback> = Vec::new();
    let mut i: usize = 0;
    assert(all.take(0) =~= Seq::<(Seq<char>, RollbackV)>::empty());
    assert(limit_views(out@) =~= Seq::<LimitV>::empty());
    while i < claims.entries.len()
        invariant
            i <= claims.entries@.len(),
            plan == item@.prepared.plan,
            all == claim_views(claims.entries@),
            limit_views(out@) == stranded(plan, all.take(i as int), reason@),
        decreases claims.entries.len() - i,
    {
        let id = claims.entries[i].0.as_str();
        let rollback = &claims.entries[i].1;
        let ghost before = out@;
        proof {
            assert(all.take(i + 1).drop_last() =~= all.take(i as int));
            assert(all.take(i + 1).last() == (id@, rollback@));
        }
        if rollback.supported {
            let limit = UnsupportedRollback {
                action_id: id.to_owned(),
                kind: rollback_action_kind(item, id, rollback),
                reason: reason.to_owned(),
            };
            out.push(limit);
            assert(limit_views(out@) =~= limit_views(before).push(limit@));
        }
        i += 1;
    }
    assert(all.take(all.len() as int) =~= all);
    out
}

/// The limitations of a target that existed before.
fn existing_target_limits(item: &AppliedCapability, claims: &StringMap<RollbackMetadata>) -> (r: Vec<
    UnsupportedRollback,
>)
    ensures
        limit_views(r@) == target_limits(item@.prepared.plan, claim_views(claims.entries@)),
{
    let ghost plan = item@.prepared.plan;
    let ghost all = claim_views(claims.entries@);
    let mut out: Vec<UnsupportedRollback> = Vec::new();
    let mut i: usize = 0;
    while i < claims.entries.len()
        invariant
            i <= claims.entries@.len(),
            plan == item@.prepared.plan,
            all == claim_views(claims.entries@),
            out@.len() == i,
            forall|k: int| 0 <= k < i ==> (#[trigger] out@[k])@ == target_limits(plan, all)[k],
        decreases claims.entries.len() - i,
    {
        let id = claims.entries[i].0.as_str();
        let rollback = &claims.entries[i].1;
        assert(all[i as int] == (id@, rollback@));
        let limit = UnsupportedRollback {
            action_id: id.to_owned(),
            kind: rollback_action_kind(item, id, rollback),
            reason: if rollback.supported {
                "the target already existed, so its aggregate destroy operation is not a safe action inverse".to_owned()
            } else {
                reason(rollback, "the plugin marked this target action as non-reversible")
            },
        };
        assert(limit@ == target_limits(plan, all)[i as int]);
        out.push(limit);
        i += 1;
    }
    assert(limit_views(out@) =~= target_limits(plan, all));
    out
}

// ---------------------------------------------------------------------------
// Classification
// ---------------------------------------------------------------------------

/// The revision that a runtime had before.
pub open spec fn prior_revision(item: PreparedV) -> Option<Seq<char>> {
    value::text_of(value::field(item.current.state, "revision"@))
}

/// The revision that a runtime had before.
pub fn prior_runtime_revision(item: &PreparedCapability) -> (r: Option<&str>)
    ensures
        match r {
            Some(s) => prior_revision(item@) == Some(s@),
            None => prior_revision(item@) is None,
        },
{
    item.current.state.get_str("revision")
}

/// Whether any claim is supported.
pub open spec fn has_supported(claims: Seq<(Seq<char>, RollbackV)>) -> bool {
    exists|i: int| 0 <= i < claims.len() && (#[trigger] claims[i]).1.supported
}

/// Tests whether any claim is supported.
fn any_supported(claims: &StringMap<RollbackMetadata>) -> (r: bool)
    ensures
        r == has_supported(claim_views(claims.entries@)),
{
    let ghost all = claim_views(claims.entries@);
    let mut i: usize = 0;
    while i < claims.entries.len()
        invariant
            i <= claims.entries@.len(),
            all == claim_views(claims.entries@),
            forall|k: int| 0 <= k < i ==> !(#[trigger] all[k]).1.supported,
        decreases claims.entries.len() - i,
    {
        assert(all[i as int].1 == claims.entries@[i as int].1@);
        if claims.entries[i].1.supported {
            return true;
        }
        i += 1;
    }
    false
}

/// Why a runtime without an inverse stays as it is.
pub open spec fn no_inverse() -> Seq<char> {
    "the existing runtime plan advertised no supported inverse"@
}

/// How a capability is undone.
pub open spec fn undo_of(item: AppliedV) -> Option<RollbackOperation> {
    let claims = claims_of(item.journal);
    let absent = item.prepared.current.status == ResourceStatus::Absent;
    match item.prepared.capability {
        Capability::Source => None,
        Capability::Builder => None,
        Capability::Target => if absent {
            Some(RollbackOperation::Cleanup)
        } else {
            None
        },
        Capability::Runtime => if absent {
            Some(RollbackOperation::Cleanup)
        } else if prior_revision(item.prepared) is Some && has_supported(claims) {
            Some(RollbackOperation::Rollback)
        } else {
            None
        },
        _ => if !has_supported(claims) {
            None
        } else if absent {
            Some(RollbackOperation::Cleanup)
        } else {
            Some(RollbackOperation::Rollback)
        },
    }
}

/// What stays when a capability is undone.
pub open spec fn limits_of(item: AppliedV) -> Seq<LimitV> {
    let plan = item.prepared.plan;
    let claims = claims_of(item.journal);
    let absent = item.prepared.current.status == ResourceStatus::Absent;
    match item.prepared.capability {
        Capability::Source => Seq::empty(),
        Capability::Builder => Seq::empty(),
        Capability::Target => if absent {
            Seq::empty()
        } else {
            target_limits(plan, claims) + unclaimed(
                plan.actions,
                item.journal,
                "the existing target action advertised no automatic rollback contract"@,
            )
        },
        Capability::Runtime => if absent {
            Seq::empty()
        } else if prior_revision(item.prepared) is None {
            refused(plan, claims) + stranded(
                plan,
                claims,
                "the existing runtime has no observed prior revision to restore"@,
            ) + missing_inverses(plan, item.journal, no_inverse())
        } else {
            refused(plan, claims) + missing_inverses(plan, item.journal, no_inverse())
        },
        _ => refused(plan, claims),
    }
}

/// Appends limitations.
fn extend(limits: &mut Vec<UnsupportedRollback>, more: Vec<UnsupportedRollback>)
    ensures
        limit_views(final(limits)@) == limit_views(old(limits)@) + limit_views(more@),
{
    let ghost before = limits@;
    let mut more = more;
    let ghost tail = more@;
    limits.append(&mut more);
    assert(limit_views(limits@) =~= limit_views(before) + limit_views(tail));
}

/// Decides how a capability is undone, and what stays.
///
/// Source resolution has no remote side effects, and builder artifacts are immutable cache.
/// A whole target or runtime is removed only where it did not exist before. An existing
/// runtime is restored where its revision was observed and an inverse is supported. Exposure
/// and DNS are undone only where a plugin advertises an inverse.
pub fn classify_rollback(item: &AppliedCapability) -> (r: RollbackClassification)
    ensures
        r.operation == undo_of(item@),
        limit_views(r.unsupported@) == limits_of(item@),
{
    let none: Vec<UnsupportedRollback> = Vec::new();
    assert(limit_views(none@) =~= Seq::<LimitV>::empty());
    let claims = rollback_claims(item);
    let absent = item.prepared.current.status == ResourceStatus::Absent;
    match item.prepared.capability {
        Capability::Source | Capability::Builder => RollbackClassification {
            operation: None,
            unsupported: none,
        },
        Capability::Target => {
            if absent {
                return RollbackClassification {
                    operation: Some(RollbackOperation::Cleanup),
                    unsupported: none,
                };
            }
            let mut unsupported = existing_target_limits(item, &claims);
            extend(
                &mut unsupported,
                unclaimed_limits(
                    item,
                    "the existing target action advertised no automatic rollback contract",
                ),
            );
            RollbackClassification { operation: None, unsupported }
        },
        Capability::Runtime => {
            if absent {
                return RollbackClassification {
                    operation: Some(RollbackOperation::Cleanup),
                    unsupported: none,
                };
            }
            let mut unsupported = refused_limits(item, &claims);
            let restorable = prior_runtime_revision(&item.prepared).is_some();
            if !restorable {
                extend(
                    &mut unsupported,
                    stranded_limits(
                        item,
                        &claims,
                        "the existing runtime has no observed prior revision to restore",
                    ),
                );
            }
            extend(
                &mut unsupported,
                missing_runtime_inverse_limitations(
                    item,
                    "the existing runtime plan advertised no supported inverse",
                ),
            );
            let operation = if restorable && any_supported(&claims) {
                Some(RollbackOperation::Rollback)
            } else {
                None
            };
            RollbackClassification { operation, unsupported }
        },
        Capability::Exposure | Capability::Dns => {
            let operation = if !any_supported(&claims) {
                None
            } else if absent {
                Some(RollbackOperation::Cleanup)
            } else {
                Some(RollbackOperation::Rollback)
            };
            RollbackClassification { operation, unsupported: refused_limits(item, &claims) }
        },
    }
}

/// An existing target, or a runtime that existed before, is never removed as a whole.
pub proof fn existing_resources_are_never_removed(item: AppliedV)
    requires
        item.prepared.current.status != ResourceStatus::Absent,
    ensures
        undo_of(item) != Some(RollbackOperation::Cleanup),
        item.prepared.capability == Capability::Target ==> undo_of(item) is None,
{
}

/// A supported inverse of a runtime that is not carried out is reported.
pub proof fn stranded_inverses_are_reported(item: AppliedV, i: int)
    requires
        item.prepared.capability == Capability::Runtime,
        item.prepared.current.status != ResourceStatus::Absent,
        undo_of(item) is None,
        0 <= i < claims_of(item.journal).len(),
        claims_of(item.journal)[i].1.supported,
    ensures
        exists|k: int|
            0 <= k < limits_of(item).len() && (#[trigger] limits_of(item)[k]).action_id == claims_of(
                item.journal,
            )[i].0,
{
    let plan = item.prepared.plan;
    let claims = claims_of(item.journal);
    assert(claims[i].1.supported);
    assert(has_supported(claims));
    assert(prior_revision(item.prepared) is None);
    let reason = "the existing runtime has no observed prior revision to restore"@;
    lemma_stranded(plan, claims, reason, i);
    let list = stranded(plan, claims, reason);
    let k = choose|k: int| 0 <= k < list.len() && (#[trigger] list[k]).action_id == claims[i].0;
    let all = limits_of(item);
    let at = refused(plan, claims).len() + k;
    assert(all[at] == list[k]);
}

/// A supported claim is among those that are stranded.
proof fn lemma_stranded(plan: PlanV, claims: Seq<(Seq<char>, RollbackV)>, reason: Seq<char>, i: int)
    requires
        0 <= i < claims.len(),
        claims[i].1.supported,
    ensures
        exists|k: int|
            0 <= k < stranded(plan, claims, reason).len() && (#[trigger] stranded(
                plan,
                claims,
                reason,
            )[k]).action_id == claims[i].0,
    decreases claims.len(),
{
    let before = claims.drop_last();
    let list = stranded(plan, claims, reason);
    let shorter = stranded(plan, before, reason);
    if i < before.len() {
        assert(before[i] == claims[i]);
        lemma_stranded(plan, before, reason, i);
        let k = choose|k: int| 0 <= k < shorter.len() && (#[trigger] shorter[k]).action_id == before[i].0;
        assert(list[k] == shorter[k]);
    } else {
        assert(list[shorter.len() as int].action_id == claims[i].0);
    }
}

/// Capabilities are undone in the reverse of the order in which they were applied.
pub open spec fn undo_order(n: nat) -> Seq<int> {
    Seq::new(n, |i: int| n - 1 - i)
}

/// The places of applied capabilities, in the order in which they are undone.
pub fn rollback_order(applied: &Vec<AppliedCapability>) -> (r: Vec<usize>)
    ensures
        r@.len() == applied@.len(),
        forall|i: int| 0 <= i < r@.len() ==> #[trigger] r@[i] == undo_order(applied@.len())[i],
{
    let mut out: Vec<usize> = Vec::new();
    let mut n: usize = applied.len();
    while n > 0
        invariant
            n <= applied@.len(),
            out@.len() == applied@.len() - n,
            forall|i: int| 0 <= i < out@.len() ==> #[trigger] out@[i] == undo_order(applied@.len())[i],
        decreases n,
    {
        n -= 1;
        out.push(n);
    }
    out
}

// ---------------------------------------------------------------------------
// Secrets
// ---------------------------------------------------------------------------

/// Whether a manifest declares a secret by its exact name.
pub open spec fn declares_exactly(required: Seq<SecretRequirement>, name: Seq<char>) -> bool {
    name != "*"@ && exists|i: int| 0 <= i < required.len() && (#[trigger] required[i]).name@ == name
}

/// Tests whether a manifest declares a secret by its exact name.
pub fn declares(required: &Vec<SecretRequirement>, name: &str) -> (r: bool)
    ensures
        r == declares_exactly(required@, name@),
{
    if text::same(name, "*") {
        return false;
    }
    let mut i: usize = 0;
    while i < required.len()
        invariant
            i <= required@.len(),
            name@ != "*"@,
            forall|k: int| 0 <= k < i ==> (#[trigger] required@[k]).name@ != name@,
        decreases required.len() - i,
    {
        if text::same(required[i].name.as_str(), name) {
            return true;
        }
        i += 1;
    }
    false
}

/// The secrets that a manifest declares by their exact names.
pub open spec fn exact_secrets(
    required: Seq<SecretRequirement>,
    secrets: Seq<(Seq<char>, Seq<char>)>,
) -> Seq<(Seq<char>, Seq<char>)>
    decreases secrets.len(),
{
    if secrets.len() == 0 {
        Seq::empty()
    } else {
        let before = exact_secrets(required, secrets.drop_last());
        if declares_exactly(required, secrets.last().0) {
            before.push(secrets.last())
        } else {
            before
        }
    }
}

/// Keeps the provider credentials that a plugin needs for a cleanup, and drops application
/// values that only a wildcard admitted.
pub fn scope_rollback_cleanup_secrets(manifest: &PluginManifest, secrets: &mut StringMap<SecretValue>)
    ensures
        models::secret_views(final(secrets).entries@) == exact_secrets(
            manifest.required_secrets@,
            models::secret_views(old(secrets).entries@),
        ),
{
    let ghost all = models::secret_views(secrets.entries@);
    let ghost required = manifest.required_secrets@;
    let mut kept: Vec<(String, SecretValue)> = Vec::new();
    let mut i: usize = 0;
    assert(all.take(0) =~= Seq::<(Seq<char>, Seq<char>)>::empty());
    assert(models::secret_views(kept@) =~= Seq::<(Seq<char>, Seq<char>)>::empty());
    while i < secrets.entries.len()
        invariant
            i <= secrets.entries@.len(),
            all == models::secret_views(secrets.entries@),
            required == manifest.required_secrets@,
            models::secret_views(kept@) == exact_secrets(required, all.take(i as int)),
        decreases secrets.entries.len() - i,
    {
        let entry = &secrets.entries[i];
        let ghost before = kept@;
        proof {
            assert(all.take(i + 1).drop_last() =~= all.take(i as int));
            assert(all.take(i + 1).last() == (entry.0@, entry.1@));
        }
        if declares(&manifest.required_secrets, entry.0.as_str()) {
            let copy = (entry.0.clone(), entry.1.clone());
            kept.push(copy);
            assert(models::secret_views(kept@) =~= models::secret_views(before).push((copy.0@, copy.1@)));
        }
        i += 1;
    }
    assert(all.take(all.len() as int) =~= all);
    secrets.entries = kept;
}

/// No secret that a manifest does not declare by its name reaches a cleanup.
pub proof fn cleanup_sees_declared_secrets_alone(
    required: Seq<SecretRequirement>,
    secrets: Seq<(Seq<char>, Seq<char>)>,
)
    ensures
        forall|i: int|
            0 <= i < exact_secrets(required, secrets).len() ==> declares_exactly(
                required,
                (#[trigger] exact_secrets(required, secrets)[i]).0,
            ) && secrets.contains(exact_secrets(required, secrets)[i]),
    decreases secrets.len(),
{
    if secrets.len() > 0 {
        let before = secrets.drop_last();
        cleanup_sees_declared_secrets_alone(required, before);
        let kept = exact_secrets(required, secrets);
        let fewer = exact_secrets(required, before);
        assert forall|i: int| 0 <= i < kept.len() implies declares_exactly(
            required,
            (#[trigger] kept[i]).0,
        ) && secrets.contains(kept[i]) by {
            if i < fewer.len() {
                assert(kept[i] == fewer[i]);
                let k = choose|k: int| 0 <= k < before.len() && before[k] == fewer[i];
                assert(secrets[k] == kept[i]);
            } else {
                assert(secrets[secrets.len() - 1] == kept[i]);
            }
        }
    }
}

/// A cleanup removes what was created: it starts from the state that applying left, where that is
/// known. A rollback starts from what was there before.
pub proof fn undoing_starts_from_the_right_state(item: AppliedV)
    ensures
        undo_state(item, RollbackOperation::Rollback) == item.prepared.current.state,
        item.post_apply_state matches Some(state) ==> undo_state(item, RollbackOperation::Cleanup) == state,
        item.post_apply_state is None ==> undo_state(item, RollbackOperation::Cleanup)
            == item.prepared.current.state,
{
}

/// The entry that tells last what became of an action: each other entry of the action has a
/// smaller number.
pub open spec fn is_last_word(entries: Seq<EntryV>, i: int) -> bool {
    0 <= i < entries.len() && forall|j: int|
        0 <= j < entries.len() && j != i && (#[trigger] entries[j]).action_id == entries[i].action_id
            ==> entries[j].sequence < entries[i].sequence
}

/// Up to an entry that tells last what became of an action, and from it on.
proof fn lemma_last_word(entries: Seq<EntryV>, i: int, n: int)
    requires
        is_last_word(entries, i),
        0 <= n <= entries.len(),
    ensures
        i < n ==> latest(entries, entries[i].action_id, n) == Some(entries[i]),
        i < n && entries[i].rollback is Some ==> latest_inverse(entries, entries[i].action_id, n) == Some(
            entries[i],
        ),
        latest(entries, entries[i].action_id, n) matches Some(e) ==> e.sequence <= entries[i].sequence,
        latest_inverse(entries, entries[i].action_id, n) matches Some(e) ==> e.sequence <= entries[i].sequence,
    decreases n,
{
    if n > 0 {
        lemma_last_word(entries, i, n - 1);
        assert(n - 1 != i && entries[n - 1].action_id == entries[i].action_id ==> entries[n - 1].sequence
            < entries[i].sequence);
    }
}

/// What the journal tells last of an action decides whether the action is undone: nothing is
/// claimed of one that was skipped or undone already, however it was told before, and else the
/// inverse that was told last is claimed.
pub proof fn last_entries_decide(entries: Seq<EntryV>, i: int)
    requires
        is_last_word(entries, i),
    ensures
        entries[i].status == JournalStatus::Skipped || entries[i].status == JournalStatus::RolledBack
            ==> claim(entries, entries[i].action_id) is None && !may_have_run(entries, entries[i].action_id),
        entries[i].status != JournalStatus::Skipped && entries[i].status != JournalStatus::RolledBack
            ==> may_have_run(entries, entries[i].action_id) && (entries[i].rollback is Some ==> claim(
            entries,
            entries[i].action_id,
        ) == entries[i].rollback),
{
    lemma_last_word(entries, i, entries.len() as int);
}

/// An entry that tells last of an action how to undo it is among the claims.
proof fn lemma_claim_listed(entries: Seq<EntryV>, i: int) -> (k: int)
    requires
        is_last_word(entries, i),
        entries[i].status != JournalStatus::Skipped,
        entries[i].status != JournalStatus::RolledBack,
        entries[i].rollback is Some,
    ensures
        0 <= k < claims_of(entries).len(),
        claims_of(entries)[k] == (entries[i].action_id, entries[i].rollback->0),
{
    last_entries_decide(entries, i);
    claims_are_complete(entries, entries[i].action_id);
    choose|k: int|
        0 <= k < claims_of(entries).len() && (#[trigger] claims_of(entries)[k]).0 == entries[i].action_id
}

/// Exposures and names that the journal tells how to undo are undone: what was not there before is
/// removed, and what was there is put back.
pub proof fn supported_inverses_are_used(item: AppliedV, i: int)
    requires
        is_last_word(item.journal, i),
        item.journal[i].status != JournalStatus::Skipped,
        item.journal[i].status != JournalStatus::RolledBack,
        item.journal[i].rollback matches Some(inverse) && inverse.supported,
    ensures
        item.prepared.capability != Capability::Source && item.prepared.capability != Capability::Builder
            && item.prepared.current.status == ResourceStatus::Absent ==> undo_of(item) == Some(
            RollbackOperation::Cleanup,
        ),
        item.prepared.capability != Capability::Source && item.prepared.capability != Capability::Builder
            && item.prepared.capability != Capability::Target && item.prepared.capability != Capability::Runtime
            && item.prepared.current.status != ResourceStatus::Absent ==> undo_of(item) == Some(
            RollbackOperation::Rollback,
        ),
        item.prepared.capability == Capability::Runtime && item.prepared.current.status != ResourceStatus::Absent ==> (
        undo_of(item) == Some(RollbackOperation::Rollback) <==> (value::field(
            item.prepared.current.state,
            "revision"@,
        ) matches Some(v) && v is Str)),
{
    let k = lemma_claim_listed(item.journal, i);
    assert(claims_of(item.journal)[k].1.supported);
}

/// A target or a runtime that was not there before is removed whatever the journal tells, and
/// nothing is then left to report; sources and builds have nothing to undo.
pub proof fn created_resources_are_removed(item: AppliedV)
    ensures
        (item.prepared.capability == Capability::Target || item.prepared.capability == Capability::Runtime)
            && item.prepared.current.status == ResourceStatus::Absent ==> undo_of(item) == Some(
            RollbackOperation::Cleanup,
        ) && limits_of(item).len() == 0,
        item.prepared.capability == Capability::Source || item.prepared.capability == Capability::Builder
            ==> undo_of(item) is None && limits_of(item).len() == 0,
{
}

/// A claim that is not supported is refused with the reason of its plugin.
proof fn lemma_refused(plan: PlanV, claims: Seq<(Seq<char>, RollbackV)>, i: int) -> (k: int)
    requires
        0 <= i < claims.len(),
        !claims[i].1.supported,
    ensures
        0 <= k < refused(plan, claims).len(),
        refused(plan, claims)[k].action_id == claims[i].0,
        value::field(claims[i].1.metadata, "reason"@) matches Some(v) ==> (v matches DataV::Str(reason)
            ==> refused(plan, claims)[k].reason == reason),
    decreases claims.len(),
{
    if i == claims.len() - 1 {
        refused(plan, claims).len() - 1
    } else {
        lemma_refused(plan, claims.drop_last(), i)
    }
}

/// An action that its plugin cannot undo is reported, with the reason that the plugin gives,
/// wherever undoing does not remove all that was made.
pub proof fn refused_inverses_are_reported(item: AppliedV, i: int)
    requires
        is_last_word(item.journal, i),
        item.journal[i].status != JournalStatus::Skipped,
        item.journal[i].status != JournalStatus::RolledBack,
        item.journal[i].rollback matches Some(inverse) && !inverse.supported,
        item.prepared.capability != Capability::Source,
        item.prepared.capability != Capability::Builder,
        item.prepared.current.status != ResourceStatus::Absent || (item.prepared.capability != Capability::Target
            && item.prepared.capability != Capability::Runtime),
    ensures
        exists|k: int|
            0 <= k < limits_of(item).len() && (#[trigger] limits_of(item)[k]).action_id
                == item.journal[i].action_id && (value::field(
                item.journal[i].rollback->0.metadata,
                "reason"@,
            ) matches Some(v) ==> (v matches DataV::Str(reason) ==> limits_of(item)[k].reason == reason)),
{
    let plan = item.prepared.plan;
    let claims = claims_of(item.journal);
    let c = lemma_claim_listed(item.journal, i);
    if item.prepared.capability == Capability::Target {
        assert(limits_of(item)[c] == target_limits(plan, claims)[c]);
    } else {
        let k = lemma_refused(plan, claims, c);
        assert(limits_of(item)[k] == refused(plan, claims)[k]);
    }
}

/// An action that may have run and that nothing is claimed of is listed.
proof fn lemma_unclaimed(actions: Seq<ActionV>, entries: Seq<EntryV>, reason: Seq<char>, i: int) -> (k: int)
    requires
        0 <= i < actions.len(),
        claim(entries, actions[i].id) is None,
        may_have_run(entries, actions[i].id),
    ensures
        0 <= k < unclaimed(actions, entries, reason).len(),
        unclaimed(actions, entries, reason)[k].action_id == actions[i].id,
        unclaimed(actions, entries, reason)[k].kind == actions[i].kind,
    decreases actions.len(),
{
    if i == actions.len() - 1 {
        unclaimed(actions, entries, reason).len() - 1
    } else {
        lemma_unclaimed(actions.drop_last(), entries, reason, i)
    }
}

/// An action that no entry speaks of may have run, and nothing is claimed of it.
proof fn lemma_silent(entries: Seq<EntryV>, id: Seq<char>, n: int)
    requires
        0 <= n <= entries.len(),
        forall|j: int| 0 <= j < n ==> (#[trigger] entries[j]).action_id != id,
    ensures
        latest(entries, id, n) is None,
        latest_inverse(entries, id, n) is None,
    decreases n,
{
    if n > 0 {
        lemma_silent(entries, id, n - 1);
        assert(entries[n - 1].action_id != id);
    }
}

/// A planned action on a target or a runtime that was there before is reported where the journal
/// says nothing of it: it may have run, and nobody knows how to undo it.
pub proof fn silent_actions_are_reported(item: AppliedV, i: int)
    requires
        item.prepared.capability == Capability::Target || item.prepared.capability == Capability::Runtime,
        item.prepared.current.status != ResourceStatus::Absent,
        0 <= i < item.prepared.plan.actions.len(),
        forall|j: int|
            0 <= j < item.journal.len() ==> (#[trigger] item.journal[j]).action_id
                != item.prepared.plan.actions[i].id,
    ensures
        exists|k: int|
            0 <= k < limits_of(item).len() && (#[trigger] limits_of(item)[k]).action_id
                == item.prepared.plan.actions[i].id && limits_of(item)[k].kind
                == item.prepared.plan.actions[i].kind,
{
    let plan = item.prepared.plan;
    let claims = claims_of(item.journal);
    lemma_silent(item.journal, plan.actions[i].id, item.journal.len() as int);
    if item.prepared.capability == Capability::Target {
        let reason = "the existing target action advertised no automatic rollback contract"@;
        let k = lemma_unclaimed(plan.actions, item.journal, reason, i);
        let before = target_limits(plan, claims);
        assert(limits_of(item)[before.len() + k] == unclaimed(plan.actions, item.journal, reason)[k]);
    } else {
        let k = lemma_unclaimed(plan.actions, item.journal, no_inverse(), i);
        let before = if prior_revision(item.prepared) is None {
            refused(plan, claims) + stranded(
                plan,
                claims,
                "the existing runtime has no observed prior revision to restore"@,
            )
        } else {
            refused(plan, claims)
        };
        assert(limits_of(item)[before.len() + k] == unclaimed(plan.actions, item.journal, no_inverse())[k]);
    }
}

/// What was applied last is undone first, and everything that was applied has its turn.
pub proof fn undoing_goes_backwards(n: nat)
    ensures
        forall|i: int, j: int|
            0 <= i < j < undo_order(n).len() ==> #[trigger] undo_order(n)[i] > #[trigger] undo_order(n)[j],
        forall|k: int| 0 <= k < n ==> #[trigger] undo_order(n).contains(k),
        undo_order(n).len() == n,
{
    assert forall|k: int| 0 <= k < n implies #[trigger] undo_order(n).contains(k) by {
        assert(undo_order(n)[n - 1 - k] == k);
    }
}

/// A secret that a plugin names itself reaches its cleanup.
pub proof fn cleanup_sees_every_declared_secret(
    required: Seq<SecretRequirement>,
    secrets: Seq<(Seq<char>, Seq<char>)>,
    i: int,
    j: int,
)
    requires
        0 <= i < required.len(),
        0 <= j < secrets.len(),
        required[i].name@ == secrets[j].0,
        secrets[j].0 != "*"@,
    ensures
        exact_secrets(required, secrets).contains(secrets[j]),
    decreases secrets.len(),
{
    let kept = exact_secrets(required, secrets);
    if j == secrets.len() - 1 {
        assert(kept[kept.len() - 1] == secrets[j]);
    } else {
        let before = secrets.drop_last();
        cleanup_sees_every_declared_secret(required, before, i, j);
        let k = choose|k: int| 0 <= k < exact_secrets(required, before).len() && exact_secrets(required, before)[k]
            == secrets[j];
        assert(kept[k] == secrets[j]);
    }
}

/// A limitation tells the kind that its action was planned with; where it was not planned, the
/// inverse that the plugin names.
pub proof fn limitations_tell_the_planned_kind(plan: PlanV, i: int, rollback: RollbackV, action_id: Seq<char>)
    ensures
        0 <= i < plan.actions.len() && plan.actions[i].id == action_id && (forall|j: int|
            0 <= j < i ==> (#[trigger] plan.actions[j]).id != action_id) ==> kind_of(plan, action_id, rollback)
            == plan.actions[i].kind,
        (forall|j: int| 0 <= j < plan.actions.len() ==> (#[trigger] plan.actions[j]).id != action_id) ==> (
        rollback.action matches Some(named) ==> kind_of(plan, action_id, rollback) == named),
{
    if 0 <= i < plan.actions.len() && plan.actions[i].id == action_id && forall|j: int|
        0 <= j < i ==> (#[trigger] plan.actions[j]).id != action_id {
        lemma_planned_kind(plan.actions, action_id, i);
    }
    if forall|j: int| 0 <= j < plan.actions.len() ==> (#[trigger] plan.actions[j]).id != action_id {
        lemma_no_planned_kind(plan.actions, action_id);
    }
}

/// The kind of the first action of a name.
proof fn lemma_planned_kind(actions: Seq<ActionV>, action_id: Seq<char>, i: int)
    requires
        0 <= i < actions.len(),
        actions[i].id == action_id,
        forall|j: int| 0 <= j < i ==> (#[trigger] actions[j]).id != action_id,
    ensures
        planned_kind(actions, action_id) == Some(actions[i].kind),
    decreases actions.len(),
{
    if i > 0 {
        let rest = actions.subrange(1, actions.len() as int);
        assert(actions[0].id != action_id);
        assert forall|j: int| 0 <= j < i - 1 implies (#[trigger] rest[j]).id != action_id by {
            assert(rest[j] == actions[j + 1]);
        }
        lemma_planned_kind(rest, action_id, i - 1);
    }
}

/// No kind where no action has the name.
proof fn lemma_no_planned_kind(actions: Seq<ActionV>, action_id: Seq<char>)
    requires
        forall|j: int| 0 <= j < actions.len() ==> (#[trigger] actions[j]).id != action_id,
    ensures
        planned_kind(actions, action_id) is None,
    decreases actions.len(),
{
    if actions.len() > 0 {
        let rest = actions.subrange(1, actions.len() as int);
        assert(actions[0].id != action_id);
        assert forall|j: int| 0 <= j < rest.len() implies (#[trigger] rest[j]).id != action_id by {
            assert(rest[j] == actions[j + 1]);
        }
        lemma_no_planned_kind(rest, action_id);
    }
}

} // verus!
