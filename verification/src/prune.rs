//! `prune`: destroying the expired environments of a project, and no others.

use vstd::prelude::*;

use crate::collections;
use crate::config::{Capability, Isolation};
use crate::down::{
    asks_to_destroy, begin_destroy_journal, destroy_desired, destroy_journal, is_complete, journal_after_destroy, one_line,
    record_destroy, DestroyAttempt,
};
use crate::error::{error_text, settles, CliError, CliErrorV};
use crate::journal::{JournalV, OperationJournal, OperationKind, OperationStatus};
use crate::lifecycle::{self, Preparation};
use crate::models::{ActionV, ContextV, PlanV};
use crate::output::OutputFormat;
use crate::prepared::{contract_views, contracts_of, PlanContractEntry, PreparedCapability, PreparedV};
use crate::project::LoadedProject;
use crate::protocol::{DestroyRequest, OperationContext};
use crate::text;
use crate::value;
use crate::value::{Data, DataV};
use crate::view::{self, ActionView, Shown};
use crate::{prepared, protocol};

verus! {

/// The feature of plugins that destroy selected environments alone.
pub const SELECTED_DESTROY_FEATURE: &'static str = "dev.lightrail.selected-destroy.v1";

/// An expired environment.
#[derive(Clone, Debug, Eq, PartialEq)]
pub struct PruneCandidate {
    pub environment_id: String,
    pub branch: Option<String>,
    pub profile: Option<String>,
    pub expires_at: Option<String>,
    pub expires_at_unix: u64,
}

/// The model of [`PruneCandidate`].
#[verifier::ext_equal]
pub struct CandidateV {
    pub environment_id: Seq<char>,
    pub branch: Option<Seq<char>>,
    pub profile: Option<Seq<char>>,
    pub expires_at: Option<Seq<char>>,
    pub expires_at_unix: u64,
}

impl View for PruneCandidate {
    type V = CandidateV;

    open spec fn view(&self) -> CandidateV {
        CandidateV {
            environment_id: self.environment_id@,
            branch: text::option_of(self.branch),
            profile: text::option_of(self.profile),
            expires_at: text::option_of(self.expires_at),
            expires_at_unix: self.expires_at_unix,
        }
    }
}

/// The models of expired environments.
pub open spec fn candidate_views(items: Seq<PruneCandidate>) -> Seq<CandidateV> {
    Seq::new(items.len(), |i: int| items[i]@)
}

/// What a plan of `prune` shows.
#[derive(Clone, Debug)]
pub struct PrunePlan {
    pub operation: &'static str,
    pub expired_before_unix: u64,
    pub environments: Vec<PruneCandidate>,
    pub plugin: String,
    pub plan_id: String,
    pub actions: Vec<ActionView>,
}

// ---------------------------------------------------------------------------
// Who may prune
// ---------------------------------------------------------------------------

/// Whether one plugin destroys everything of a target.
pub open spec fn one_plugin_destroys(p: LoadedProject) -> bool {
    let target = p.selected().pipeline.assigned(Capability::Target);
    p.selected().pipeline.assigned(Capability::Dns) == target && p.selected().pipeline.assigned(
        Capability::Exposure,
    ) == target && p.selected().pipeline.assigned(Capability::Runtime) == target
}

/// Why a profile may not be pruned.
pub open spec fn prune_problem(p: LoadedProject) -> Option<CliErrorV> {
    if p.selected().isolation != Isolation::Environment {
        Some(
            CliErrorV::Usage(
                "`prune` currently supports only environment-isolated Kubernetes and Fly.io profiles"@,
            ),
        )
    } else if !one_plugin_destroys(p) {
        Some(
            CliErrorV::Plugin(
                "`prune` requires one aggregate provider plugin to own target, runtime, exposure, and DNS destruction"@,
            ),
        )
    } else {
        None
    }
}

/// Rejects a profile that may not be pruned.
pub fn check_prune_profile(p: &LoadedProject) -> (r: Result<(), CliError>)
    requires
        p.wf(),
    ensures
        settles(r, prune_problem(*p)),
{
    if p.profile().isolation != Isolation::Environment {
        return Err(
            CliError::Usage(
                "`prune` currently supports only environment-isolated Kubernetes and Fly.io profiles".to_owned(),
            ),
        );
    }
    let target = p.plugin_id(Capability::Target);
    if !(text::same(p.plugin_id(Capability::Dns), target) && text::same(
        p.plugin_id(Capability::Exposure),
        target,
    ) && text::same(p.plugin_id(Capability::Runtime), target)) {
        return Err(
            CliError::Plugin(
                "`prune` requires one aggregate provider plugin to own target, runtime, exposure, and DNS destruction".to_owned(),
            ),
        );
    }
    Ok(())
}

/// Rejects a plugin that cannot destroy selected environments alone.
pub fn check_prune_feature(plugin_id: &str, features: &Vec<String>) -> (r: Result<(), CliError>)
    ensures
        match r {
            Ok(()) => text::texts(features@).contains(SELECTED_DESTROY_FEATURE@),
            Err(e) => !text::texts(features@).contains(SELECTED_DESTROY_FEATURE@) && e@ == CliErrorV::Plugin(
                "target plugin `"@ + plugin_id@ + "` does not implement `"@ + SELECTED_DESTROY_FEATURE@
                    + "`; refusing to risk an unscoped deletion"@,
            ),
        },
{
    if collections::contains_text(features, SELECTED_DESTROY_FEATURE) {
        return Ok(());
    }
    Err(
        CliError::Plugin(
            text::cat5(
                "target plugin `",
                plugin_id,
                "` does not implement `",
                SELECTED_DESTROY_FEATURE,
                "`; refusing to risk an unscoped deletion",
            ),
        ),
    )
}

// ---------------------------------------------------------------------------
// Candidates
// ---------------------------------------------------------------------------

/// The name of an observed environment.
pub open spec fn observed_id(item: DataV) -> Seq<char> {
    match value::text_of(value::field(item, "environment_id"@)) {
        Some(id) => id,
        None => Seq::empty(),
    }
}

/// The problem of one observed environment after others.
pub open spec fn observation_problem(item: DataV, project_id: Seq<char>, seen: Seq<Seq<char>>) -> Option<
    CliErrorV,
> {
    let id = observed_id(item);
    let owner = value::text_of(value::field(item, "project_id"@));
    let expiry = value::field(item, "expires_at_unix"@);
    if !(item is Object) {
        Some(CliErrorV::Plugin("selected-destroy target returned a non-object environment entry"@))
    } else if id.len() == 0 {
        Some(CliErrorV::Plugin("selected-destroy target returned an environment without an ID"@))
    } else if owner is None {
        Some(
            CliErrorV::Plugin(
                "environment `"@ + id + "` has no immutable project ownership field"@,
            ),
        )
    } else if owner != Some(project_id) {
        Some(
            CliErrorV::Plugin(
                "environment `"@ + id + "` reports project `"@ + owner->0 + "`, expected `"@ + project_id
                    + "`"@,
            ),
        )
    } else if seen.contains(id) {
        Some(CliErrorV::Plugin("target returned duplicate environment `"@ + id + "`"@))
    } else if expiry is Some && !(expiry->0 is Null) && value::count_of(expiry) is None {
        Some(
            CliErrorV::Plugin(
                "environment `"@ + id
                    + "` has a malformed `expires_at_unix`; expected a non-negative integer"@,
            ),
        )
    } else {
        None
    }
}

/// The first problem among observed environments after others.
pub open spec fn observations_problem(items: Seq<DataV>, project_id: Seq<char>, seen: Seq<Seq<char>>) -> Option<
    CliErrorV,
>
    decreases items.len(),
{
    if items.len() == 0 {
        None
    } else {
        match observation_problem(items[0], project_id, seen) {
            Some(e) => Some(e),
            None => observations_problem(
                items.subrange(1, items.len() as int),
                project_id,
                seen.push(observed_id(items[0])),
            ),
        }
    }
}

/// The observed environments of a target.
pub open spec fn observed(state: DataV) -> Seq<DataV> {
    match value::items_of(value::field(state, "environments"@)) {
        Some(items) => items,
        None => Seq::empty(),
    }
}

/// The problem of what a target observed.
pub open spec fn state_problem(state: DataV, project_id: Seq<char>) -> Option<CliErrorV> {
    match value::field(state, "environments"@) {
        None => None,
        Some(DataV::Array(items)) => if items.len() > 0 && value::count_of(
            value::field(state, "environment_contract"@),
        ) != Some(1u64) {
            Some(
                CliErrorV::Plugin(
                    "target returned environments without `environment_contract = 1`; refusing to infer expiry ownership"@,
                ),
            )
        } else {
            observations_problem(items, project_id, Seq::empty())
        },
        Some(_) => Some(
            CliErrorV::Plugin("selected-destroy target returned a non-array `environments` field"@),
        ),
    }
}

/// An observed environment, where it expired by a time.
pub open spec fn expired(item: DataV, now: u64) -> Option<CandidateV> {
    match value::count_of(value::field(item, "expires_at_unix"@)) {
        Some(at) => if at <= now {
            Some(
                CandidateV {
                    environment_id: observed_id(item),
                    branch: value::text_of(value::field(item, "branch"@)),
                    profile: value::text_of(value::field(item, "profile"@)),
                    expires_at: value::text_of(value::field(item, "expires_at"@)),
                    expires_at_unix: at,
                },
            )
        } else {
            None
        },
        None => None,
    }
}

/// The names of expired environments.
pub open spec fn ids_of(items: Seq<CandidateV>) -> Seq<Seq<char>> {
    Seq::new(items.len(), |i: int| items[i].environment_id)
}

/// The expired environments, in the order of their names.
pub open spec fn candidates(items: Seq<DataV>, now: u64) -> Seq<CandidateV>
    decreases items.len(),
{
    if items.len() == 0 {
        Seq::empty()
    } else {
        let before = candidates(items.drop_last(), now);
        match expired(items.last(), now) {
            Some(c) => before.insert(collections::slot(ids_of(before), c.environment_id), c),
            None => before,
        }
    }
}

/// Checks one observed environment after others.
fn check_observation(item: &Data, project_id: &str, seen: &Vec<String>) -> (r: Result<String, CliError>)
    ensures
        settles(r, observation_problem(item@, project_id@, text::texts(seen@))),
        match r {
            Ok(id) => id@ == observed_id(item@),
            Err(_) => true,
        },
{
    broadcast use {value::lemma_object_view, value::lemma_array_view};

    if item.as_object().is_none() {
        return Err(
            CliError::Plugin(
                "selected-destroy target returned a non-object environment entry".to_owned(),
            ),
        );
    }
    let id = match item.get_str("environment_id") {
        Some(id) => id,
        None => "",
    };
    proof {
        reveal_strlit("");
    }
    if id.is_empty() {
        assert(observed_id(item@).len() == 0);
        return Err(
            CliError::Plugin(
                "selected-destroy target returned an environment without an ID".to_owned(),
            ),
        );
    }
    assert(id@ == observed_id(item@));
    let owner = match item.get_str("project_id") {
        Some(owner) => owner,
        None => {
            return Err(
                CliError::Plugin(
                    text::cat3(
                        "environment `",
                        id,
                        "` has no immutable project ownership field",
                    ),
                ),
            );
        },
    };
    if !text::same(owner, project_id) {
        let head = text::cat5("environment `", id, "` reports project `", owner, "`, expected `");
        return Err(CliError::Plugin(text::cat3(head.as_str(), project_id, "`")));
    }
    if collections::contains_text(seen, id) {
        return Err(
            CliError::Plugin(text::cat3("target returned duplicate environment `", id, "`")),
        );
    }
    if let Some(v) = item.get("expires_at_unix") {
        let null = match v {
            Data::Null => true,
            _ => false,
        };
        if !null && v.as_u64().is_none() {
            return Err(
                CliError::Plugin(
                    text::cat3(
                        "environment `",
                        id,
                        "` has a malformed `expires_at_unix`; expected a non-negative integer",
                    ),
                ),
            );
        }
    }
    Ok(id.to_owned())
}

/// Reads an observed environment, where it expired by a time.
fn read_candidate(item: &Data, id: &str, now: u64) -> (r: Option<PruneCandidate>)
    requires
        id@ == observed_id(item@),
    ensures
        match (r, expired(item@, now)) {
            (Some(c), Some(model)) => c@ == model,
            (None, None) => true,
            _ => false,
        },
{
    let at: u64 = match item.get("expires_at_unix") {
        Some(v) => match v.as_u64() {
            Some(at) => at,
            None => {
                return None;
            },
        },
        None => {
            return None;
        },
    };
    if at > now {
        return None;
    }
    Some(
        PruneCandidate {
            environment_id: id.to_owned(),
            branch: item.get_text("branch"),
            profile: item.get_text("profile"),
            expires_at: item.get_text("expires_at"),
            expires_at_unix: at,
        },
    )
}

/// Adds an expired environment in the order of names.
fn put_candidate(items: &mut Vec<PruneCandidate>, c: PruneCandidate)
    ensures
        candidate_views(final(items)@) == candidate_views(old(items)@).insert(
            collections::slot(ids_of(candidate_views(old(items)@)), c@.environment_id),
            c@,
        ),
{
    let ghost all = candidate_views(items@);
    let ghost keys = ids_of(all);
    let ghost model = c@;
    let mut at: usize = 0;
    while at < items.len() && text::less(items[at].environment_id.as_str(), c.environment_id.as_str())
        invariant
            all == candidate_views(items@),
            keys == ids_of(all),
            at <= items@.len(),
            forall|k: int| 0 <= k < at ==> text::text_lt(#[trigger] keys[k], c.environment_id@),
        decreases items.len() - at,
    {
        assert(keys[at as int] == items@[at as int].environment_id@);
        at += 1;
    }
    proof {
        if at < items@.len() {
            assert(keys[at as int] == items@[at as int].environment_id@);
        }
        collections::lemma_slot_is(keys, c.environment_id@, at as int);
    }
    items.insert(at, c);
    assert(candidate_views(items@) =~= all.insert(at as int, model));
}

/// Selects the environments of a project that expired by a time. Anything ambiguous fails.
pub fn expired_candidates(state: &Data, project_id: &str, expired_before_unix: u64) -> (r: Result<
    Vec<PruneCandidate>,
    CliError,
>)
    ensures
        settles(r, state_problem(state@, project_id@)),
        match r {
            Ok(found) => candidate_views(found@) == candidates(observed(state@), expired_before_unix),
            Err(_) => true,
        },
{
    broadcast use {value::lemma_object_view, value::lemma_array_view};

    let mut out: Vec<PruneCandidate> = Vec::new();
    assert(candidate_views(out@) =~= Seq::<CandidateV>::empty());
    let items = match state.get("environments") {
        None => {
            return Ok(out);
        },
        Some(v) => match v.as_array() {
            Some(items) => items,
            None => {
                return Err(
                    CliError::Plugin(
                        "selected-destroy target returned a non-array `environments` field".to_owned(),
                    ),
                );
            },
        },
    };
    let ghost all = value::item_views(items@);
    assert(all.len() == items@.len());
    let contract: Option<u64> = match state.get("environment_contract") {
        Some(v) => v.as_u64(),
        None => None,
    };
    let agreed = match contract {
        Some(n) => n == 1,
        None => false,
    };
    if items.len() > 0 && !agreed {
        return Err(
            CliError::Plugin(
                "target returned environments without `environment_contract = 1`; refusing to infer expiry ownership".to_owned(),
            ),
        );
    }
    let mut seen: Vec<String> = Vec::new();
    let mut i: usize = 0;
    assert(all.subrange(0, all.len() as int) =~= all);
    assert(all.take(0) =~= Seq::<DataV>::empty());
    assert(text::texts(seen@) =~= Seq::<Seq<char>>::empty());
    let ghost goal = state_problem(state@, project_id@);
    while i < items.len()
        invariant
            i <= items@.len(),
            all == value::item_views(items@),
            goal == state_problem(state@, project_id@),
            goal == observations_problem(
                all.subrange(i as int, all.len() as int),
                project_id@,
                text::texts(seen@),
            ),
            candidate_views(out@) == candidates(all.take(i as int), expired_before_unix),
        decreases items.len() - i,
    {
        let item = &items[i];
        let ghost rest = all.subrange(i as int, all.len() as int);
        let ghost before = seen@;
        proof {
            assert(rest[0] == item@);
            assert(rest.subrange(1, rest.len() as int) =~= all.subrange(i + 1, all.len() as int));
            assert(all.take(i + 1).drop_last() =~= all.take(i as int));
            assert(all.take(i + 1).last() == item@);
        }
        let id = check_observation(item, project_id, &seen)?;
        if let Some(c) = read_candidate(item, id.as_str(), expired_before_unix) {
            put_candidate(&mut out, c);
        }
        seen.push(id);
        assert(text::texts(seen@) =~= text::texts(before).push(observed_id(item@)));
        i += 1;
    }
    assert(all.take(all.len() as int) =~= all);
    Ok(out)
}

/// Only environments that expired are selected, and all of them are.
pub proof fn selection_is_exact(items: Seq<DataV>, now: u64)
    ensures
        forall|c: CandidateV| #[trigger]
            candidates(items, now).contains(c) <==> exists|i: int|
                0 <= i < items.len() && expired(#[trigger] items[i], now) == Some(c),
    decreases items.len(),
{
    if items.len() > 0 {
        let fewer = items.drop_last();
        selection_is_exact(fewer, now);
        let before = candidates(fewer, now);
        let after = candidates(items, now);
        assert forall|c: CandidateV| #[trigger] after.contains(c) <==> exists|i: int|
            0 <= i < items.len() && expired(#[trigger] items[i], now) == Some(c) by {
            let here = expired(items.last(), now);
            if let Some(new) = here {
                let at = collections::slot(ids_of(before), new.environment_id);
                collections::lemma_slot(ids_of(before), new.environment_id);
                assert(after =~= before.insert(at, new));
                if after.contains(c) && c != new {
                    let k = choose|k: int| 0 <= k < after.len() && after[k] == c;
                    let earlier = if k < at {
                        k
                    } else {
                        k - 1
                    };
                    assert(before[earlier] == c);
                    assert(before.contains(c));
                }
                if before.contains(c) {
                    let k = choose|k: int| 0 <= k < before.len() && before[k] == c;
                    let later = if k < at {
                        k
                    } else {
                        k + 1
                    };
                    assert(after[later] == c);
                }
                if c == new {
                    assert(after[at] == c);
                    assert(expired(items[items.len() - 1], now) == Some(c));
                }
            }
            if before.contains(c) {
                let i = choose|i: int| 0 <= i < fewer.len() && expired(#[trigger] fewer[i], now) == Some(c);
                assert(items[i] == fewer[i]);
            }
            if exists|i: int| 0 <= i < items.len() && expired(#[trigger] items[i], now) == Some(c) {
                let i = choose|i: int| 0 <= i < items.len() && expired(#[trigger] items[i], now) == Some(c);
                if i < fewer.len() {
                    assert(fewer[i] == items[i]);
                    assert(before.contains(c));
                }
            }
        }
    } else {
        assert(candidates(items, now) =~= Seq::<CandidateV>::empty());
    }
}

/// What is selected expired by the given time.
pub proof fn selection_is_expired(items: Seq<DataV>, now: u64, i: int)
    requires
        0 <= i < candidates(items, now).len(),
    ensures
        candidates(items, now)[i].expires_at_unix <= now,
{
    selection_is_exact(items, now);
    let c = candidates(items, now)[i];
    assert(candidates(items, now).contains(c));
}

// ---------------------------------------------------------------------------
// The plan
// ---------------------------------------------------------------------------

/// The names of expired environments as a list.
fn id_list(items: &Vec<PruneCandidate>) -> (r: Vec<String>)
    ensures
        text::texts(r@) == ids_of(candidate_views(items@)),
{
    let mut out: Vec<String> = Vec::new();
    let mut i: usize = 0;
    while i < items.len()
        invariant
            i <= items@.len(),
            out@.len() == i,
            forall|k: int| 0 <= k < i ==> (#[trigger] out@[k])@ == items@[k].environment_id@,
        decreases items.len() - i,
    {
        out.push(items[i].environment_id.clone());
        i += 1;
    }
    assert(text::texts(out@) =~= ids_of(candidate_views(items@)));
    out
}

/// The selection that a request names.
pub open spec fn selection(ids: Seq<Seq<char>>) -> DataV {
    DataV::Object(
        seq![
            ("environment_ids"@, protocol::text_items(ids)),
            ("reason"@, DataV::Str("expired"@)),
            ("schema"@, DataV::Integer(1)),
        ],
    )
}

/// The context of a request that is about expired environments alone.
pub open spec fn selected_context(context: ContextV, items: Seq<CandidateV>) -> ContextV {
    ContextV {
        metadata: DataV::Object(
            value::put(context.metadata->Object_0, "selection"@, selection(ids_of(items))),
        ),
        ..context
    }
}

/// Names the environments that a request is about.
pub fn select_environments(context: &mut OperationContext, items: &Vec<PruneCandidate>)
    requires
        old(context)@.metadata is Object,
    ensures
        final(context)@ == selected_context(old(context)@, candidate_views(items@)),
{
    broadcast use value::lemma_object_view;

    let ids = id_list(items);
    let mut chosen: Vec<(String, Data)> = Vec::new();
    chosen.push(("environment_ids".to_owned(), protocol::text_list(&ids)));
    chosen.push(("reason".to_owned(), Data::text("expired")));
    chosen.push(("schema".to_owned(), Data::Integer(1)));
    assert(value::entry_views(chosen@) =~= selection(ids_of(candidate_views(items@)))->Object_0);
    let mut entries = match context.metadata.as_object() {
        Some(entries) => value::duplicate_entries(entries),
        None => Vec::new(),
    };
    value::put_entry(&mut entries, "selection", Data::Object(chosen));
    context.metadata = Data::Object(entries);
}

/// Begins to prepare the destruction of the selected environments, from what was observed.
pub fn prepare_prune_target(
    plugin_id: &str,
    context: OperationContext,
    base_desired: &Data,
    current: &protocol::InspectResult,
    items: &Vec<PruneCandidate>,
) -> (r: Preparation)
    requires
        context@.metadata is Object,
        base_desired@ is Object,
    ensures
        r.capability == Capability::Target,
        r.plugin_id@ == plugin_id@,
        r.context@ == selected_context(context@, candidate_views(items@)),
        r.desired@ == DataV::Object(
            value::put(
                value::put(base_desired@->Object_0, "target"@, current@.state),
                "destroy"@,
                DataV::Bool(true),
            ),
        ),
        r.subject@ == "the expired-environment selection"@,
{
    let mut context = context;
    select_environments(&mut context, items);
    let desired = prepared::desired_with_target(base_desired, &current.state);
    Preparation {
        capability: Capability::Target,
        plugin_id: plugin_id.to_owned(),
        context,
        desired: destroy_desired(&desired),
        subject: "the expired-environment selection".to_owned(),
    }
}

/// Whether every action destroys something.
pub open spec fn only_destroys(actions: Seq<ActionV>) -> bool {
    forall|i: int| 0 <= i < actions.len() ==> (#[trigger] actions[i]).destructive
}

/// Why a plan is not one of destroying selected environments.
pub open spec fn plan_problem(plugin_id: Seq<char>, plan: PlanV, n: nat) -> Option<CliErrorV> {
    if !plan.has_changes || plan.actions.len() == 0 {
        Some(
            CliErrorV::Plugin(
                "target plugin `"@ + plugin_id + "` returned no destructive plan for "@ + text::decimal(n)
                    + " expired environment(s)"@,
            ),
        )
    } else if !only_destroys(plan.actions) {
        Some(
            CliErrorV::Plugin(
                "target plugin `"@ + plugin_id
                    + "` returned a non-destructive action in an expired-environment deletion plan"@,
            ),
        )
    } else {
        None
    }
}

/// Rejects a plan that is not one of destroying selected environments.
pub fn check_prune_plan(plugin_id: &str, plan: &protocol::PlanResult, count: usize) -> (r: Result<(), CliError>)
    ensures
        settles(r, plan_problem(plugin_id@, plan@, count as nat)),
{
    assert(plan@.actions.len() == plan.actions@.len());
    if !plan.has_changes || plan.actions.len() == 0 {
        return Err(
            CliError::Plugin(
                text::cat5(
                    "target plugin `",
                    plugin_id,
                    "` returned no destructive plan for ",
                    text::number(count as u128).as_str(),
                    " expired environment(s)",
                ),
            ),
        );
    }
    let ghost actions = plan@.actions;
    let mut i: usize = 0;
    while i < plan.actions.len()
        invariant
            i <= plan.actions@.len(),
            plan.has_changes,
            plan.actions@.len() > 0,
            actions == plan@.actions,
            forall|k: int| 0 <= k < i ==> (#[trigger] actions[k]).destructive,
        decreases plan.actions.len() - i,
    {
        assert(actions[i as int] == plan.actions@[i as int]@);
        if !plan.actions[i].destructive {
            assert(!only_destroys(actions));
            return Err(
                CliError::Plugin(
                    text::cat3(
                        "target plugin `",
                        plugin_id,
                        "` returned a non-destructive action in an expired-environment deletion plan",
                    ),
                ),
            );
        }
        i += 1;
    }
    Ok(())
}

/// Whether a plan is shown before it is carried out: a mutation for machines prints one
/// document alone, its result.
pub fn should_print_prune_plan(format: OutputFormat, dry_run: bool) -> (r: bool)
    ensures
        r == (dry_run || format == OutputFormat::Human),
{
    dry_run || format == OutputFormat::Human
}

/// Whether two lists of expired environments agree.
pub fn same_candidates(a: &Vec<PruneCandidate>, b: &Vec<PruneCandidate>) -> (r: bool)
    ensures
        r == (candidate_views(a@) == candidate_views(b@)),
{
    let ghost x = candidate_views(a@);
    let ghost y = candidate_views(b@);
    assert(x.len() == a@.len() && y.len() == b@.len());
    if a.len() != b.len() {
        return false;
    }
    let mut i: usize = 0;
    while i < a.len()
        invariant
            i <= a@.len(),
            a@.len() == b@.len(),
            x == candidate_views(a@),
            y == candidate_views(b@),
            forall|k: int| 0 <= k < i ==> #[trigger] x[k] == y[k],
        decreases a.len() - i,
    {
        assert(x[i as int] == a@[i as int]@ && y[i as int] == b@[i as int]@);
        if !(text::same(a[i].environment_id.as_str(), b[i].environment_id.as_str()) && same_option(
            &a[i].branch,
            &b[i].branch,
        ) && same_option(&a[i].profile, &b[i].profile) && same_option(&a[i].expires_at, &b[i].expires_at)
            && a[i].expires_at_unix == b[i].expires_at_unix) {
            assert(x[i as int] != y[i as int]);
            return false;
        }
        assert(x[i as int] =~= y[i as int]);
        i += 1;
    }
    assert(x =~= y);
    true
}

/// Whether two texts that may be there agree.
fn same_option(a: &Option<String>, b: &Option<String>) -> (r: bool)
    ensures
        r == (text::option_of(*a) == text::option_of(*b)),
{
    match (a, b) {
        (Some(a), Some(b)) => text::same(a.as_str(), b.as_str()),
        (None, None) => true,
        _ => false,
    }
}

/// Rejects a selection that changed while the lock was waited for.
pub fn recheck_candidates(shown: &Vec<PruneCandidate>, locked: &Vec<PruneCandidate>) -> (r: Result<(), CliError>)
    ensures
        match r {
            Ok(()) => candidate_views(shown@) == candidate_views(locked@),
            Err(e) => candidate_views(shown@) != candidate_views(locked@) && e@ == CliErrorV::Operation(
                "expired environments changed while waiting for the project lock; rerun `lightrail prune --dry-run`"@,
            ),
        },
{
    if same_candidates(shown, locked) {
        return Ok(());
    }
    Err(
        CliError::Operation(
            "expired environments changed while waiting for the project lock; rerun `lightrail prune --dry-run`".to_owned(),
        ),
    )
}

/// Rejects a plan that changed while the lock was waited for.
pub fn recheck_plan(shown: &Vec<PlanContractEntry>, locked: &Vec<PreparedCapability>) -> (r: Result<(), CliError>)
    ensures
        match r {
            Ok(()) => contracts_of(locked@) == contract_views(shown@),
            Err(e) => contracts_of(locked@) != contract_views(shown@) && e@ == CliErrorV::Operation(
                "the expired-environment destruction plan changed while waiting for the project lock; rerun `lightrail prune --dry-run`"@,
            ),
        },
{
    let now = prepared::plan_contract(locked);
    if prepared::same_contract(&now, shown) {
        return Ok(());
    }
    Err(
        CliError::Operation(
            "the expired-environment destruction plan changed while waiting for the project lock; rerun `lightrail prune --dry-run`".to_owned(),
        ),
    )
}

// ---------------------------------------------------------------------------
// Destroying
// ---------------------------------------------------------------------------

/// Why destroying the selected environments failed.
pub open spec fn prune_failure(attempt: DestroyAttempt) -> Option<CliErrorV> {
    match attempt.result {
        Ok(result) => if attempt.cancelled {
            Some(
                CliErrorV::Operation(
                    "expired-environment destruction was cancelled at a safe stopping point"@,
                ),
            )
        } else if is_complete(result) {
            None
        } else {
            Some(
                CliErrorV::Operation(
                    "expired-environment destruction left resources: "@ + text::joined(
                        text::texts(result.remaining@),
                        ", "@,
                    ),
                ),
            )
        },
        Err(e) => Some(e@),
    }
}

/// The journal after the selected environments were destroyed, or were not.
pub open spec fn journal_after_prune(j: JournalV, item: PreparedV, attempt: DestroyAttempt) -> JournalV {
    let marked = match attempt.result {
        Ok(result) => journal_after_destroy(j, item, result),
        Err(_) => j,
    };
    match prune_failure(attempt) {
        None => JournalV { status: OperationStatus::Succeeded, error: None, ..marked },
        Some(e) => JournalV { status: OperationStatus::Failed, error: Some(error_text(e)), ..marked },
    }
}

/// The destruction of expired environments under the lock.
pub struct PruneRun {
    pub item: PreparedCapability,
    pub journal: OperationJournal,
}

/// A destruction begins: the environments and the plan that were shown are those that were found
/// again under the lock, and the journal holds that plan.
pub open spec fn has_begun(
    run: PruneRun,
    shown: Seq<CandidateV>,
    locked: Seq<CandidateV>,
    contract: Seq<(Seq<char>, Seq<char>, Seq<char>)>,
    project_id: Seq<char>,
    operation_id: Seq<u8>,
) -> bool {
    &&& shown == locked
    &&& contracts_of(seq![run.item]) == contract
    &&& run.journal@ == destroy_journal(project_id, OperationKind::Prune, operation_id, seq![run.item@])
}

impl PruneRun {
    /// Begins to destroy under the lock, where the environments and the plan are still those
    /// that were shown.
    pub fn start(
        shown: &Vec<PruneCandidate>,
        locked: &Vec<PruneCandidate>,
        contract: &Vec<PlanContractEntry>,
        item: PreparedCapability,
        project_id: &str,
        operation_id: [u8; 16],
    ) -> (r: Result<PruneRun, CliError>)
        ensures
            match r {
                Ok(run) => run.item == item && has_begun(
                    run,
                    candidate_views(shown@),
                    candidate_views(locked@),
                    contract_views(contract@),
                    project_id@,
                    operation_id@,
                ),
                Err(e) => if candidate_views(shown@) != candidate_views(locked@) {
                    e@ == CliErrorV::Operation(
                        "expired environments changed while waiting for the project lock; rerun `lightrail prune --dry-run`"@,
                    )
                } else {
                    contracts_of(seq![item]) != contract_views(contract@) && e@ == CliErrorV::Operation(
                        "the expired-environment destruction plan changed while waiting for the project lock; rerun `lightrail prune --dry-run`"@,
                    )
                },
            },
    {
        match recheck_candidates(shown, locked) {
            Ok(()) => {},
            Err(e) => {
                return Err(e);
            },
        }
        let ghost planned = item;
        let mut items: Vec<PreparedCapability> = Vec::new();
        items.push(item);
        assert(items@ =~= seq![planned]);
        match recheck_plan(contract, &items) {
            Ok(()) => {},
            Err(e) => {
                return Err(e);
            },
        }
        let journal = begin_destroy_journal(project_id, OperationKind::Prune, operation_id, &items);
        assert(prepared::prepared_views(items@) =~= seq![planned@]);
        let item = items.swap_remove(0);
        Ok(PruneRun { item, journal })
    }

    /// The request that destroys the selected environments.
    pub fn request(&self) -> (r: DestroyRequest)
        ensures
            r.context@ == self.item@.context,
            prepared::option_data(r.current) == Some(self.item@.current.state),
            !r.force,
            r.journal@.len() == 0,
            asks_to_destroy(r, self.item@, false, false),
    {
        DestroyRequest {
            context: self.item.context.duplicate(),
            current: Some(self.item.current.state.duplicate()),
            force: false,
            journal: Vec::new(),
        }
    }

    /// Takes note of what destroying the selected environments gave.
    pub fn record(&mut self, attempt: DestroyAttempt) -> (r: Result<(), CliError>)
        ensures
            settles(r, prune_failure(attempt)),
            final(self).item == old(self).item,
            final(self).journal@ == journal_after_prune(old(self).journal@, old(self).item@, attempt),
    {
        if let Ok(result) = &attempt.result {
            record_destroy(&mut self.journal, &self.item, result);
        }
        let error = match attempt.result {
            Ok(result) => {
                if attempt.cancelled {
                    CliError::Operation(
                        "expired-environment destruction was cancelled at a safe stopping point".to_owned(),
                    )
                } else if result.destroyed && result.remaining.len() == 0 {
                    self.journal.status = OperationStatus::Succeeded;
                    self.journal.error = None;
                    return Ok(());
                } else {
                    CliError::Operation(
                        text::cat2(
                            "expired-environment destruction left resources: ",
                            text::join(&result.remaining, ", ").as_str(),
                        ),
                    )
                }
            },
            Err(error) => error,
        };
        self.journal.status = OperationStatus::Failed;
        self.journal.error = Some(error.message());
        Err(error)
    }
}

/// What is destroyed was shown: the request of a destruction that was prepared for what was
/// found under the lock names the environments that were shown, and each of them had expired.
pub proof fn only_what_was_shown_is_destroyed(
    run: PruneRun,
    shown: Seq<CandidateV>,
    state: DataV,
    now: u64,
    contract: Seq<(Seq<char>, Seq<char>, Seq<char>)>,
    project_id: Seq<char>,
    operation_id: Seq<u8>,
    context: ContextV,
)
    requires
        has_begun(run, shown, candidates(observed(state), now), contract, project_id, operation_id),
        run.item@.context == selected_context(context, candidates(observed(state), now)),
    ensures
        value::field(run.item@.context.metadata, "selection"@) == Some(selection(ids_of(shown))),
        forall|i: int| 0 <= i < shown.len() ==> (#[trigger] shown[i]).expires_at_unix <= now,
{
    value::lemma_put_found(context.metadata->Object_0, "selection"@, selection(ids_of(shown)));
    assert forall|i: int| 0 <= i < shown.len() implies (#[trigger] shown[i]).expires_at_unix <= now by {
        selection_is_expired(observed(state), now, i);
    }
}

// ---------------------------------------------------------------------------
// What is shown
// ---------------------------------------------------------------------------

/// The question before expired environments are destroyed.
pub fn ask_prune(count: usize, profile: &str) -> (r: String)
    ensures
        r@ == "Destroy "@ + text::decimal(count as nat) + " expired environment(s) visible through profile `"@
            + profile@ + "`?"@,
{
    text::cat5(
        "Destroy ",
        text::number(count as u128).as_str(),
        " expired environment(s) visible through profile `",
        profile,
        "`?",
    )
}

/// The line of an expired environment.
pub open spec fn candidate_line(c: CandidateV) -> Seq<char> {
    "  - "@ + (match (c.branch, c.profile) {
        (Some(branch), Some(profile)) => branch + " / "@ + profile,
        _ => c.environment_id,
    }) + " (expired "@ + (match c.expires_at {
        Some(at) => at,
        None => text::decimal(c.expires_at_unix as nat),
    }) + ")"@
}

/// The line of an expired environment.
fn candidate_text(c: &PruneCandidate) -> (r: String)
    ensures
        r@ == candidate_line(c@),
{
    let label = match (&c.branch, &c.profile) {
        (Some(branch), Some(profile)) => text::cat3(branch.as_str(), " / ", profile.as_str()),
        _ => c.environment_id.clone(),
    };
    let expiry = match &c.expires_at {
        Some(at) => at.clone(),
        None => text::number(c.expires_at_unix as u128),
    };
    text::cat5("  - ", label.as_str(), " (expired ", expiry.as_str(), ")")
}

/// The lines of a plan for people.
pub open spec fn plan_lines(profile: Seq<char>, items: Seq<CandidateV>, actions: Seq<ActionV>) -> Seq<Seq<char>> {
    seq![
        "Plan: prune "@ + text::decimal(items.len()) + " expired environment(s) from profile `"@ + profile
            + "`"@,
    ] + Seq::new(items.len(), |i: int| candidate_line(items[i])) + Seq::new(
        actions.len(),
        |i: int| "    "@ + actions[i].summary,
    )
}

/// The lines of a plan; a machine-readable plan is a document of its own.
pub fn show_prune_plan(
    profile: &str,
    format: OutputFormat,
    items: &Vec<PruneCandidate>,
    prepared: &PreparedCapability,
) -> (r: Option<Vec<String>>)
    ensures
        match (r, format) {
            (None, OutputFormat::Json) => true,
            (Some(lines), OutputFormat::Plain) => text::texts(lines@) == ids_of(candidate_views(items@)),
            (Some(lines), OutputFormat::Human) => text::texts(lines@) == plan_lines(
                profile@,
                candidate_views(items@),
                prepared@.plan.actions,
            ),
            _ => false,
        },
{
    match format {
        OutputFormat::Json => None,
        OutputFormat::Plain => Some(id_list(items)),
        OutputFormat::Human => {
            let ghost all = candidate_views(items@);
            let ghost actions = prepared@.plan.actions;
            let mut lines: Vec<String> = Vec::new();
            lines.push(
                text::cat5(
                    "Plan: prune ",
                    text::number(items.len() as u128).as_str(),
                    " expired environment(s) from profile `",
                    profile,
                    "`",
                ),
            );
            let mut i: usize = 0;
            while i < items.len()
                invariant
                    i <= items@.len(),
                    all == candidate_views(items@),
                    lines@.len() == i + 1,
                    lines@[0]@ == plan_lines(profile@, all, actions)[0],
                    forall|k: int| 0 <= k < i ==> (#[trigger] lines@[k + 1])@ == candidate_line(all[k]),
                decreases items.len() - i,
            {
                assert(all[i as int] == items@[i as int]@);
                lines.push(candidate_text(&items[i]));
                i += 1;
            }
            let count: usize = items.len();
            let mut j: usize = 0;
            while j < prepared.plan.actions.len()
                invariant
                    j <= prepared.plan.actions@.len(),
                    count == items@.len(),
                    all == candidate_views(items@),
                    actions == prepared@.plan.actions,
                    lines@.len() == count + 1 + j,
                    lines@[0]@ == plan_lines(profile@, all, actions)[0],
                    forall|k: int| 0 <= k < count ==> (#[trigger] lines@[k + 1])@ == candidate_line(all[k]),
                    forall|k: int|
                        0 <= k < j ==> (#[trigger] lines@[count + 1 + k])@ == "    "@ + actions[k].summary,
                decreases prepared.plan.actions.len() - j,
            {
                assert(actions[j as int] == prepared.plan.actions@[j as int]@);
                lines.push(text::cat2("    ", prepared.plan.actions[j].summary.as_str()));
                j += 1;
            }
            proof {
                let model = plan_lines(profile@, all, actions);
                let shown = text::texts(lines@);
                assert forall|k: int| 0 <= k < model.len() implies shown[k] == model[k] by {
                    if k == 0 {
                    } else if k <= all.len() {
                        assert(lines@[(k - 1) + 1]@ == candidate_line(all[k - 1]));
                    } else {
                        let m = k - 1 - all.len();
                        assert(lines@[count + 1 + m]@ == "    "@ + actions[m].summary);
                    }
                }
                assert(shown =~= model);
            }
            Some(lines)
        },
    }
}

/// What a plan shows to machines.
pub fn prune_plan(items: &Vec<PruneCandidate>, expired_before_unix: u64, prepared: &PreparedCapability) -> (r: PrunePlan)
    ensures
        r.operation@ == "prune"@,
        r.expired_before_unix == expired_before_unix,
        candidate_views(r.environments@) == candidate_views(items@),
        r.plugin@ == prepared@.plugin_id,
        r.plan_id@ == prepared@.plan.plan_id,
        lifecycle::shows_actions(r.actions@, prepared@.plan.actions),
{
    let mut environments: Vec<PruneCandidate> = Vec::new();
    let mut i: usize = 0;
    while i < items.len()
        invariant
            i <= items@.len(),
            environments@.len() == i,
            forall|k: int| 0 <= k < i ==> (#[trigger] environments@[k])@ == items@[k]@,
        decreases items.len() - i,
    {
        let c = &items[i];
        environments.push(
            PruneCandidate {
                environment_id: c.environment_id.clone(),
                branch: text::copy_option(&c.branch),
                profile: text::copy_option(&c.profile),
                expires_at: text::copy_option(&c.expires_at),
                expires_at_unix: c.expires_at_unix,
            },
        );
        i += 1;
    }
    assert(candidate_views(environments@) =~= candidate_views(items@));
    PrunePlan {
        operation: "prune",
        expired_before_unix,
        environments,
        plugin: prepared.plugin_id.clone(),
        plan_id: prepared.plan.plan_id.clone(),
        actions: lifecycle::action_views(&prepared.plan.actions),
    }
}

/// What is shown where nothing expired.
pub open spec fn shows_nothing_expired(shown: Shown, profile: Seq<char>, format: OutputFormat, now: u64) -> bool {
    match (shown, format) {
        (Shown::Document(v), OutputFormat::Json) => v@ == DataV::Object(
            seq![
                ("destroyed"@, DataV::Integer(0)),
                ("environments"@, DataV::Array(Seq::empty())),
                ("expired_before_unix"@, DataV::Integer(now as int)),
                ("operation"@, DataV::Str("prune"@)),
            ],
        ),
        (Shown::Lines(lines), OutputFormat::Plain) => lines@.len() == 0,
        (Shown::Lines(lines), OutputFormat::Human) => text::texts(lines@) == seq![
            "No expired environments are visible through profile `"@ + profile + "`."@,
        ],
        _ => false,
    }
}

/// What is shown where nothing expired.
pub fn show_prune_empty(profile: &str, format: OutputFormat, expired_before_unix: u64) -> (r: Shown)
    ensures
        shows_nothing_expired(r, profile@, format, expired_before_unix),
{
    broadcast use {value::lemma_object_view, value::lemma_array_view};

    match format {
        OutputFormat::Json => {
            let none: Vec<Data> = Vec::new();
            assert(value::item_views(none@) =~= Seq::<DataV>::empty());
            let mut entries: Vec<(String, Data)> = Vec::new();
            entries.push(("destroyed".to_owned(), Data::Integer(0)));
            entries.push(("environments".to_owned(), Data::Array(none)));
            entries.push(("expired_before_unix".to_owned(), Data::Integer(expired_before_unix as i128)));
            entries.push(("operation".to_owned(), Data::text("prune")));
            assert(value::entry_views(entries@) =~= seq![
                ("destroyed"@, DataV::Integer(0)),
                ("environments"@, DataV::Array(Seq::empty())),
                ("expired_before_unix"@, DataV::Integer(expired_before_unix as int)),
                ("operation"@, DataV::Str("prune"@)),
            ]);
            Shown::Document(Data::Object(entries))
        },
        OutputFormat::Plain => Shown::Lines(Vec::new()),
        OutputFormat::Human => one_line(
            text::cat3("No expired environments are visible through profile `", profile, "`."),
        ),
    }
}

/// What is shown after expired environments were destroyed.
pub open spec fn shows_pruned(shown: Shown, profile: Seq<char>, format: OutputFormat, ids: Seq<Seq<char>>) -> bool {
    match (shown, format) {
        (Shown::Document(v), OutputFormat::Json) => v@ == DataV::Object(
            seq![
                ("destroyed"@, DataV::Integer(ids.len() as int)),
                ("environment_ids"@, protocol::text_items(ids)),
                ("operation"@, DataV::Str("prune"@)),
            ],
        ),
        (Shown::Lines(lines), OutputFormat::Plain) => text::texts(lines@) == ids,
        (Shown::Lines(lines), OutputFormat::Human) => text::texts(lines@) == seq![
            "Destroyed "@ + text::decimal(ids.len()) + " expired environment(s) visible through profile `"@
                + profile + "`."@,
        ],
        _ => false,
    }
}

/// What is shown after expired environments were destroyed.
pub fn show_pruned(profile: &str, format: OutputFormat, items: &Vec<PruneCandidate>) -> (r: Shown)
    ensures
        shows_pruned(r, profile@, format, ids_of(candidate_views(items@))),
{
    broadcast use value::lemma_object_view;

    let ids = id_list(items);
    let ghost model = ids_of(candidate_views(items@));
    assert(model.len() == items@.len());
    match format {
        OutputFormat::Json => {
            let mut entries: Vec<(String, Data)> = Vec::new();
            entries.push(("destroyed".to_owned(), Data::Integer(items.len() as i128)));
            entries.push(("environment_ids".to_owned(), protocol::text_list(&ids)));
            entries.push(("operation".to_owned(), Data::text("prune")));
            assert(value::entry_views(entries@) =~= seq![
                ("destroyed"@, DataV::Integer(model.len() as int)),
                ("environment_ids"@, protocol::text_items(model)),
                ("operation"@, DataV::Str("prune"@)),
            ]);
            Shown::Document(Data::Object(entries))
        },
        OutputFormat::Plain => Shown::Lines(ids),
        OutputFormat::Human => one_line(
            text::cat5(
                "Destroyed ",
                text::number(items.len() as u128).as_str(),
                " expired environment(s) visible through profile `",
                profile,
                "`.",
            ),
        ),
    }
}

/// Every environment that a target reports without a problem is one of the project, by its own
/// identifier, and none is reported twice.
proof fn lemma_own_environments(items: Seq<DataV>, project_id: Seq<char>, seen: Seq<Seq<char>>, i: int)
    requires
        observations_problem(items, project_id, seen) is None,
        0 <= i < items.len(),
    ensures
        value::field(items[i], "project_id"@) == Some(DataV::Str(project_id)),
        value::field(items[i], "environment_id"@) == Some(DataV::Str(observed_id(items[i]))),
        observed_id(items[i]).len() > 0,
        !seen.contains(observed_id(items[i])),
        forall|k: int| 0 <= k < i ==> observed_id(#[trigger] items[k]) != observed_id(items[i]),
    decreases items.len(),
{
    if i > 0 {
        let rest = items.subrange(1, items.len() as int);
        let more = seen.push(observed_id(items[0]));
        assert(rest[i - 1] == items[i]);
        lemma_own_environments(rest, project_id, more, i - 1);
        assert(more[seen.len() as int] == observed_id(items[0]));
        assert(more.contains(observed_id(items[0])));
        assert forall|k: int| 0 <= k < i implies observed_id(#[trigger] items[k]) != observed_id(items[i]) by {
            if k > 0 {
                assert(rest[k - 1] == items[k]);
            }
        }
        if seen.contains(observed_id(items[i])) {
            let k = choose|k: int| 0 <= k < seen.len() && seen[k] == observed_id(items[i]);
            assert(more[k] == observed_id(items[i]));
        }
    }
}

/// `prune` takes a report only where every environment in it belongs to the project.
pub proof fn only_own_environments_are_pruned(state: DataV, project_id: Seq<char>, i: int)
    requires
        state_problem(state, project_id) is None,
        0 <= i < observed(state).len(),
    ensures
        value::field(observed(state)[i], "project_id"@) == Some(DataV::Str(project_id)),
        value::field(observed(state)[i], "environment_id"@) matches Some(DataV::Str(id)) && id.len() > 0,
        value::field(state, "environment_contract"@) == Some(DataV::Integer(1)),
        forall|k: int|
            0 <= k < i ==> value::field(#[trigger] observed(state)[k], "environment_id"@) != value::field(
                observed(state)[i],
                "environment_id"@,
            ),
{
    let items = observed(state);
    lemma_own_environments(items, project_id, Seq::empty(), i);
    assert forall|k: int| 0 <= k < i implies value::field(#[trigger] items[k], "environment_id"@)
        != value::field(items[i], "environment_id"@) by {
        lemma_own_environments(items, project_id, Seq::empty(), k);
    }
}

/// An environment is a candidate exactly where it says when it expires and that time has come.
/// One that says nothing of it never is.
pub proof fn only_expired_environments_are_candidates(item: DataV, at: u64, now: u64)
    ensures
        value::field(item, "expires_at_unix"@) == Some(DataV::Integer(at as int)) ==> (expired(item, now) is Some
            <==> at <= now),
        value::field(item, "expires_at_unix"@) is None ==> expired(item, now) is None,
        value::field(item, "expires_at_unix"@) == Some(DataV::Null) ==> expired(item, now) is None,
        expired(item, now) matches Some(c) ==> c.expires_at_unix <= now && value::field(item, "expires_at_unix"@)
            == Some(DataV::Integer(c.expires_at_unix as int)),
        expired(item, now) matches Some(c) ==> (value::field(item, "environment_id"@) matches Some(
            DataV::Str(id),
        ) ==> c.environment_id == id),
        expired(item, now) matches Some(c) ==> (value::field(item, "branch"@) matches Some(DataV::Str(branch))
            ==> c.branch == Some(branch)),
        expired(item, now) matches Some(c) ==> (value::field(item, "profile"@) matches Some(DataV::Str(profile))
            ==> c.profile == Some(profile)),
{
}

/// A request to prune names exactly the selected environments, in their order.
pub proof fn requests_name_what_is_selected(ids: Seq<Seq<char>>)
    ensures
        value::field(selection(ids), "environment_ids"@) matches Some(DataV::Array(named)) && named.len()
            == ids.len() && forall|i: int| 0 <= i < ids.len() ==> #[trigger] named[i] == DataV::Str(ids[i]),
{
    let entries = selection(ids)->Object_0;
    assert(entries[0].0 == "environment_ids"@);
    assert(value::lookup(entries, "environment_ids"@) == Some(entries[0].1));
}

/// Pruning succeeds exactly where the plugin reports that everything is destroyed and that nothing
/// is left, and the operator did not stop it. The journal says the same.
pub proof fn pruning_succeeds_only_when_nothing_is_left(j: JournalV, item: PreparedV, attempt: DestroyAttempt)
    ensures
        prune_failure(attempt) is None <==> !attempt.cancelled && (attempt.result matches Ok(report)
            && report.destroyed && report.remaining@.len() == 0),
        journal_after_prune(j, item, attempt).status == OperationStatus::Succeeded <==> !attempt.cancelled && (
        attempt.result matches Ok(report) && report.destroyed && report.remaining@.len() == 0),
        journal_after_prune(j, item, attempt).error is None <==> !attempt.cancelled && (
        attempt.result matches Ok(report) && report.destroyed && report.remaining@.len() == 0),
{
}

/// A plan to prune is accepted exactly where it changes something and every action destroys.
pub proof fn plans_to_prune_destroy(plugin_id: Seq<char>, plan: PlanV, n: nat)
    ensures
        plan_problem(plugin_id, plan, n) is None <==> plan.has_changes && plan.actions.len() > 0 && forall|i: int|
            0 <= i < plan.actions.len() ==> (#[trigger] plan.actions[i]).destructive,
{
}

/// A profile is pruned exactly where each environment is isolated by its provider and one plugin
/// destroys all of it.
pub proof fn one_plugin_prunes(p: LoadedProject)
    requires
        p.wf(),
    ensures
        prune_problem(p) is None <==> p.selected().isolation == Isolation::Environment && forall|c: Capability|
            c == Capability::Dns || c == Capability::Exposure || c == Capability::Runtime
                ==> #[trigger] p.selected().pipeline.assigned(c) == p.selected().pipeline.assigned(
                Capability::Target,
            ),
{
}

/// The plan of a pruning tells how many environments go, names each of them with the time it
/// expired, and tells each action.
pub proof fn plans_to_prune_name_each_environment(
    profile: Seq<char>,
    items: Seq<CandidateV>,
    actions: Seq<ActionV>,
    i: int,
    k: int,
)
    requires
        0 <= i < items.len(),
        0 <= k < actions.len(),
    ensures
        plan_lines(profile, items, actions).len() == 1 + items.len() + actions.len(),
        plan_lines(profile, items, actions)[0] == "Plan: prune "@ + text::decimal(items.len())
            + " expired environment(s) from profile `"@ + profile + "`"@,
        items[i].branch is Some && items[i].profile is Some && items[i].expires_at is Some ==> plan_lines(
            profile,
            items,
            actions,
        )[1 + i] == "  - "@ + (items[i].branch->0 + " / "@ + items[i].profile->0) + " (expired "@
            + items[i].expires_at->0 + ")"@,
        items[i].branch is None && items[i].expires_at is None ==> plan_lines(profile, items, actions)[1 + i]
            == "  - "@ + items[i].environment_id + " (expired "@ + text::decimal(items[i].expires_at_unix as nat)
            + ")"@,
        plan_lines(profile, items, actions)[1 + items.len() + k] == "    "@ + actions[k].summary,
{
}

/// What was pruned is reported: how many, and each by its name.
pub proof fn prunings_are_reported(shown: Shown, profile: Seq<char>, format: OutputFormat, ids: Seq<Seq<char>>)
    requires
        shows_pruned(shown, profile, format, ids),
    ensures
        format == OutputFormat::Plain ==> (shown matches Shown::Lines(lines) && text::texts(lines@) == ids),
        format == OutputFormat::Human ==> (shown matches Shown::Lines(lines) && text::texts(lines@) == seq![
            "Destroyed "@ + text::decimal(ids.len()) + " expired environment(s) visible through profile `"@
                + profile + "`."@,
        ]),
        format == OutputFormat::Json ==> (shown matches Shown::Document(v) && value::field(v@, "destroyed"@) == Some(
            DataV::Integer(ids.len() as int),
        ) && value::field(v@, "operation"@) == Some(DataV::Str("prune"@)) && (value::field(v@, "environment_ids"@)
            matches Some(DataV::Array(items)) && items.len() == ids.len() && forall|i: int|
            0 <= i < ids.len() ==> items[i] == DataV::Str(#[trigger] ids[i]))),
{
    if format == OutputFormat::Json {
        reveal_strlit("destroyed");
        reveal_strlit("environment_ids");
        reveal_strlit("operation");
        assert("destroyed"@.len() == 9 && "environment_ids"@.len() == 15 && "operation"@.len() == 9);
        assert("destroyed"@[0] != "operation"@[0]);
        let entries = shown->Document_0@->Object_0;
        let names = seq!["destroyed"@, "environment_ids"@, "operation"@];
        assert(value::names_of(entries) =~= names);
        assert(names[0] == "destroyed"@ && names[1] == "environment_ids"@ && names[2] == "operation"@);
        assert(names.no_duplicates());
        value::lemma_distinct(entries, names);
    }
}

/// Where nothing expired, nothing is reported as destroyed.
pub proof fn nothing_expired_means_nothing_destroyed(shown: Shown, profile: Seq<char>, format: OutputFormat, now: u64)
    requires
        shows_nothing_expired(shown, profile, format, now),
    ensures
        format == OutputFormat::Plain ==> (shown matches Shown::Lines(lines) && lines@.len() == 0),
        format == OutputFormat::Json ==> (shown matches Shown::Document(v) && value::field(v@, "destroyed"@) == Some(
            DataV::Integer(0),
        )),
{
    if format == OutputFormat::Json {
        let entries = shown->Document_0@->Object_0;
        assert(entries[0].0 == "destroyed"@);
    }
}

/// Every environment that the target reports and whose time is over is a candidate; nothing that
/// it does not report is.
pub proof fn every_expired_environment_is_a_candidate(state: DataV, items: Seq<DataV>, now: u64, i: int, at: u64)
    requires
        value::field(state, "environments"@) == Some(DataV::Array(items)),
        0 <= i < items.len(),
        value::field(items[i], "expires_at_unix"@) == Some(DataV::Integer(at as int)),
        at <= now,
    ensures
        exists|k: int|
            0 <= k < candidates(observed(state), now).len() && (#[trigger] candidates(
                observed(state),
                now,
            )[k]).expires_at_unix == at && (value::field(items[i], "environment_id"@) matches Some(DataV::Str(id))
                ==> candidates(observed(state), now)[k].environment_id == id),
        forall|c: CandidateV| #[trigger]
            candidates(observed(state), now).contains(c) ==> exists|j: int|
                0 <= j < items.len() && expired(#[trigger] items[j], now) == Some(c),
{
    selection_is_exact(observed(state), now);
    let c = expired(items[i], now)->0;
    let found = candidates(observed(state), now);
    assert(expired(observed(state)[i], now) == Some(c));
    assert(found.contains(c));
    let k = choose|k: int| 0 <= k < found.len() && found[k] == c;
    assert(found[k].expires_at_unix == at);
    assert forall|d: CandidateV| #[trigger] found.contains(d) implies exists|j: int|
        0 <= j < items.len() && expired(#[trigger] items[j], now) == Some(d) by {
        let j = choose|j: int| 0 <= j < observed(state).len() && expired(#[trigger] observed(state)[j], now) == Some(d);
        assert(items[j] == observed(state)[j]);
    }
}

/// The selection reaches the plugin with everything else as it was.
pub proof fn selections_reach_the_plugin(context: ContextV, items: Seq<CandidateV>, name: Seq<char>)
    requires
        context.metadata is Object,
    ensures
        value::field(selected_context(context, items).metadata, "selection"@) == Some(selection(ids_of(items))),
        name != "selection"@ ==> value::field(selected_context(context, items).metadata, name) == value::field(
            context.metadata,
            name,
        ),
        selected_context(context, items).secrets == context.secrets,
        selected_context(context, items).config == context.config,
        selected_context(context, items).environment_id == context.environment_id,
        ids_of(items).len() == items.len(),
        forall|i: int| 0 <= i < items.len() ==> ids_of(items)[i] == (#[trigger] items[i]).environment_id,
{
    let metadata = context.metadata->Object_0;
    value::lemma_put_found(metadata, "selection"@, selection(ids_of(items)));
    if name != "selection"@ {
        value::lemma_put_kept(metadata, "selection"@, selection(ids_of(items)), name);
    }
}

} // verus!
