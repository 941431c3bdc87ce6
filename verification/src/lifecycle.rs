//! What the commands on an environment have in common.

use vstd::prelude::*;

use crate::config::{Capability, Isolation};
use crate::error::{CliError, CliErrorV};
use crate::models::{ActionV, DiagnosticV, EndpointV, InspectV};
use crate::output::OutputFormat;
use crate::prepared::{PreparedCapability, PreparedV};
use crate::project::LoadedProject;
use crate::protocol::{
    Diagnostic, InspectRequest, InspectResult, OperationContext, PlanRequest, PlanResult, PlannedAction,
    ResourceStatus, ValidateRequest, ValidateResult,
};
use crate::text;
use crate::value;
use crate::value::{Data, DataV};
use crate::view;
use crate::view::{
    ActionView, EnvironmentSummaryView, EnvironmentView, PlanView, PluginPlanView, PluginStatusView,
};
use crate::{models, prepared};

verus! {

/// Options of `up`.
#[derive(Clone, Debug)]
pub struct UpOptions {
    pub dry_run: bool,
    pub keep_failed: bool,
    pub lock_timeout_ms: u128,
    pub output: OutputFormat,
}

/// Options of `down`.
#[derive(Clone, Debug)]
pub struct DownOptions {
    pub all: bool,
    pub dry_run: bool,
    pub yes: bool,
    pub force: bool,
    pub lock_timeout_ms: u128,
    pub output: OutputFormat,
}

/// Options of `prune`.
#[derive(Clone, Debug)]
pub struct PruneOptions {
    pub dry_run: bool,
    pub yes: bool,
    pub lock_timeout_ms: u128,
    pub output: OutputFormat,
}

/// Options of queries.
#[derive(Clone, Debug)]
pub struct QueryOptions {
    pub all: bool,
    pub output: OutputFormat,
}

/// Options of `logs`.
#[derive(Clone, Debug)]
pub struct LogOptions {
    pub service: Option<String>,
    pub follow: bool,
    pub tail: usize,
    pub output: OutputFormat,
}

// ---------------------------------------------------------------------------
// Plans
// ---------------------------------------------------------------------------

/// What is shown of an action.
pub open spec fn shows_action(v: ActionView, action: ActionV) -> bool {
    v.id@ == action.id && v.summary@ == action.summary && v.destructive == action.destructive
}

/// What is shown of actions.
pub open spec fn shows_actions(views: Seq<ActionView>, actions: Seq<ActionV>) -> bool {
    views.len() == actions.len() && forall|i: int|
        0 <= i < views.len() ==> shows_action(#[trigger] views[i], actions[i])
}

/// What is shown of a capability's plan.
pub open spec fn shows_plugin(v: PluginPlanView, item: PreparedV) -> bool {
    &&& v.capability@ == item.capability.text()
    &&& v.plugin@ == item.plugin_id
    &&& v.plan_id@ == item.plan.plan_id
    &&& v.has_changes == item.plan.has_changes
    &&& shows_actions(v.actions@, item.plan.actions)
}

/// Whether any capability plans changes.
pub open spec fn any_changes(items: Seq<PreparedV>) -> bool {
    exists|i: int| 0 <= i < items.len() && (#[trigger] items[i]).plan.has_changes
}

/// What is shown of an operation's plan.
pub open spec fn shows_plan(v: PlanView, p: LoadedProject, operation: Seq<char>, items: Seq<PreparedV>) -> bool {
    &&& v.environment_id@ == p.environment()
    &&& v.branch@ == p.git@.branch
    &&& v.profile@ == p.profile_name@
    &&& v.operation@ == operation
    &&& v.has_changes == any_changes(items)
    &&& v.plugins@.len() == items.len()
    &&& forall|i: int| 0 <= i < items.len() ==> shows_plugin(#[trigger] v.plugins@[i], items[i])
}

/// What is shown of actions.
pub fn action_views(actions: &Vec<PlannedAction>) -> (r: Vec<ActionView>)
    ensures
        shows_actions(r@, models::action_views(actions@)),
{
    let mut out: Vec<ActionView> = Vec::new();
    let mut i: usize = 0;
    while i < actions.len()
        invariant
            i <= actions@.len(),
            out@.len() == i,
            forall|k: int| 0 <= k < i ==> shows_action(#[trigger] out@[k], actions@[k]@),
        decreases actions.len() - i,
    {
        out.push(
            ActionView {
                id: actions[i].id.clone(),
                summary: actions[i].summary.clone(),
                destructive: actions[i].destructive,
            },
        );
        i += 1;
    }
    out
}

/// What is shown of an operation's plan.
pub fn plan_view(p: &LoadedProject, operation: &'static str, items: &Vec<PreparedCapability>) -> (r: PlanView)
    requires
        p.wf(),
    ensures
        shows_plan(r, *p, operation@, prepared::prepared_views(items@)),
{
    let ghost views = prepared::prepared_views(items@);
    let mut plugins: Vec<PluginPlanView> = Vec::new();
    let mut has_changes = false;
    let mut i: usize = 0;
    while i < items.len()
        invariant
            i <= items@.len(),
            views == prepared::prepared_views(items@),
            plugins@.len() == i,
            forall|k: int| 0 <= k < i ==> shows_plugin(#[trigger] plugins@[k], views[k]),
            has_changes == (exists|k: int| 0 <= k < i && (#[trigger] views[k]).plan.has_changes),
        decreases items.len() - i,
    {
        let item = &items[i];
        assert(views[i as int] == item@);
        plugins.push(
            PluginPlanView {
                capability: item.capability.as_str().to_owned(),
                plugin: item.plugin_id.clone(),
                plan_id: item.plan.plan_id.clone(),
                has_changes: item.plan.has_changes,
                actions: action_views(&item.plan.actions),
            },
        );
        if item.plan.has_changes {
            assert(views[i as int].plan.has_changes);
            has_changes = true;
        }
        i += 1;
    }
    PlanView {
        environment_id: p.identity.id().as_str().to_owned(),
        branch: p.git.branch().to_owned(),
        profile: p.profile_name.clone(),
        operation,
        has_changes,
        plugins,
    }
}

// ---------------------------------------------------------------------------
// Validation
// ---------------------------------------------------------------------------

/// What plugins remark, each with its code.
pub open spec fn remarks(items: Seq<DiagnosticV>) -> Seq<Seq<char>> {
    Seq::new(items.len(), |i: int| items[i].code + ": "@ + items[i].message)
}

/// What plugins remark, in one line.
fn remark_line(items: &Vec<Diagnostic>) -> (r: String)
    ensures
        r@ == text::joined(remarks(models::diagnostic_views(items@)), "; "@),
{
    let mut lines: Vec<String> = Vec::new();
    let mut i: usize = 0;
    while i < items.len()
        invariant
            i <= items@.len(),
            lines@.len() == i,
            forall|k: int|
                0 <= k < i ==> (#[trigger] lines@[k])@ == items@[k].code@ + ": "@ + items@[k].message@,
        decreases items.len() - i,
    {
        lines.push(text::cat3(items[i].code.as_str(), ": ", items[i].message.as_str()));
        i += 1;
    }
    assert(text::texts(lines@) =~= remarks(models::diagnostic_views(items@)));
    text::join(&lines, "; ")
}

/// Rejects what a plugin rejects. `subject` says what it was asked to validate.
pub fn accept_validation(plugin_id: &str, subject: &str, result: &ValidateResult) -> (r: Result<(), CliError>)
    ensures
        match r {
            Ok(()) => result.valid,
            Err(e) => !result.valid && e@ == CliErrorV::Plugin(
                "plugin `"@ + plugin_id@ + "` rejected "@ + subject@ + ": "@ + text::joined(
                    remarks(models::diagnostic_views(result.diagnostics@)),
                    "; "@,
                ),
            ),
        },
{
    if result.valid {
        return Ok(());
    }
    let details = remark_line(&result.diagnostics);
    let head = text::cat5("plugin `", plugin_id, "` rejected ", subject, ": ");
    Err(CliError::Plugin(text::cat2(head.as_str(), details.as_str())))
}

/// What is validated of a capability.
pub fn validation_subject(capability: Capability) -> (r: String)
    ensures
        r@ == capability.text() + " configuration"@,
{
    text::cat2(capability.as_str(), " configuration")
}

// ---------------------------------------------------------------------------
// Preparing
// ---------------------------------------------------------------------------

/// A capability while it is validated, inspected and planned.
pub struct Preparation {
    pub capability: Capability,
    pub plugin_id: String,
    pub context: OperationContext,
    /// What is desired of the capability.
    pub desired: Data,
    /// What a rejection is about.
    pub subject: String,
}

impl Preparation {
    /// Begins to prepare a capability for the state of the target.
    pub fn new(
        p: &LoadedProject,
        capability: Capability,
        context: OperationContext,
        base_desired: &Data,
        target_state: &Data,
    ) -> (r: Preparation)
        requires
            p.wf(),
            base_desired@ is Object,
        ensures
            r.capability == capability,
            r.plugin_id@ == p.selected().pipeline.assigned(capability),
            r.context == context,
            r.desired@ == prepared::desired_for(base_desired@->Object_0, target_state@),
            r.subject@ == capability.text() + " configuration"@,
    {
        Preparation {
            capability,
            plugin_id: p.plugin_id(capability).to_owned(),
            context,
            desired: prepared::desired_with_target(base_desired, target_state),
            subject: validation_subject(capability),
        }
    }

    /// Asks the plugin to validate what is desired.
    pub fn validate_request(&self) -> (r: ValidateRequest)
        ensures
            r.context@ == self.context@,
            r.desired@ == self.desired@,
    {
        ValidateRequest { context: self.context.duplicate(), desired: self.desired.duplicate() }
    }

    /// Rejects what the plugin rejects.
    pub fn validated(&self, result: &ValidateResult) -> (r: Result<(), CliError>)
        ensures
            match r {
                Ok(()) => result.valid,
                Err(e) => !result.valid && e@ == CliErrorV::Plugin(
                    "plugin `"@ + self.plugin_id@ + "` rejected "@ + self.subject@ + ": "@ + text::joined(
                        remarks(models::diagnostic_views(result.diagnostics@)),
                        "; "@,
                    ),
                ),
            },
    {
        accept_validation(self.plugin_id.as_str(), self.subject.as_str(), result)
    }

    /// Asks the plugin for the managed state.
    pub fn inspect_request(&self) -> (r: InspectRequest)
        ensures
            r.context@ == self.context@,
    {
        InspectRequest { context: self.context.duplicate() }
    }

    /// Asks the plugin for a plan from the state that was inspected.
    pub fn plan_request(&self, current: &InspectResult) -> (r: PlanRequest)
        ensures
            r.context@ == self.context@,
            r.desired@ == self.desired@,
            prepared::option_data(r.current) == Some(current@.state),
    {
        PlanRequest {
            context: self.context.duplicate(),
            desired: self.desired.duplicate(),
            current: Some(current.state.duplicate()),
        }
    }

    /// The capability is prepared.
    pub fn planned(self, current: InspectResult, plan: PlanResult) -> (r: PreparedCapability)
        ensures
            r.capability == self.capability,
            r.plugin_id == self.plugin_id,
            r.context == self.context,
            r.current == current,
            r.plan == plan,
    {
        PreparedCapability {
            capability: self.capability,
            plugin_id: self.plugin_id,
            context: self.context,
            current,
            plan,
        }
    }
}

// ---------------------------------------------------------------------------
// Views of environments
// ---------------------------------------------------------------------------

/// An observation of a capability by its plugin.
#[derive(Clone, Debug)]
pub struct Observation {
    pub capability: Capability,
    pub plugin_id: String,
    pub inspection: InspectResult,
}

/// The model of [`Observation`].
#[verifier::ext_equal]
pub struct ObservationV {
    pub capability: Capability,
    pub plugin_id: Seq<char>,
    pub inspection: InspectV,
}

impl View for Observation {
    type V = ObservationV;

    open spec fn view(&self) -> ObservationV {
        ObservationV {
            capability: self.capability,
            plugin_id: self.plugin_id@,
            inspection: self.inspection@,
        }
    }
}

/// The models of observations.
pub open spec fn observation_views(items: Seq<Observation>) -> Seq<ObservationV> {
    Seq::new(items.len(), |i: int| items[i]@)
}

/// What is seen of observations.
pub open spec fn inspections_of(items: Seq<ObservationV>) -> Seq<InspectV> {
    Seq::new(items.len(), |i: int| items[i].inspection)
}

/// What is shown of a plugin's observation.
pub open spec fn shows_observation(v: PluginStatusView, o: ObservationV) -> bool {
    &&& v.capability@ == o.capability.text()
    &&& v.plugin@ == o.plugin_id
    &&& v.status == o.inspection.status
    &&& v.state@ == o.inspection.state
}

/// What is shown of plugins' observations.
pub open spec fn shows_observations(views: Seq<PluginStatusView>, items: Seq<ObservationV>) -> bool {
    views.len() == items.len() && forall|i: int|
        0 <= i < views.len() ==> shows_observation(#[trigger] views[i], items[i])
}

/// The statuses that capabilities beside the target report.
pub open spec fn downstream_statuses(items: Seq<ObservationV>) -> Seq<ResourceStatus>
    decreases items.len(),
{
    if items.len() == 0 {
        Seq::empty()
    } else if items.last().capability == Capability::Target {
        downstream_statuses(items.drop_last())
    } else {
        downstream_statuses(items.drop_last()).push(items.last().inspection.status)
    }
}

/// The status of an environment: that of what runs on its target. Where nothing is seen of
/// all machines, the status of the target itself.
pub open spec fn environment_status(items: Seq<ObservationV>, all_machines: bool) -> ResourceStatus {
    let downstream = view::combined(downstream_statuses(items));
    if downstream == ResourceStatus::Absent && all_machines {
        if items.len() > 0 {
            items[0].inspection.status
        } else {
            ResourceStatus::Absent
        }
    } else {
        downstream
    }
}

/// What is shown of an environment.
pub open spec fn shows_environment(
    v: EnvironmentView,
    p: LoadedProject,
    status: ResourceStatus,
    items: Seq<ObservationV>,
    all: bool,
) -> bool {
    &&& v.environment_id@ == p.environment()
    &&& v.branch@ == p.git@.branch
    &&& v.profile@ == p.profile_name@
    &&& v.status == status
    &&& models::endpoint_views(v.endpoints@) == view::all_endpoints(inspections_of(items))
    &&& shows_observations(v.plugins@, items)
    &&& view::summary_views(v.environments@) == if all {
        view::summaries(inspections_of(items))
    } else {
        Seq::empty()
    }
}

/// The inspections of observations.
fn inspections(items: &Vec<Observation>) -> (r: Vec<InspectResult>)
    ensures
        view::inspect_views(r@) == inspections_of(observation_views(items@)),
{
    let mut out: Vec<InspectResult> = Vec::new();
    let mut i: usize = 0;
    while i < items.len()
        invariant
            i <= items@.len(),
            out@.len() == i,
            forall|k: int| 0 <= k < i ==> (#[trigger] out@[k])@ == items@[k].inspection@,
        decreases items.len() - i,
    {
        out.push(items[i].inspection.duplicate());
        i += 1;
    }
    assert(view::inspect_views(out@) =~= inspections_of(observation_views(items@)));
    out
}

/// Shows an environment with a status.
fn show_environment(p: &LoadedProject, status: ResourceStatus, items: &Vec<Observation>, all: bool) -> (r:
    EnvironmentView)
    requires
        p.wf(),
    ensures
        shows_environment(r, *p, status, observation_views(items@), all),
{
    let ghost views = observation_views(items@);
    let seen = inspections(items);
    let environments = if all {
        view::collect_environment_summaries(&seen)
    } else {
        let none: Vec<EnvironmentSummaryView> = Vec::new();
        assert(view::summary_views(none@) =~= Seq::<view::SummaryV>::empty());
        none
    };
    let mut plugins: Vec<PluginStatusView> = Vec::new();
    let mut i: usize = 0;
    while i < items.len()
        invariant
            i <= items@.len(),
            views == observation_views(items@),
            plugins@.len() == i,
            forall|k: int| 0 <= k < i ==> shows_observation(#[trigger] plugins@[k], views[k]),
        decreases items.len() - i,
    {
        let item = &items[i];
        assert(views[i as int] == item@);
        plugins.push(
            PluginStatusView {
                capability: item.capability.as_str().to_owned(),
                plugin: item.plugin_id.clone(),
                status: item.inspection.status,
                state: item.inspection.state.duplicate(),
            },
        );
        i += 1;
    }
    EnvironmentView {
        environment_id: p.identity.id().as_str().to_owned(),
        branch: p.git.branch().to_owned(),
        profile: p.profile_name.clone(),
        status,
        endpoints: view::collect_endpoints(&seen),
        plugins,
        environments,
    }
}

/// The observations of prepared capabilities.
pub open spec fn prepared_observations(items: Seq<PreparedV>) -> Seq<ObservationV> {
    Seq::new(
        items.len(),
        |i: int|
            ObservationV {
                capability: items[i].capability,
                plugin_id: items[i].plugin_id,
                inspection: items[i].current,
            },
    )
}

/// The statuses of observations.
pub open spec fn statuses_of(items: Seq<ObservationV>) -> Seq<ResourceStatus> {
    Seq::new(items.len(), |i: int| items[i].inspection.status)
}

/// What is shown of an environment whose changes were only planned.
pub fn planned_environment(p: &LoadedProject, items: &Vec<PreparedCapability>) -> (r: EnvironmentView)
    requires
        p.wf(),
    ensures
        ({
            let observed = prepared_observations(prepared::prepared_views(items@));
            shows_environment(r, *p, view::combined(statuses_of(observed)), observed, false)
        }),
{
    let ghost observed = prepared_observations(prepared::prepared_views(items@));
    let mut statuses: Vec<ResourceStatus> = Vec::new();
    let mut seen: Vec<Observation> = Vec::new();
    let mut i: usize = 0;
    while i < items.len()
        invariant
            i <= items@.len(),
            observed == prepared_observations(prepared::prepared_views(items@)),
            statuses@.len() == i,
            seen@.len() == i,
            forall|k: int| 0 <= k < i ==> #[trigger] statuses@[k] == observed[k].inspection.status,
            forall|k: int| 0 <= k < i ==> (#[trigger] seen@[k])@ == observed[k],
        decreases items.len() - i,
    {
        let item = &items[i];
        assert(prepared::prepared_views(items@)[i as int] == item@);
        statuses.push(item.current.status);
        seen.push(
            Observation {
                capability: item.capability,
                plugin_id: item.plugin_id.clone(),
                inspection: item.current.duplicate(),
            },
        );
        i += 1;
    }
    assert(statuses@ =~= statuses_of(observed));
    assert(observation_views(seen@) =~= observed);
    show_environment(p, view::combined_status(&statuses), &seen, false)
}

// ---------------------------------------------------------------------------
// Inspecting an environment
// ---------------------------------------------------------------------------

/// The state of a target: what was observed, else what was known before.
pub open spec fn observed_target(observed: DataV, initial: DataV) -> DataV {
    if observed is Null {
        initial
    } else {
        observed
    }
}

/// The targets whose environments are inspected: all machines that the target lists, or the
/// target itself.
pub open spec fn downstream_targets(state: DataV, all_machines: bool) -> Seq<DataV> {
    if all_machines {
        match value::items_of(value::field(state, "targets"@)) {
            Some(items) => items,
            None => Seq::empty(),
        }
    } else {
        seq![state]
    }
}

/// Whether all machines of a project are inspected.
pub open spec fn covers_all_machines(p: LoadedProject, all: bool) -> bool {
    all && p.selected().isolation == Isolation::Machine
}

/// The targets whose environments are inspected.
pub fn inspected_targets(p: &LoadedProject, all: bool, observed: &InspectResult, initial: &Data) -> (r: Vec<Data>)
    requires
        p.wf(),
    ensures
        value::item_views(r@) == downstream_targets(
            observed_target(observed@.state, initial@),
            covers_all_machines(*p, all),
        ),
{
    broadcast use {value::lemma_object_view, value::lemma_array_view};

    let state = match &observed.state {
        Data::Null => initial.duplicate(),
        other => other.duplicate(),
    };
    let mut out: Vec<Data> = Vec::new();
    assert(value::item_views(out@) =~= Seq::<DataV>::empty());
    if all && p.profile().isolation == Isolation::Machine {
        if let Some(v) = state.get("targets") {
            if let Some(items) = v.as_array() {
                return duplicate_items(items);
            }
        }
        return out;
    }
    let ghost model = state@;
    out.push(state);
    assert(value::item_views(out@) =~= seq![model]);
    out
}

/// A copy of values.
fn duplicate_items(items: &Vec<Data>) -> (r: Vec<Data>)
    ensures
        value::item_views(r@) == value::item_views(items@),
{
    let mut out: Vec<Data> = Vec::new();
    let mut i: usize = 0;
    while i < items.len()
        invariant
            i <= items@.len(),
            out@.len() == i,
            forall|k: int| 0 <= k < i ==> (#[trigger] out@[k])@ == items@[k]@,
        decreases items.len() - i,
    {
        out.push(items[i].duplicate());
        i += 1;
    }
    assert(value::item_views(out@) =~= value::item_views(items@));
    out
}

/// The capabilities that are inspected on a target: one for each plugin.
pub open spec fn downstream_capabilities(p: LoadedProject) -> Seq<Capability> {
    let runtime = p.selected().pipeline.assigned(Capability::Runtime);
    let exposure = p.selected().pipeline.assigned(Capability::Exposure);
    let dns = p.selected().pipeline.assigned(Capability::Dns);
    let first = seq![Capability::Runtime];
    let second = if exposure != runtime {
        first.push(Capability::Exposure)
    } else {
        first
    };
    if dns != runtime && dns != exposure {
        second.push(Capability::Dns)
    } else {
        second
    }
}

/// The capabilities that are inspected on a target.
pub fn inspected_capabilities(p: &LoadedProject) -> (r: Vec<Capability>)
    requires
        p.wf(),
    ensures
        r@ == downstream_capabilities(*p),
{
    let runtime = p.plugin_id(Capability::Runtime);
    let exposure = p.plugin_id(Capability::Exposure);
    let dns = p.plugin_id(Capability::Dns);
    let mut out: Vec<Capability> = Vec::new();
    out.push(Capability::Runtime);
    if !text::same(exposure, runtime) {
        out.push(Capability::Exposure);
    }
    if !text::same(dns, runtime) && !text::same(dns, exposure) {
        out.push(Capability::Dns);
    }
    assert(out@ =~= downstream_capabilities(*p));
    out
}

/// The name under which an unreachable machine is shown.
pub open spec fn machine_or_unknown(target: DataV) -> Seq<char> {
    match view::machine_name(target) {
        Some(name) => name,
        None => "unknown-machine"@,
    }
}

/// What stands for the observation of a machine that cannot be reached.
pub open spec fn unreachable_machine(id: Seq<char>) -> InspectV {
    InspectV {
        status: ResourceStatus::Degraded,
        endpoints: Seq::empty(),
        state: DataV::Object(
            seq![
                (
                    "environments"@,
                    DataV::Array(
                        seq![
                            DataV::Object(
                                seq![
                                    ("environment_id"@, DataV::Str(id)),
                                    ("status"@, DataV::Str("degraded"@)),
                                ],
                            ),
                        ],
                    ),
                ),
            ],
        ),
        diagnostics: Seq::empty(),
    }
}

/// What became of an inspection.
pub struct Inspected {
    pub inspection: InspectResult,
    pub warning: Option<String>,
}

/// Decides on an inspection: among all machines one that cannot be reached is shown as
/// degraded, with a warning; elsewhere a failure stands.
pub fn accept_inspection(
    p: &LoadedProject,
    all: bool,
    target: &Data,
    outcome: Result<InspectResult, CliError>,
) -> (r: Result<Inspected, CliError>)
    requires
        p.wf(),
    ensures
        match (outcome, r) {
            (Ok(a), Ok(b)) => b.inspection == a && b.warning is None,
            (Err(e), Ok(b)) => covers_all_machines(*p, all) && b.inspection@ == unreachable_machine(
                machine_or_unknown(target@),
            ) && text::option_of(b.warning) == Some(
                "warning: could not inspect runtime on "@ + machine_or_unknown(target@) + ": "@
                    + crate::error::error_text(e@),
            ),
            (Err(e), Err(f)) => !covers_all_machines(*p, all) && e == f,
            _ => false,
        },
{
    let error = match outcome {
        Ok(inspection) => {
            return Ok(Inspected { inspection, warning: None });
        },
        Err(error) => error,
    };
    if !(all && p.profile().isolation == Isolation::Machine) {
        return Err(error);
    }
    let id = match view::name_machine(target) {
        Some(name) => name,
        None => "unknown-machine".to_owned(),
    };
    let warning = text::cat4(
        "warning: could not inspect runtime on ",
        id.as_str(),
        ": ",
        error.message().as_str(),
    );
    Ok(Inspected { inspection: degraded_machine(id.as_str()), warning: Some(warning) })
}

/// What stands for the observation of a machine that cannot be reached.
fn degraded_machine(id: &str) -> (r: InspectResult)
    ensures
        r@ == unreachable_machine(id@),
{
    broadcast use {value::lemma_object_view, value::lemma_array_view};

    let mut entry: Vec<(String, Data)> = Vec::new();
    entry.push(("environment_id".to_owned(), Data::text(id)));
    entry.push(("status".to_owned(), Data::text("degraded")));
    let ghost model = seq![("environment_id"@, DataV::Str(id@)), ("status"@, DataV::Str("degraded"@))];
    assert(value::entry_views(entry@) =~= model);
    let mut environments: Vec<Data> = Vec::new();
    environments.push(Data::Object(entry));
    assert(value::item_views(environments@) =~= seq![DataV::Object(model)]);
    let mut state: Vec<(String, Data)> = Vec::new();
    state.push(("environments".to_owned(), Data::Array(environments)));
    assert(value::entry_views(state@) =~= seq![
        ("environments"@, DataV::Array(seq![DataV::Object(model)])),
    ]);
    let r = InspectResult {
        status: ResourceStatus::Degraded,
        endpoints: Vec::new(),
        state: Data::Object(state),
        diagnostics: Vec::new(),
    };
    assert(r@.endpoints =~= Seq::<EndpointV>::empty());
    assert(r@.diagnostics =~= Seq::<DiagnosticV>::empty());
    r
}

/// What is shown of an environment that was inspected; the target's observation comes first.
pub fn inspected_environment(p: &LoadedProject, all: bool, observations: &Vec<Observation>) -> (r: EnvironmentView)
    requires
        p.wf(),
    ensures
        shows_environment(
            r,
            *p,
            environment_status(observation_views(observations@), covers_all_machines(*p, all)),
            observation_views(observations@),
            all,
        ),
{
    let ghost views = observation_views(observations@);
    let mut statuses: Vec<ResourceStatus> = Vec::new();
    let mut i: usize = 0;
    assert(views.take(0) =~= Seq::<ObservationV>::empty());
    while i < observations.len()
        invariant
            i <= observations@.len(),
            views == observation_views(observations@),
            statuses@ == downstream_statuses(views.take(i as int)),
        decreases observations.len() - i,
    {
        let item = &observations[i];
        assert(views.take(i + 1).drop_last() =~= views.take(i as int));
        assert(views.take(i + 1).last() == item@);
        if item.capability != Capability::Target {
            statuses.push(item.inspection.status);
        }
        i += 1;
    }
    assert(views.take(views.len() as int) =~= views);
    let downstream = view::combined_status(&statuses);
    let status = if downstream == ResourceStatus::Absent && all && p.profile().isolation == Isolation::Machine {
        if observations.len() > 0 {
            assert(views[0] == observations@[0]@);
            observations[0].inspection.status
        } else {
            ResourceStatus::Absent
        }
    } else {
        downstream
    };
    show_environment(p, status, observations, all)
}

/// The number of environments that are still there.
pub open spec fn live_count(plugins: Seq<PluginStatusView>, status: ResourceStatus) -> Option<nat>
    decreases plugins.len(),
{
    if plugins.len() == 0 {
        Some(
            if status != ResourceStatus::Absent {
                1
            } else {
                0
            },
        )
    } else {
        let state = plugins[0].state@;
        match value::items_of(value::field(state, "environments"@)) {
            Some(items) => Some(items.len()),
            None => match value::count_of(value::field(state, "environment_count"@)) {
                Some(n) => if n <= usize::MAX {
                    Some(n as nat)
                } else {
                    None
                },
                None => live_count(plugins.subrange(1, plugins.len() as int), status),
            },
        }
    }
}

/// Counts the environments that are still there: those that the first plugin lists or counts,
/// else whether there is any.
///
/// # Errors
///
/// Returns an error where there are more than this machine can count.
pub fn live_environment_count(environment: &EnvironmentView) -> (r: Result<usize, CliError>)
    ensures
        match (live_count(environment.plugins@, environment.status), r) {
            (Some(n), Ok(m)) => n == m,
            (None, Err(e)) => e@ == CliErrorV::Operation("environment count is too large"@),
            _ => false,
        },
{
    let ghost all = environment.plugins@;
    let mut i: usize = 0;
    assert(all.subrange(0, all.len() as int) =~= all);
    while i < environment.plugins.len()
        invariant
            i <= environment.plugins@.len(),
            all == environment.plugins@,
            live_count(all, environment.status) == live_count(
                all.subrange(i as int, all.len() as int),
                environment.status,
            ),
        decreases environment.plugins.len() - i,
    {
        let state = &environment.plugins[i].state;
        let ghost rest = all.subrange(i as int, all.len() as int);
        proof {
            assert(rest[0] == all[i as int]);
            assert(rest.subrange(1, rest.len() as int) =~= all.subrange(i + 1, all.len() as int));
        }
        if let Some(v) = state.get("environments") {
            if let Some(items) = v.as_array() {
                assert(value::item_views(items@).len() == items@.len());
                return Ok(items.len());
            }
        }
        if let Some(v) = state.get("environment_count") {
            if let Some(n) = v.as_u64() {
                if n as u128 <= usize::MAX as u128 {
                    return Ok(n as usize);
                }
                return Err(CliError::Operation("environment count is too large".to_owned()));
            }
        }
        i += 1;
    }
    if environment.status != ResourceStatus::Absent {
        Ok(1)
    } else {
        Ok(0)
    }
}

// ---------------------------------------------------------------------------
// Confirmation
// ---------------------------------------------------------------------------

/// Whether a destruction goes on.
pub enum Confirmation {
    /// It goes on.
    Proceed,
    /// The user is asked.
    Ask(String),
    /// It does not, as nobody can be asked.
    Refuse(CliError),
}

/// Decides whether a destruction goes on.
pub fn confirm(yes: bool, terminal: bool, command: &str, question: String) -> (r: Confirmation)
    ensures
        match r {
            Confirmation::Proceed => yes,
            Confirmation::Ask(q) => !yes && terminal && q == question,
            Confirmation::Refuse(e) => !yes && !terminal && e@ == CliErrorV::Usage(
                "`"@ + command@ + "` needs confirmation; pass `--yes` in non-interactive use"@,
            ),
        },
{
    if yes {
        Confirmation::Proceed
    } else if terminal {
        Confirmation::Ask(question)
    } else {
        Confirmation::Refuse(
            CliError::Usage(
                text::cat3("`", command, "` needs confirmation; pass `--yes` in non-interactive use"),
            ),
        )
    }
}

/// What runs beside a target is looked at, and the target is not.
proof fn lemma_downstream(items: Seq<ObservationV>)
    ensures
        forall|i: int|
            0 <= i < items.len() && (#[trigger] items[i]).capability != Capability::Target
                ==> downstream_statuses(items).contains(items[i].inspection.status),
        forall|k: int|
            0 <= k < downstream_statuses(items).len() ==> is_status_beside_target(
                items,
                #[trigger] downstream_statuses(items)[k],
            ),
    decreases items.len(),
{
    let all = downstream_statuses(items);
    if items.len() > 0 {
        let fewer = items.drop_last();
        let before = downstream_statuses(fewer);
        lemma_downstream(fewer);
        assert forall|i: int|
            0 <= i < items.len() && (#[trigger] items[i]).capability != Capability::Target implies all.contains(
            items[i].inspection.status,
        ) by {
            if i < fewer.len() {
                assert(fewer[i] == items[i]);
                let k = choose|k: int| 0 <= k < before.len() && before[k] == items[i].inspection.status;
                assert(all[k] == before[k]);
            } else {
                assert(all[all.len() - 1] == items[i].inspection.status);
            }
        }
        assert forall|k: int| 0 <= k < all.len() implies is_status_beside_target(items, #[trigger] all[k]) by {
            if k < before.len() {
                assert(is_status_beside_target(fewer, before[k]));
                let i = choose|i: int|
                    0 <= i < fewer.len() && (#[trigger] fewer[i]).capability != Capability::Target
                        && fewer[i].inspection.status == before[k];
                assert(items[i] == fewer[i]);
            } else {
                assert(items[items.len() - 1].capability != Capability::Target);
            }
        }
    }
}

/// Some capability beside the target reports the status.
pub open spec fn is_status_beside_target(items: Seq<ObservationV>, status: ResourceStatus) -> bool {
    exists|i: int|
        0 <= i < items.len() && (#[trigger] items[i]).capability != Capability::Target
            && items[i].inspection.status == status
}

/// An environment is no better than anything that runs on its target: its status is the gravest
/// of what the capabilities beside the target report, and absent where none reports.
pub proof fn environments_are_as_grave_as_what_runs(items: Seq<ObservationV>, i: int)
    ensures
        0 <= i < items.len() && items[i].capability != Capability::Target ==> view::rank(
            items[i].inspection.status,
        ) <= view::rank(environment_status(items, false)),
        (exists|k: int| 0 <= k < items.len() && (#[trigger] items[k]).capability != Capability::Target)
            ==> is_status_beside_target(items, environment_status(items, false)),
        (forall|k: int| 0 <= k < items.len() ==> (#[trigger] items[k]).capability == Capability::Target)
            ==> environment_status(items, false) == ResourceStatus::Absent,
{
    let found = downstream_statuses(items);
    lemma_downstream(items);
    if 0 <= i < items.len() && items[i].capability != Capability::Target {
        assert(found.contains(items[i].inspection.status));
        let k = choose|k: int| 0 <= k < found.len() && found[k] == items[i].inspection.status;
        view::combined_status_is_the_gravest(found, k);
    }
    if found.len() > 0 {
        view::combined_status_is_reported(found);
        let k = choose|k: int| 0 <= k < found.len() && found[k] == view::combined(found);
        assert(is_status_beside_target(items, found[k]));
    }
    if exists|k: int| 0 <= k < items.len() && (#[trigger] items[k]).capability != Capability::Target {
        let k = choose|k: int| 0 <= k < items.len() && (#[trigger] items[k]).capability != Capability::Target;
        assert(found.contains(items[k].inspection.status));
    }
    if (forall|k: int| 0 <= k < items.len() ==> (#[trigger] items[k]).capability == Capability::Target)
        && found.len() > 0 {
        assert(is_status_beside_target(items, found[0]));
    }
}

/// What is observed of the target does not count: the status is the same whatever the target's.
pub proof fn target_does_not_hide_what_runs(a: Seq<ObservationV>, b: Seq<ObservationV>)
    requires
        a.len() == b.len(),
        forall|i: int|
            0 <= i < a.len() ==> (#[trigger] a[i]).capability == b[i].capability && (a[i].capability
                != Capability::Target ==> a[i].inspection.status == b[i].inspection.status),
    ensures
        environment_status(a, false) == environment_status(b, false),
{
    lemma_same_downstream(a, b);
}

/// Observations that agree beside the target report the same.
proof fn lemma_same_downstream(a: Seq<ObservationV>, b: Seq<ObservationV>)
    requires
        a.len() == b.len(),
        forall|i: int|
            0 <= i < a.len() ==> (#[trigger] a[i]).capability == b[i].capability && (a[i].capability
                != Capability::Target ==> a[i].inspection.status == b[i].inspection.status),
    ensures
        downstream_statuses(a) == downstream_statuses(b),
    decreases a.len(),
{
    if a.len() > 0 {
        assert forall|i: int| 0 <= i < a.drop_last().len() implies (#[trigger] a.drop_last()[i]).capability
            == b.drop_last()[i].capability && (a.drop_last()[i].capability != Capability::Target
            ==> a.drop_last()[i].inspection.status == b.drop_last()[i].inspection.status) by {
            assert(a[i].capability == b[i].capability);
        }
        lemma_same_downstream(a.drop_last(), b.drop_last());
        assert(a[a.len() - 1].capability == b[a.len() - 1].capability);
    }
}

/// Where all machines are looked at and nothing runs on any of them, the status of the targets
/// themselves is shown.
pub proof fn machines_without_environments_show_themselves(items: Seq<ObservationV>)
    requires
        items.len() > 0,
        forall|k: int| 0 <= k < items.len() ==> (#[trigger] items[k]).capability == Capability::Target,
    ensures
        environment_status(items, true) == items[0].inspection.status,
{
    environments_are_as_grave_as_what_runs(items, 0);
}

/// An environment that is shown as ready is: everything that runs on its target is ready.
pub proof fn ready_means_that_everything_is_ready(items: Seq<ObservationV>, i: int)
    requires
        environment_status(items, false) == ResourceStatus::Ready,
        0 <= i < items.len(),
        items[i].capability != Capability::Target,
    ensures
        items[i].inspection.status == ResourceStatus::Ready,
{
    environments_are_as_grave_as_what_runs(items, i);
}

/// Each plugin beside the target is inspected once, for the first capability that it fills.
pub proof fn every_plugin_is_inspected(p: LoadedProject, capability: Capability)
    requires
        p.wf(),
        capability == Capability::Runtime || capability == Capability::Exposure || capability == Capability::Dns,
    ensures
        exists|i: int|
            0 <= i < downstream_capabilities(p).len() && p.selected().pipeline.assigned(
                #[trigger] downstream_capabilities(p)[i],
            ) == p.selected().pipeline.assigned(capability),
        forall|i: int, j: int|
            0 <= i < j < downstream_capabilities(p).len() ==> p.selected().pipeline.assigned(
                #[trigger] downstream_capabilities(p)[i],
            ) != p.selected().pipeline.assigned(#[trigger] downstream_capabilities(p)[j]),
        !downstream_capabilities(p).contains(Capability::Target),
{
    let all = downstream_capabilities(p);
    let pipeline = p.selected().pipeline;
    assert(all[0] == Capability::Runtime);
    if pipeline.assigned(capability) == pipeline.assigned(Capability::Runtime) {
        assert(pipeline.assigned(all[0]) == pipeline.assigned(capability));
    } else if capability == Capability::Exposure {
        assert(all[1] == Capability::Exposure);
        assert(pipeline.assigned(all[1]) == pipeline.assigned(capability));
    } else if pipeline.assigned(Capability::Dns) == pipeline.assigned(Capability::Exposure) {
        assert(all[1] == Capability::Exposure);
        assert(pipeline.assigned(all[1]) == pipeline.assigned(capability));
    } else {
        assert(all[all.len() - 1] == Capability::Dns);
        assert(pipeline.assigned(all[all.len() - 1]) == pipeline.assigned(capability));
    }
}

/// A project has a live environment wherever the status is not that nothing is there.
pub proof fn whatever_is_not_absent_is_live(status: ResourceStatus)
    ensures
        live_count(Seq::empty(), status) == Some(0nat) <==> status == ResourceStatus::Absent,
        status != ResourceStatus::Absent ==> live_count(Seq::empty(), status) == Some(1nat),
{
}

/// Environments that a plugin lists are counted, one by one.
pub proof fn listed_environments_are_counted(plugins: Seq<PluginStatusView>, status: ResourceStatus)
    requires
        plugins.len() > 0,
    ensures
        value::field(plugins[0].state@, "environments"@) matches Some(DataV::Array(items)) ==> live_count(
            plugins,
            status,
        ) == Some(items.len()),
        value::items_of(value::field(plugins[0].state@, "environments"@)) is None ==> (value::count_of(
            value::field(plugins[0].state@, "environment_count"@),
        ) matches Some(n) ==> (n <= usize::MAX ==> live_count(plugins, status) == Some(n as nat))),
{
}

/// A plan is shown as it was made: for its environment, branch and profile, each plugin with
/// what it plans, each action with whether it destroys; it changes something exactly where one
/// of its plugins does.
pub proof fn plans_are_shown_as_made(
    v: PlanView,
    p: LoadedProject,
    operation: Seq<char>,
    items: Seq<PreparedV>,
    i: int,
    k: int,
)
    requires
        shows_plan(v, p, operation, items),
        0 <= i < items.len(),
        0 <= k < items[i].plan.actions.len(),
    ensures
        v.environment_id@ == p.environment(),
        v.branch@ == p.git@.branch,
        v.profile@ == p.profile_name@,
        v.operation@ == operation,
        v.plugins@.len() == items.len(),
        v.plugins@[i].plugin@ == items[i].plugin_id,
        v.plugins@[i].capability@ == items[i].capability.text(),
        v.plugins@[i].plan_id@ == items[i].plan.plan_id,
        v.plugins@[i].has_changes == items[i].plan.has_changes,
        v.plugins@[i].actions@.len() == items[i].plan.actions.len(),
        v.plugins@[i].actions@[k].id@ == items[i].plan.actions[k].id,
        v.plugins@[i].actions@[k].summary@ == items[i].plan.actions[k].summary,
        v.plugins@[i].actions@[k].destructive == items[i].plan.actions[k].destructive,
        v.has_changes <==> exists|j: int| 0 <= j < items.len() && (#[trigger] items[j]).plan.has_changes,
{
    assert(shows_plugin(v.plugins@[i], items[i]));
    assert(shows_action(v.plugins@[i].actions@[k], items[i].plan.actions[k]));
}

/// An environment is shown as it was inspected: with the status, each plugin with its own status
/// and state, and other environments only where all were asked for.
pub proof fn environments_are_shown_as_inspected(
    v: EnvironmentView,
    p: LoadedProject,
    status: ResourceStatus,
    items: Seq<ObservationV>,
    all: bool,
    i: int,
)
    requires
        shows_environment(v, p, status, items, all),
        0 <= i < items.len(),
    ensures
        v.environment_id@ == p.environment(),
        v.branch@ == p.git@.branch,
        v.profile@ == p.profile_name@,
        v.status == status,
        v.plugins@.len() == items.len(),
        v.plugins@[i].plugin@ == items[i].plugin_id,
        v.plugins@[i].capability@ == items[i].capability.text(),
        v.plugins@[i].status == items[i].inspection.status,
        v.plugins@[i].state@ == items[i].inspection.state,
        !all ==> v.environments@.len() == 0,
{
    assert(shows_observation(v.plugins@[i], items[i]));
    if !all {
        assert(view::summary_views(v.environments@).len() == v.environments@.len());
    }
}

/// What is prepared is observed as it is now, each capability with its plugin.
pub proof fn prepared_capabilities_are_observed(items: Seq<PreparedV>, i: int)
    requires
        0 <= i < items.len(),
    ensures
        prepared_observations(items).len() == items.len(),
        prepared_observations(items)[i].capability == items[i].capability,
        prepared_observations(items)[i].plugin_id == items[i].plugin_id,
        prepared_observations(items)[i].inspection == items[i].current,
        statuses_of(prepared_observations(items))[i] == items[i].current.status,
{
}

/// Where all machines are asked for, each of them is looked at; else the one target alone is.
/// All are asked for only where machines are the boundary.
pub proof fn every_machine_is_looked_at(p: LoadedProject, state: DataV, all: bool)
    ensures
        downstream_targets(state, false) == seq![state],
        value::field(state, "targets"@) matches Some(DataV::Array(targets)) ==> downstream_targets(state, true)
            == targets,
        covers_all_machines(p, all) <==> all && p.selected().isolation == Isolation::Machine,
{
}

/// A target that reports nothing is taken as it was planned, and else as it reports itself.
pub proof fn reported_targets_are_used(observed: DataV, initial: DataV)
    ensures
        observed is Null ==> observed_target(observed, initial) == initial,
        !(observed is Null) ==> observed_target(observed, initial) == observed,
{
}

/// A machine that cannot be reached is degraded, and is listed as such under its name.
pub proof fn unreachable_machines_are_degraded(id: Seq<char>)
    ensures
        unreachable_machine(id).status == ResourceStatus::Degraded,
        value::field(unreachable_machine(id).state, "environments"@) matches Some(DataV::Array(items))
            && items.len() == 1 && value::field(items[0], "environment_id"@) == Some(DataV::Str(id))
            && value::field(items[0], "status"@) == Some(DataV::Str("degraded"@)),
{
    reveal_strlit("environment_id");
    reveal_strlit("status");
    assert("environment_id"@.len() != "status"@.len());
    let entries = unreachable_machine(id).state->Object_0;
    assert(entries[0].0 == "environments"@);
    let inner = entries[0].1->Array_0[0]->Object_0;
    let names = seq!["environment_id"@, "status"@];
    assert(value::names_of(inner) =~= names);
    value::lemma_distinct(inner, names);
    assert(names[0] == "environment_id"@ && names[1] == "status"@);
}

/// Remarks of plugins are told with their code.
pub proof fn remarks_tell_their_code(items: Seq<DiagnosticV>, i: int)
    requires
        0 <= i < items.len(),
    ensures
        remarks(items).len() == items.len(),
        remarks(items)[i] == items[i].code + ": "@ + items[i].message,
{
}

/// Also where all machines are looked at, what runs on them decides; the machines show themselves
/// only where nothing runs.
pub proof fn machines_do_not_hide_what_runs(items: Seq<ObservationV>)
    ensures
        environment_status(items, false) != ResourceStatus::Absent ==> environment_status(items, true)
            == environment_status(items, false),
        environment_status(items, false) == ResourceStatus::Absent && items.len() > 0 ==> environment_status(
            items,
            true,
        ) == items[0].inspection.status,
{
}

} // verus!
