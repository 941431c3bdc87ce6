//! The models of protocol messages, and copies of them.

use vstd::prelude::*;

use crate::collections::StringMap;
use crate::protocol;
use crate::protocol::{
    ApplyResult, DestroyResult, Diagnostic, DiagnosticSeverity, Endpoint, EntryV,
    InspectResult, OperationContext, PlanResult, PlannedAction, ResourceStatus, RollbackV, SecretValue,
};
use crate::text;
use crate::value::DataV;

verus! {

/// The model of [`OperationContext`].
#[verifier::ext_equal]
pub struct ContextV {
    pub operation_id: Seq<char>,
    pub environment_id: Seq<char>,
    pub profile: Seq<char>,
    pub project_root: Option<Seq<char>>,
    pub config: DataV,
    pub secrets: Seq<(Seq<char>, Seq<char>)>,
    pub metadata: DataV,
}

/// The names and texts of secrets.
pub open spec fn secret_views(entries: Seq<(String, SecretValue)>) -> Seq<(Seq<char>, Seq<char>)> {
    Seq::new(entries.len(), |i: int| (entries[i].0@, entries[i].1@))
}

impl View for OperationContext {
    type V = ContextV;

    open spec fn view(&self) -> ContextV {
        ContextV {
            operation_id: self.operation_id@,
            environment_id: self.environment_id@,
            profile: self.profile@,
            project_root: text::option_of(self.project_root),
            config: self.config@,
            secrets: secret_views(self.secrets.entries@),
            metadata: self.metadata@,
        }
    }
}

/// A copy of secrets.
pub fn duplicate_secrets(secrets: &StringMap<SecretValue>) -> (r: StringMap<SecretValue>)
    ensures
        secret_views(r.entries@) == secret_views(secrets.entries@),
        r.keys() == secrets.keys(),
{
    let mut entries: Vec<(String, SecretValue)> = Vec::new();
    let mut i: usize = 0;
    while i < secrets.entries.len()
        invariant
            i <= secrets.entries@.len(),
            entries@.len() == i,
            forall|k: int|
                0 <= k < i ==> (#[trigger] entries@[k]).0@ == secrets.entries@[k].0@ && entries@[k].1@
                    == secrets.entries@[k].1@,
        decreases secrets.entries.len() - i,
    {
        entries.push((secrets.entries[i].0.clone(), secrets.entries[i].1.clone()));
        i += 1;
    }
    assert(secret_views(entries@) =~= secret_views(secrets.entries@));
    let out = StringMap { entries };
    assert(out.keys() =~= secrets.keys());
    out
}

impl OperationContext {
    /// A copy of the context.
    pub fn duplicate(&self) -> (r: OperationContext)
        ensures
            r@ == self@,
            r.secrets.keys() == self.secrets.keys(),
    {
        OperationContext {
            operation_id: self.operation_id.clone(),
            environment_id: self.environment_id.clone(),
            profile: self.profile.clone(),
            project_root: text::copy_option(&self.project_root),
            config: self.config.duplicate(),
            secrets: duplicate_secrets(&self.secrets),
            metadata: self.metadata.duplicate(),
        }
    }
}

/// The model of [`PlannedAction`].
#[verifier::ext_equal]
pub struct ActionV {
    pub id: Seq<char>,
    pub kind: Seq<char>,
    pub summary: Seq<char>,
    pub destructive: bool,
    pub depends_on: Seq<Seq<char>>,
    pub rollback: Option<RollbackV>,
    pub metadata: DataV,
}

impl View for PlannedAction {
    type V = ActionV;

    open spec fn view(&self) -> ActionV {
        ActionV {
            id: self.id@,
            kind: self.kind@,
            summary: self.summary@,
            destructive: self.destructive,
            depends_on: text::texts(self.depends_on@),
            rollback: protocol::option_rollback(self.rollback),
            metadata: self.metadata@,
        }
    }
}

/// The models of actions.
pub open spec fn action_views(actions: Seq<PlannedAction>) -> Seq<ActionV> {
    Seq::new(actions.len(), |i: int| actions[i]@)
}

impl PlannedAction {
    /// A copy of the action.
    pub fn duplicate(&self) -> (r: PlannedAction)
        ensures
            r@ == self@,
    {
        PlannedAction {
            id: self.id.clone(),
            kind: self.kind.clone(),
            summary: self.summary.clone(),
            destructive: self.destructive,
            depends_on: text::copy_all(&self.depends_on),
            rollback: protocol::duplicate_rollback(&self.rollback),
            metadata: self.metadata.duplicate(),
        }
    }
}

/// The model of [`PlanResult`].
#[verifier::ext_equal]
pub struct PlanV {
    pub plan_id: Seq<char>,
    pub actions: Seq<ActionV>,
    pub has_changes: bool,
    pub metadata: DataV,
}

impl View for PlanResult {
    type V = PlanV;

    open spec fn view(&self) -> PlanV {
        PlanV {
            plan_id: self.plan_id@,
            actions: action_views(self.actions@),
            has_changes: self.has_changes,
            metadata: self.metadata@,
        }
    }
}

impl PlanResult {
    /// A copy of the plan.
    pub fn duplicate(&self) -> (r: PlanResult)
        ensures
            r@ == self@,
    {
        let mut actions: Vec<PlannedAction> = Vec::new();
        let mut i: usize = 0;
        while i < self.actions.len()
            invariant
                i <= self.actions@.len(),
                actions@.len() == i,
                forall|k: int| 0 <= k < i ==> (#[trigger] actions@[k])@ == self.actions@[k]@,
            decreases self.actions.len() - i,
        {
            actions.push(self.actions[i].duplicate());
            i += 1;
        }
        assert(action_views(actions@) =~= action_views(self.actions@));
        PlanResult {
            plan_id: self.plan_id.clone(),
            actions,
            has_changes: self.has_changes,
            metadata: self.metadata.duplicate(),
        }
    }
}

/// The model of [`Diagnostic`].
#[verifier::ext_equal]
pub struct DiagnosticV {
    pub severity: DiagnosticSeverity,
    pub code: Seq<char>,
    pub message: Seq<char>,
    pub path: Option<Seq<char>>,
    pub help: Option<Seq<char>>,
}

impl View for Diagnostic {
    type V = DiagnosticV;

    open spec fn view(&self) -> DiagnosticV {
        DiagnosticV {
            severity: self.severity,
            code: self.code@,
            message: self.message@,
            path: text::option_of(self.path),
            help: text::option_of(self.help),
        }
    }
}

/// The models of remarks.
pub open spec fn diagnostic_views(items: Seq<Diagnostic>) -> Seq<DiagnosticV> {
    Seq::new(items.len(), |i: int| items[i]@)
}

/// The model of [`Endpoint`].
#[verifier::ext_equal]
pub struct EndpointV {
    pub app: Seq<char>,
    pub url: Seq<char>,
}

impl View for Endpoint {
    type V = EndpointV;

    open spec fn view(&self) -> EndpointV {
        EndpointV { app: self.app@, url: self.url@ }
    }
}

/// The models of addresses.
pub open spec fn endpoint_views(items: Seq<Endpoint>) -> Seq<EndpointV> {
    Seq::new(items.len(), |i: int| items[i]@)
}

impl Endpoint {
    /// A copy of the address.
    pub fn duplicate(&self) -> (r: Endpoint)
        ensures
            r@ == self@,
    {
        Endpoint { app: self.app.clone(), url: self.url.clone() }
    }
}

/// A copy of addresses.
pub fn duplicate_endpoints(items: &Vec<Endpoint>) -> (r: Vec<Endpoint>)
    ensures
        endpoint_views(r@) == endpoint_views(items@),
{
    let mut out: Vec<Endpoint> = Vec::new();
    let mut i: usize = 0;
    while i < items.len()
        invariant
            i <= items@.len(),
            out@.len() == i,
            forall|k: int| 0 <= k < i ==> (#[trigger] out@[k])@ == items@[k]@,
        decreases items.len() - i,
    {
        out.push(items[i].duplicate());
        i += 1;
    }
    assert(endpoint_views(out@) =~= endpoint_views(items@));
    out
}

/// The model of [`InspectResult`].
#[verifier::ext_equal]
pub struct InspectV {
    pub status: ResourceStatus,
    pub endpoints: Seq<EndpointV>,
    pub state: DataV,
    pub diagnostics: Seq<DiagnosticV>,
}

impl View for InspectResult {
    type V = InspectV;

    open spec fn view(&self) -> InspectV {
        InspectV {
            status: self.status,
            endpoints: endpoint_views(self.endpoints@),
            state: self.state@,
            diagnostics: diagnostic_views(self.diagnostics@),
        }
    }
}

impl InspectResult {
    /// A copy of the observation.
    pub fn duplicate(&self) -> (r: InspectResult)
        ensures
            r@ == self@,
    {
        let mut diagnostics: Vec<Diagnostic> = Vec::new();
        let mut i: usize = 0;
        while i < self.diagnostics.len()
            invariant
                i <= self.diagnostics@.len(),
                diagnostics@.len() == i,
                forall|k: int| 0 <= k < i ==> (#[trigger] diagnostics@[k])@ == self.diagnostics@[k]@,
            decreases self.diagnostics.len() - i,
        {
            let d = &self.diagnostics[i];
            diagnostics.push(
                Diagnostic {
                    severity: d.severity,
                    code: d.code.clone(),
                    message: d.message.clone(),
                    path: text::copy_option(&d.path),
                    help: text::copy_option(&d.help),
                },
            );
            i += 1;
        }
        assert(diagnostic_views(diagnostics@) =~= diagnostic_views(self.diagnostics@));
        InspectResult {
            status: self.status,
            endpoints: duplicate_endpoints(&self.endpoints),
            state: self.state.duplicate(),
            diagnostics,
        }
    }
}

/// The model of [`ApplyResult`].
#[verifier::ext_equal]
pub struct ApplyV {
    pub revision: Option<Seq<char>>,
    pub state: DataV,
    pub journal: Seq<EntryV>,
}

impl View for ApplyResult {
    type V = ApplyV;

    open spec fn view(&self) -> ApplyV {
        ApplyV {
            revision: text::option_of(self.revision),
            state: self.state@,
            journal: protocol::journal_views(self.journal@),
        }
    }
}

/// The model of [`DestroyResult`].
#[verifier::ext_equal]
pub struct DestroyV {
    pub destroyed: bool,
    pub journal: Seq<EntryV>,
    pub remaining: Seq<Seq<char>>,
}

impl View for DestroyResult {
    type V = DestroyV;

    open spec fn view(&self) -> DestroyV {
        DestroyV {
            destroyed: self.destroyed,
            journal: protocol::journal_views(self.journal@),
            remaining: text::texts(self.remaining@),
        }
    }
}

} // verus!
