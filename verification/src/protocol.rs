//! The messages of the language-neutral external plugin protocol.
//!
//! Plugins are normal executables that exchange one JSON-RPC 2.0 object per line with
//! the core. Opaque provider data is a [`Data`] under `metadata` or `state`. Secrets
//! are texts on the wire, and are left out of every description of a message.

use vstd::prelude::*;

use crate::collections::StringMap;
use crate::text;
use crate::value;
use crate::value::{Data, DataV};
use crate::version;
use crate::version::{ProtocolCompatibility, ProtocolVersion};

verus! {

/// Negotiates a session.
pub const METHOD_INITIALIZE: &'static str = "plugin.initialize";

/// Validates input.
pub const METHOD_VALIDATE: &'static str = "plugin.validate";

/// Computes a plan.
pub const METHOD_PLAN: &'static str = "plugin.plan";

/// Applies a plan.
pub const METHOD_APPLY: &'static str = "plugin.apply";

/// Rediscovers managed state.
pub const METHOD_INSPECT: &'static str = "plugin.inspect";

/// Destroys managed state.
pub const METHOD_DESTROY: &'static str = "plugin.destroy";

/// Cancels a logical operation.
pub const METHOD_CANCEL: &'static str = "plugin.cancel";

/// Acquires a mutation lock.
pub const METHOD_LOCK_ACQUIRE: &'static str = "plugin.lock.acquire";

/// Releases a mutation lock.
pub const METHOD_LOCK_RELEASE: &'static str = "plugin.lock.release";

/// Reads or follows logs.
pub const METHOD_LOGS: &'static str = "plugin.logs";

/// Ends the plugin process.
pub const METHOD_SHUTDOWN: &'static str = "plugin.shutdown";

/// Carries progress, logs, journal entries and diagnostics.
pub const METHOD_EVENT: &'static str = "plugin.event";

/// Cancels a request.
pub const METHOD_CANCEL_REQUEST: &'static str = "$/cancelRequest";

/// Largest message on the wire, without its line end.
pub const MAX_MESSAGE_BYTES: usize = 16777216;

/// A capability that a plugin declares.
#[derive(Clone, Debug, PartialEq, Eq, PartialOrd, Ord, Hash)]
#[non_exhaustive]
pub enum Capability {
    /// Discovers source from the checkout.
    Source,
    /// Builds deployable artifacts.
    Builder,
    /// Provisions or locates infrastructure.
    Target,
    /// Runs application services.
    Runtime,
    /// Publishes application routes.
    Exposure,
    /// Maps routes to a DNS name.
    Dns,
    /// Resolves secrets.
    Secrets,
    /// Owns the authoritative mutation lock.
    OperationLock,
    /// Reports resource usage.
    Usage,
    /// A capability that this release does not know.
    Other(String),
}

impl Capability {
    /// The stable notation of the capability.
    pub open spec fn text(self) -> Seq<char> {
        match self {
            Capability::Source => "source"@,
            Capability::Builder => "builder"@,
            Capability::Target => "target"@,
            Capability::Runtime => "runtime"@,
            Capability::Exposure => "exposure"@,
            Capability::Dns => "dns"@,
            Capability::Secrets => "secrets"@,
            Capability::OperationLock => "operation-lock"@,
            Capability::Usage => "usage"@,
            Capability::Other(s) => s@,
        }
    }

    /// Returns the stable notation of the capability.
    pub fn as_str(&self) -> (r: &str)
        ensures
            r@ == self.text(),
    {
        match self {
            Capability::Source => "source",
            Capability::Builder => "builder",
            Capability::Target => "target",
            Capability::Runtime => "runtime",
            Capability::Exposure => "exposure",
            Capability::Dns => "dns",
            Capability::Secrets => "secrets",
            Capability::OperationLock => "operation-lock",
            Capability::Usage => "usage",
            Capability::Other(s) => s.as_str(),
        }
    }

    /// Reads a capability. Every text is one; an unknown text is kept as it is.
    pub fn parse(value: &str) -> (r: Capability)
        ensures
            r.text() == value@,
            r is Other <==> !is_known_capability(value@),
    {
        if text::same(value, "source") {
            Capability::Source
        } else if text::same(value, "builder") {
            Capability::Builder
        } else if text::same(value, "target") {
            Capability::Target
        } else if text::same(value, "runtime") {
            Capability::Runtime
        } else if text::same(value, "exposure") {
            Capability::Exposure
        } else if text::same(value, "dns") {
            Capability::Dns
        } else if text::same(value, "secrets") {
            Capability::Secrets
        } else if text::same(value, "operation-lock") {
            Capability::OperationLock
        } else if text::same(value, "usage") {
            Capability::Usage
        } else {
            Capability::Other(value.to_owned())
        }
    }
}

/// A text is the notation of a capability that this release knows.
pub open spec fn is_known_capability(s: Seq<char>) -> bool {
    s == "source"@ || s == "builder"@ || s == "target"@ || s == "runtime"@ || s == "exposure"@ || s
        == "dns"@ || s == "secrets"@ || s == "operation-lock"@ || s == "usage"@
}

/// Whether a capability is among others.
pub open spec fn offers_capability(offered: Seq<Capability>, wanted: Capability) -> bool {
    exists|i: int| 0 <= i < offered.len() && same_capability(#[trigger] offered[i], wanted)
}

/// Whether two capabilities are the same.
pub open spec fn same_capability(a: Capability, b: Capability) -> bool {
    a.text() == b.text() && (a is Other <==> b is Other)
}

/// Tests whether a capability is among others.
pub fn has_capability(offered: &Vec<Capability>, wanted: &Capability) -> (r: bool)
    ensures
        r == offers_capability(offered@, *wanted),
{
    let other = match wanted {
        Capability::Other(_) => true,
        _ => false,
    };
    let mut i: usize = 0;
    while i < offered.len()
        invariant
            i <= offered@.len(),
            other == (*wanted is Other),
            forall|k: int| 0 <= k < i ==> !same_capability(#[trigger] offered@[k], *wanted),
        decreases offered.len() - i,
    {
        let other_here = match &offered[i] {
            Capability::Other(_) => true,
            _ => false,
        };
        if other_here == other && text::same(offered[i].as_str(), wanted.as_str()) {
            return true;
        }
        i += 1;
    }
    false
}

/// A text that no description shows.
#[derive(PartialEq, Eq)]
pub struct SecretValue {
    secret: String,
}

impl View for SecretValue {
    type V = Seq<char>;

    closed spec fn view(&self) -> Seq<char> {
        self.secret@
    }
}

impl Clone for SecretValue {
    fn clone(&self) -> (r: SecretValue)
        ensures
            r@ == self@,
    {
        SecretValue { secret: self.secret.clone() }
    }
}

impl SecretValue {
    /// Wraps a secret text.
    pub fn new(value: &str) -> (r: SecretValue)
        ensures
            r@ == value@,
    {
        SecretValue { secret: value.to_owned() }
    }

    /// Returns the secret text.
    pub fn expose_secret(&self) -> (r: &str)
        ensures
            r@ == self@,
    {
        self.secret.as_str()
    }

    /// What stands for the secret in a text for people.
    pub fn to_text(&self) -> (r: String)
        ensures
            r@ == "[REDACTED]"@,
    {
        "[REDACTED]".to_owned()
    }

    /// What stands for the secret in a diagnostic.
    pub fn to_debug(&self) -> (r: String)
        ensures
            r@ == "SecretValue([REDACTED])"@,
    {
        "SecretValue([REDACTED])".to_owned()
    }
}

/// An operating system and architecture that a plugin runs on.
#[derive(Clone, Debug, PartialEq, Eq)]
pub struct Platform {
    pub os: String,
    pub arch: String,
}

/// How the executable of a plugin is started and where it comes from.
#[derive(Clone, Debug, PartialEq, Eq)]
pub struct ExecutableMetadata {
    pub command: Option<String>,
    pub args: Vec<String>,
    pub platforms: Vec<Platform>,
    pub sha256: Option<String>,
    pub homepage: Option<String>,
}

impl Default for ExecutableMetadata {
    fn default() -> (r: ExecutableMetadata)
        ensures
            r.command is None,
            r.args@.len() == 0,
            r.platforms@.len() == 0,
            r.sha256 is None,
            r.homepage is None,
    {
        ExecutableMetadata {
            command: None,
            args: Vec::new(),
            platforms: Vec::new(),
            sha256: None,
            homepage: None,
        }
    }
}

/// A secret that a plugin asks for.
#[derive(Clone, Debug, PartialEq, Eq)]
pub struct SecretRequirement {
    pub name: String,
    pub description: Option<String>,
    pub required: bool,
}

/// The declaration of a plugin.
#[derive(Clone, Debug, PartialEq, Eq)]
pub struct PluginManifest {
    pub id: String,
    pub name: String,
    pub version: String,
    pub protocol: ProtocolCompatibility,
    pub executable: ExecutableMetadata,
    pub capabilities: Vec<Capability>,
    pub features: Vec<String>,
    pub required_secrets: Vec<SecretRequirement>,
    pub config_schema: Data,
    pub config_ui_hints: Data,
}

/// The opening request of a session.
#[derive(Clone, Debug, PartialEq, Eq)]
pub struct InitializeRequest {
    pub core_version: String,
    pub protocol_version: ProtocolVersion,
    pub supported_protocol_versions: Vec<ProtocolVersion>,
}

impl InitializeRequest {
    /// The request of this release.
    pub fn current(core_version: &str) -> (r: InitializeRequest)
        ensures
            r.core_version@ == core_version@,
            r.protocol_version == version::current_version(),
            r.supported_protocol_versions@ == seq![version::current_version()],
    {
        let mut versions: Vec<ProtocolVersion> = Vec::new();
        versions.push(version::protocol_version());
        InitializeRequest {
            core_version: core_version.to_owned(),
            protocol_version: version::protocol_version(),
            supported_protocol_versions: versions,
        }
    }
}

/// The answer to the opening request.
#[derive(Clone, Debug, PartialEq, Eq)]
pub struct InitializeResult {
    pub protocol_version: ProtocolVersion,
    pub session_id: String,
    pub manifest: PluginManifest,
}

/// What every operation request carries.
#[derive(Clone, PartialEq, Eq)]
pub struct OperationContext {
    pub operation_id: String,
    pub environment_id: String,
    pub profile: String,
    pub project_root: Option<String>,
    pub config: Data,
    pub secrets: StringMap<SecretValue>,
    pub metadata: Data,
}

impl Default for OperationContext {
    fn default() -> (r: OperationContext)
        ensures
            r.operation_id@.len() == 0,
            r.environment_id@.len() == 0,
            r.profile@.len() == 0,
            r.project_root is None,
            r.config@ == DataV::Null,
            r.secrets.entries@.len() == 0,
            r.metadata@ == DataV::Null,
    {
        OperationContext {
            operation_id: String::new(),
            environment_id: String::new(),
            profile: String::new(),
            project_root: None,
            config: Data::Null,
            secrets: StringMap::new(),
            metadata: Data::Null,
        }
    }
}

/// The entries of secrets on the wire.
pub open spec fn secret_entries(entries: Seq<(String, SecretValue)>) -> Seq<(Seq<char>, DataV)> {
    Seq::new(entries.len(), |i: int| (entries[i].0@, DataV::Str(entries[i].1@)))
}

/// The names of secrets, each with what stands for its text.
pub open spec fn redacted_entries(names: Seq<Seq<char>>) -> Seq<(Seq<char>, DataV)> {
    Seq::new(names.len(), |i: int| (names[i], DataV::Str("[REDACTED]"@)))
}

impl OperationContext {
    /// The named values of the context, with `secrets` for the secrets.
    pub open spec fn model(self, secrets: Seq<(Seq<char>, DataV)>) -> DataV {
        let head = seq![
            ("operation_id"@, DataV::Str(self.operation_id@)),
            ("environment_id"@, DataV::Str(self.environment_id@)),
            ("profile"@, DataV::Str(self.profile@)),
        ];
        let middle = match self.project_root {
            Some(root) => head.push(("project_root"@, DataV::Str(root@))),
            None => head,
        };
        DataV::Object(
            middle.push(("config"@, self.config@)).push(("secrets"@, DataV::Object(secrets))).push(
                ("metadata"@, self.metadata@),
            ),
        )
    }

    /// Builds the named values around those of the secrets.
    fn with_secrets(&self, secrets: Vec<(String, Data)>) -> (r: Data)
        ensures
            r@ == self.model(value::entry_views(secrets@)),
    {
        broadcast use value::lemma_object_view;

        let ghost inner = value::entry_views(secrets@);
        let mut out: Vec<(String, Data)> = Vec::new();
        out.push(("operation_id".to_owned(), Data::text(self.operation_id.as_str())));
        out.push(("environment_id".to_owned(), Data::text(self.environment_id.as_str())));
        out.push(("profile".to_owned(), Data::text(self.profile.as_str())));
        match &self.project_root {
            Some(root) => {
                out.push(("project_root".to_owned(), Data::text(root.as_str())));
            },
            None => {},
        }
        out.push(("config".to_owned(), self.config.duplicate()));
        out.push(("secrets".to_owned(), Data::Object(secrets)));
        out.push(("metadata".to_owned(), self.metadata.duplicate()));
        assert(value::entry_views(out@) =~= self.model(inner)->Object_0);
        Data::Object(out)
    }

    /// The context as it goes over the wire, secrets included.
    pub fn to_value(&self) -> (r: Data)
        ensures
            r@ == self.model(secret_entries(self.secrets.entries@)),
    {
        let mut secrets: Vec<(String, Data)> = Vec::new();
        let mut i: usize = 0;
        while i < self.secrets.entries.len()
            invariant
                i <= self.secrets.entries@.len(),
                secrets@.len() == i,
                forall|k: int|
                    0 <= k < i ==> (#[trigger] secrets@[k]).0@ == self.secrets.entries@[k].0@
                        && secrets@[k].1@ == DataV::Str(self.secrets.entries@[k].1@),
            decreases self.secrets.entries.len() - i,
        {
            let entry = &self.secrets.entries[i];
            secrets.push((entry.0.clone(), Data::text(entry.1.expose_secret())));
            i += 1;
        }
        assert(value::entry_views(secrets@) =~= secret_entries(self.secrets.entries@));
        self.with_secrets(secrets)
    }

    /// Describes the context in a diagnostic. The texts of secrets are left out.
    pub fn to_debug(&self) -> (r: String)
        ensures
            r@ == value::encoded(self.model(redacted_entries(self.secrets.keys()))),
    {
        let mut secrets: Vec<(String, Data)> = Vec::new();
        let mut i: usize = 0;
        while i < self.secrets.entries.len()
            invariant
                i <= self.secrets.entries@.len(),
                secrets@.len() == i,
                forall|k: int|
                    0 <= k < i ==> (#[trigger] secrets@[k]).0@ == self.secrets.entries@[k].0@
                        && secrets@[k].1@ == DataV::Str("[REDACTED]"@),
            decreases self.secrets.entries.len() - i,
        {
            let entry = &self.secrets.entries[i];
            secrets.push((entry.0.clone(), Data::text(entry.1.to_text().as_str())));
            i += 1;
        }
        assert(value::entry_views(secrets@) =~= redacted_entries(self.secrets.keys()));
        value::encode(&self.with_secrets(secrets))
    }
}

/// The description of a context does not depend on the texts of its secrets.
pub proof fn description_hides_secrets(a: OperationContext, b: OperationContext)
    requires
        a.operation_id@ == b.operation_id@,
        a.environment_id@ == b.environment_id@,
        a.profile@ == b.profile@,
        text::option_of(a.project_root) == text::option_of(b.project_root),
        a.config@ == b.config@,
        a.metadata@ == b.metadata@,
        a.secrets.keys() == b.secrets.keys(),
    ensures
        value::encoded(a.model(redacted_entries(a.secrets.keys()))) == value::encoded(
            b.model(redacted_entries(b.secrets.keys())),
        ),
{
    assert(a.model(redacted_entries(a.secrets.keys()))->Object_0 =~= b.model(
        redacted_entries(b.secrets.keys()),
    )->Object_0);
}

/// How grave a diagnostic is.
#[derive(Clone, Copy, Debug, PartialEq, Eq, Structural)]
pub enum DiagnosticSeverity {
    Info,
    Warning,
    Error,
}

/// A remark of a plugin.
#[derive(Clone, Debug, PartialEq, Eq)]
pub struct Diagnostic {
    pub severity: DiagnosticSeverity,
    pub code: String,
    pub message: String,
    pub path: Option<String>,
    pub help: Option<String>,
}

/// Asks a plugin to validate input.
#[derive(Clone, PartialEq, Eq)]
pub struct ValidateRequest {
    pub context: OperationContext,
    pub desired: Data,
}

/// The verdict on input.
#[derive(Clone, Debug, PartialEq, Eq)]
pub struct ValidateResult {
    pub valid: bool,
    pub diagnostics: Vec<Diagnostic>,
    pub normalized_config: Option<Data>,
}

/// How an action can be undone.
#[derive(Clone, PartialEq, Eq)]
pub struct RollbackMetadata {
    pub supported: bool,
    pub action: Option<String>,
    pub token: Option<SecretValue>,
    pub metadata: Data,
}

/// The model of [`RollbackMetadata`].
pub struct RollbackV {
    pub supported: bool,
    pub action: Option<Seq<char>>,
    pub token: Option<Seq<char>>,
    pub metadata: DataV,
}

impl View for RollbackMetadata {
    type V = RollbackV;

    open spec fn view(&self) -> RollbackV {
        RollbackV {
            supported: self.supported,
            action: text::option_of(self.action),
            token: match self.token {
                Some(token) => Some(token@),
                None => None,
            },
            metadata: self.metadata@,
        }
    }
}

/// The model of optional undo metadata.
pub open spec fn option_rollback(rollback: Option<RollbackMetadata>) -> Option<RollbackV> {
    match rollback {
        Some(inner) => Some(inner@),
        None => None,
    }
}

impl RollbackMetadata {
    /// A copy of the metadata.
    pub fn duplicate(&self) -> (r: RollbackMetadata)
        ensures
            r@ == self@,
    {
        RollbackMetadata {
            supported: self.supported,
            action: match &self.action {
                Some(action) => Some(action.clone()),
                None => None,
            },
            token: match &self.token {
                Some(token) => Some(token.clone()),
                None => None,
            },
            metadata: self.metadata.duplicate(),
        }
    }
}

/// A copy of optional undo metadata.
pub fn duplicate_rollback(rollback: &Option<RollbackMetadata>) -> (r: Option<RollbackMetadata>)
    ensures
        option_rollback(r) == option_rollback(*rollback),
{
    match rollback {
        Some(inner) => Some(inner.duplicate()),
        None => None,
    }
}

/// One action of a plan.
#[derive(Clone, PartialEq, Eq)]
pub struct PlannedAction {
    pub id: String,
    pub kind: String,
    pub summary: String,
    pub destructive: bool,
    pub depends_on: Vec<String>,
    pub rollback: Option<RollbackMetadata>,
    pub metadata: Data,
}

/// Asks a plugin for a plan.
#[derive(Clone, PartialEq, Eq)]
pub struct PlanRequest {
    pub context: OperationContext,
    pub desired: Data,
    pub current: Option<Data>,
}

/// A plan.
#[derive(Clone, PartialEq, Eq)]
pub struct PlanResult {
    pub plan_id: String,
    pub actions: Vec<PlannedAction>,
    pub has_changes: bool,
    pub metadata: Data,
}

/// How far an action got.
#[derive(Clone, Copy, Debug, PartialEq, Eq, Structural)]
pub enum JournalStatus {
    Started,
    Succeeded,
    Failed,
    RollingBack,
    RolledBack,
    RollbackFailed,
    Skipped,
}

/// One entry of the journal of a plugin.
#[derive(Clone, PartialEq, Eq)]
pub struct ActionJournalEntry {
    pub sequence: u64,
    pub action_id: String,
    pub status: JournalStatus,
    pub timestamp: Option<String>,
    pub message: Option<String>,
    pub rollback: Option<RollbackMetadata>,
    pub metadata: Data,
}

/// The model of [`ActionJournalEntry`].
pub struct EntryV {
    pub sequence: u64,
    pub action_id: Seq<char>,
    pub status: JournalStatus,
    pub timestamp: Option<Seq<char>>,
    pub message: Option<Seq<char>>,
    pub rollback: Option<RollbackV>,
    pub metadata: DataV,
}

impl View for ActionJournalEntry {
    type V = EntryV;

    open spec fn view(&self) -> EntryV {
        EntryV {
            sequence: self.sequence,
            action_id: self.action_id@,
            status: self.status,
            timestamp: text::option_of(self.timestamp),
            message: text::option_of(self.message),
            rollback: option_rollback(self.rollback),
            metadata: self.metadata@,
        }
    }
}

/// The models of journal entries.
pub open spec fn journal_views(entries: Seq<ActionJournalEntry>) -> Seq<EntryV> {
    Seq::new(entries.len(), |i: int| entries[i]@)
}

impl ActionJournalEntry {
    /// A copy of the entry.
    pub fn duplicate(&self) -> (r: ActionJournalEntry)
        ensures
            r@ == self@,
    {
        ActionJournalEntry {
            sequence: self.sequence,
            action_id: self.action_id.clone(),
            status: self.status,
            timestamp: text::copy_option(&self.timestamp),
            message: text::copy_option(&self.message),
            rollback: duplicate_rollback(&self.rollback),
            metadata: self.metadata.duplicate(),
        }
    }
}

/// A copy of journal entries.
pub fn duplicate_journal(entries: &Vec<ActionJournalEntry>) -> (r: Vec<ActionJournalEntry>)
    ensures
        journal_views(r@) == journal_views(entries@),
{
    let mut out: Vec<ActionJournalEntry> = Vec::new();
    let mut i: usize = 0;
    while i < entries.len()
        invariant
            i <= entries@.len(),
            out@.len() == i,
            forall|k: int| 0 <= k < i ==> (#[trigger] out@[k])@ == entries@[k]@,
        decreases entries.len() - i,
    {
        out.push(entries[i].duplicate());
        i += 1;
    }
    assert(journal_views(out@) =~= journal_views(entries@));
    out
}

/// Asks a plugin to apply a plan.
#[derive(Clone, PartialEq, Eq)]
pub struct ApplyRequest {
    pub context: OperationContext,
    pub plan: PlanResult,
    pub journal: Vec<ActionJournalEntry>,
}

/// What applying a plan gave.
#[derive(Clone, PartialEq, Eq)]
pub struct ApplyResult {
    pub revision: Option<String>,
    pub state: Data,
    pub journal: Vec<ActionJournalEntry>,
}

/// Asks a plugin for managed state.
#[derive(Clone, PartialEq, Eq)]
pub struct InspectRequest {
    pub context: OperationContext,
}

/// The condition of managed state.
#[derive(Clone, Copy, Debug, PartialEq, Eq, Structural)]
pub enum ResourceStatus {
    Absent,
    Pending,
    Ready,
    Degraded,
    Destroying,
    Unknown,
}

/// The public address of an app.
#[derive(Clone, Debug, PartialEq, Eq)]
pub struct Endpoint {
    pub app: String,
    pub url: String,
}

/// Managed state.
#[derive(Clone, Debug, PartialEq, Eq)]
pub struct InspectResult {
    pub status: ResourceStatus,
    pub endpoints: Vec<Endpoint>,
    pub state: Data,
    pub diagnostics: Vec<Diagnostic>,
}

/// Asks a plugin to destroy managed state.
#[derive(Clone, PartialEq, Eq)]
pub struct DestroyRequest {
    pub context: OperationContext,
    pub current: Option<Data>,
    pub force: bool,
    pub journal: Vec<ActionJournalEntry>,
}

/// What destruction gave.
#[derive(Clone, PartialEq, Eq)]
pub struct DestroyResult {
    pub destroyed: bool,
    pub journal: Vec<ActionJournalEntry>,
    pub remaining: Vec<String>,
}

/// Asks a plugin to cancel an operation.
#[derive(Clone, Debug, PartialEq, Eq)]
pub struct CancelRequest {
    pub operation_id: String,
    pub reason: Option<String>,
}

/// Whether a cancellation was taken note of.
#[derive(Clone, Copy, Debug, PartialEq, Eq, Structural)]
pub struct CancelResult {
    pub acknowledged: bool,
}

/// What a mutation lock covers.
#[derive(Clone, Copy, Debug, PartialEq, Eq, Structural)]
pub enum LockScope {
    Environment,
    Project,
    Target,
}

impl Default for LockScope {
    fn default() -> (r: LockScope)
        ensures
            r == LockScope::Environment,
    {
        LockScope::Environment
    }
}

/// Asks for a mutation lock.
#[derive(Clone, Debug, PartialEq, Eq)]
pub struct LockAcquireRequest {
    pub environment_id: String,
    pub scope: LockScope,
    pub scope_id: String,
    pub operation_id: String,
    pub timeout_ms: u64,
    pub lease_ms: Option<u64>,
}

/// The answer to a request for a mutation lock.
#[derive(Clone, PartialEq, Eq)]
pub struct LockAcquireResult {
    pub acquired: bool,
    pub token: Option<SecretValue>,
    pub expires_at: Option<String>,
    pub holder: Option<String>,
}

/// Gives a mutation lock back.
#[derive(Clone, PartialEq, Eq)]
pub struct LockReleaseRequest {
    pub environment_id: String,
    pub scope: LockScope,
    pub scope_id: String,
    pub operation_id: String,
    pub token: SecretValue,
}

/// Whether a mutation lock was given back.
#[derive(Clone, Copy, Debug, PartialEq, Eq, Structural)]
pub struct LockReleaseResult {
    pub released: bool,
}

/// Asks for logs.
#[derive(Clone, PartialEq, Eq)]
pub struct LogsRequest {
    pub context: OperationContext,
    pub service: Option<String>,
    pub tail: Option<u64>,
    pub since: Option<String>,
    pub follow: bool,
}

/// One line of a log.
#[derive(Clone, Debug, PartialEq, Eq)]
pub struct LogRecord {
    pub service: String,
    pub timestamp: Option<String>,
    pub line: String,
    pub stream: Option<String>,
}

/// Logs, and the stream on which more will come.
#[derive(Clone, Debug, PartialEq, Eq)]
pub struct LogsResult {
    pub stream_id: Option<String>,
    pub records: Vec<LogRecord>,
}

/// What a plugin reports while it works.
#[allow(inconsistent_fields)]
#[derive(Clone, PartialEq, Eq)]
pub enum PluginEvent {
    /// An operation moved on.
    Progress { operation_id: String, message: String, completed: Option<u64>, total: Option<u64> },
    /// A line of a followed log.
    Log { stream_id: String, record: LogRecord },
    /// A journal entry.
    Journal { operation_id: String, entry: ActionJournalEntry },
    /// A remark.
    Diagnostic { operation_id: Option<String>, diagnostic: Diagnostic },
}

/// A message without content.
#[derive(Clone, Copy, Debug, PartialEq, Eq, Structural)]
pub struct Empty {}

// ---------------------------------------------------------------------------
// Plans on the wire
// ---------------------------------------------------------------------------

/// A list of texts as a value.
pub open spec fn text_items(items: Seq<Seq<char>>) -> DataV {
    DataV::Array(Seq::new(items.len(), |i: int| DataV::Str(items[i])))
}

/// A list of texts as a value.
pub fn text_list(items: &Vec<String>) -> (r: Data)
    ensures
        r@ == text_items(text::texts(items@)),
{
    broadcast use value::lemma_array_view;

    let mut out: Vec<Data> = Vec::new();
    let mut i: usize = 0;
    while i < items.len()
        invariant
            i <= items@.len(),
            out@.len() == i,
            forall|k: int| 0 <= k < i ==> (#[trigger] out@[k])@ == DataV::Str(items@[k]@),
        decreases items.len() - i,
    {
        out.push(Data::text(items[i].as_str()));
        i += 1;
    }
    assert(value::item_views(out@) =~= text_items(text::texts(items@))->Array_0);
    Data::Array(out)
}

/// The named values of undo metadata.
pub open spec fn rollback_value(rollback: RollbackV) -> DataV {
    let a = seq![("supported"@, DataV::Bool(rollback.supported))];
    let b = match rollback.action {
        Some(action) => a.push(("action"@, DataV::Str(action))),
        None => a,
    };
    let c = match rollback.token {
        Some(token) => b.push(("token"@, DataV::Str(token))),
        None => b,
    };
    DataV::Object(c.push(("metadata"@, rollback.metadata)))
}

impl RollbackMetadata {
    /// The metadata as it goes over the wire.
    pub fn to_value(&self) -> (r: Data)
        ensures
            r@ == rollback_value(self@),
    {
        broadcast use value::lemma_object_view;

        let mut out: Vec<(String, Data)> = Vec::new();
        out.push(("supported".to_owned(), Data::Bool(self.supported)));
        match &self.action {
            Some(action) => {
                out.push(("action".to_owned(), Data::text(action.as_str())));
            },
            None => {},
        }
        match &self.token {
            Some(token) => {
                out.push(("token".to_owned(), Data::text(token.expose_secret())));
            },
            None => {},
        }
        out.push(("metadata".to_owned(), self.metadata.duplicate()));
        assert(value::entry_views(out@) =~= rollback_value(self@)->Object_0);
        Data::Object(out)
    }
}

/// The named values of an action.
pub open spec fn action_value(action: PlannedAction) -> DataV {
    let a = seq![
        ("id"@, DataV::Str(action.id@)),
        ("kind"@, DataV::Str(action.kind@)),
        ("summary"@, DataV::Str(action.summary@)),
        ("destructive"@, DataV::Bool(action.destructive)),
        ("depends_on"@, text_items(text::texts(action.depends_on@))),
    ];
    let b = match action.rollback {
        Some(rollback) => a.push(("rollback"@, rollback_value(rollback@))),
        None => a,
    };
    DataV::Object(b.push(("metadata"@, action.metadata@)))
}

impl PlannedAction {
    /// The action as it goes over the wire.
    pub fn to_value(&self) -> (r: Data)
        ensures
            r@ == action_value(*self),
    {
        broadcast use value::lemma_object_view;

        let mut out: Vec<(String, Data)> = Vec::new();
        out.push(("id".to_owned(), Data::text(self.id.as_str())));
        out.push(("kind".to_owned(), Data::text(self.kind.as_str())));
        out.push(("summary".to_owned(), Data::text(self.summary.as_str())));
        out.push(("destructive".to_owned(), Data::Bool(self.destructive)));
        out.push(("depends_on".to_owned(), text_list(&self.depends_on)));
        match &self.rollback {
            Some(rollback) => {
                out.push(("rollback".to_owned(), rollback.to_value()));
            },
            None => {},
        }
        out.push(("metadata".to_owned(), self.metadata.duplicate()));
        assert(value::entry_views(out@) =~= action_value(*self)->Object_0);
        Data::Object(out)
    }
}

/// The named values of a plan.
pub open spec fn plan_value(plan: PlanResult) -> DataV {
    DataV::Object(
        seq![
            ("plan_id"@, DataV::Str(plan.plan_id@)),
            (
                "actions"@,
                DataV::Array(Seq::new(plan.actions@.len(), |i: int| action_value(plan.actions@[i]))),
            ),
            ("has_changes"@, DataV::Bool(plan.has_changes)),
            ("metadata"@, plan.metadata@),
        ],
    )
}

impl PlanResult {
    /// The plan as it goes over the wire.
    pub fn to_value(&self) -> (r: Data)
        ensures
            r@ == plan_value(*self),
    {
        broadcast use {value::lemma_object_view, value::lemma_array_view};

        let mut actions: Vec<Data> = Vec::new();
        let mut i: usize = 0;
        while i < self.actions.len()
            invariant
                i <= self.actions@.len(),
                actions@.len() == i,
                forall|k: int| 0 <= k < i ==> (#[trigger] actions@[k])@ == action_value(self.actions@[k]),
            decreases self.actions.len() - i,
        {
            actions.push(self.actions[i].to_value());
            i += 1;
        }
        let ghost list = Seq::new(self.actions@.len(), |i: int| action_value(self.actions@[i]));
        assert(value::item_views(actions@) =~= list);
        let mut out: Vec<(String, Data)> = Vec::new();
        out.push(("plan_id".to_owned(), Data::text(self.plan_id.as_str())));
        out.push(("actions".to_owned(), Data::Array(actions)));
        out.push(("has_changes".to_owned(), Data::Bool(self.has_changes)));
        out.push(("metadata".to_owned(), self.metadata.duplicate()));
        assert(value::entry_views(out@) =~= plan_value(*self)->Object_0);
        Data::Object(out)
    }
}

/// The names that an action without an inverse is written with differ.
proof fn lemma_action_names()
    ensures
        seq!["id"@, "kind"@, "summary"@, "destructive"@, "depends_on"@, "metadata"@].no_duplicates(),
{
    reveal_strlit("id");
    reveal_strlit("kind");
    reveal_strlit("summary");
    reveal_strlit("destructive");
    reveal_strlit("depends_on");
    reveal_strlit("metadata");
    assert("id"@.len() == 2);
    assert("kind"@.len() == 4);
    assert("summary"@.len() == 7);
    assert("destructive"@.len() == 11);
    assert("depends_on"@.len() == 10);
    assert("metadata"@.len() == 8);
    let names = seq!["id"@, "kind"@, "summary"@, "destructive"@, "depends_on"@, "metadata"@];
    assert(names[0] == "id"@);
    assert(names[1] == "kind"@);
    assert(names[2] == "summary"@);
    assert(names[3] == "destructive"@);
    assert(names[4] == "depends_on"@);
    assert(names[5] == "metadata"@);
    assert forall|i: int, j: int| 0 <= i < names.len() && 0 <= j < names.len() && i != j implies #[trigger] names[i]
        != #[trigger] names[j] by {
        assert(i == 0 || i == 1 || i == 2 || i == 3 || i == 4 || i == 5);
        assert(j == 0 || j == 1 || j == 2 || j == 3 || j == 4 || j == 5);
    }
}

/// The names that an action with an inverse is written with differ.
proof fn lemma_undoable_names()
    ensures
        seq!["id"@, "kind"@, "summary"@, "destructive"@, "depends_on"@, "rollback"@, "metadata"@].no_duplicates(),
{
    reveal_strlit("id");
    reveal_strlit("kind");
    reveal_strlit("summary");
    reveal_strlit("destructive");
    reveal_strlit("depends_on");
    reveal_strlit("rollback");
    reveal_strlit("metadata");
    assert("id"@.len() == 2);
    assert("kind"@.len() == 4);
    assert("summary"@.len() == 7);
    assert("destructive"@.len() == 11);
    assert("depends_on"@.len() == 10);
    assert("rollback"@.len() == 8);
    assert("metadata"@.len() == 8);
    assert("rollback"@[0] != "metadata"@[0]);
    let names = seq!["id"@, "kind"@, "summary"@, "destructive"@, "depends_on"@, "rollback"@, "metadata"@];
    assert(names[0] == "id"@);
    assert(names[1] == "kind"@);
    assert(names[2] == "summary"@);
    assert(names[3] == "destructive"@);
    assert(names[4] == "depends_on"@);
    assert(names[5] == "rollback"@);
    assert(names[6] == "metadata"@);
    assert forall|i: int, j: int| 0 <= i < names.len() && 0 <= j < names.len() && i != j implies #[trigger] names[i]
        != #[trigger] names[j] by {
        assert(i == 0 || i == 1 || i == 2 || i == 3 || i == 4 || i == 5 || i == 6);
        assert(j == 0 || j == 1 || j == 2 || j == 3 || j == 4 || j == 5 || j == 6);
    }
}

/// The names that a plan is written with differ.
proof fn lemma_plan_names()
    ensures
        seq!["plan_id"@, "actions"@, "has_changes"@, "metadata"@].no_duplicates(),
{
    reveal_strlit("plan_id");
    reveal_strlit("actions");
    reveal_strlit("has_changes");
    reveal_strlit("metadata");
    assert("plan_id"@.len() == 7);
    assert("actions"@.len() == 7);
    assert("has_changes"@.len() == 11);
    assert("metadata"@.len() == 8);
    assert("plan_id"@[0] != "actions"@[0]);
    let names = seq!["plan_id"@, "actions"@, "has_changes"@, "metadata"@];
    assert(names[0] == "plan_id"@);
    assert(names[1] == "actions"@);
    assert(names[2] == "has_changes"@);
    assert(names[3] == "metadata"@);
    assert forall|i: int, j: int| 0 <= i < names.len() && 0 <= j < names.len() && i != j implies #[trigger] names[i]
        != #[trigger] names[j] by {
        assert(i == 0 || i == 1 || i == 2 || i == 3);
        assert(j == 0 || j == 1 || j == 2 || j == 3);
    }
}

/// The names that an inverse is written with differ.
proof fn lemma_inverse_names()
    ensures
        seq!["supported"@, "action"@, "token"@, "metadata"@].no_duplicates(),
{
    reveal_strlit("supported");
    reveal_strlit("action");
    reveal_strlit("token");
    reveal_strlit("metadata");
    assert("supported"@.len() == 9);
    assert("action"@.len() == 6);
    assert("token"@.len() == 5);
    assert("metadata"@.len() == 8);
    let names = seq!["supported"@, "action"@, "token"@, "metadata"@];
    assert(names[0] == "supported"@);
    assert(names[1] == "action"@);
    assert(names[2] == "token"@);
    assert(names[3] == "metadata"@);
    assert forall|i: int, j: int| 0 <= i < names.len() && 0 <= j < names.len() && i != j implies #[trigger] names[i]
        != #[trigger] names[j] by {
        assert(i == 0 || i == 1 || i == 2 || i == 3);
        assert(j == 0 || j == 1 || j == 2 || j == 3);
    }
}

/// The names that a context without a root is written with differ.
proof fn lemma_context_names()
    ensures
        seq!["operation_id"@, "environment_id"@, "profile"@, "config"@, "secrets"@, "metadata"@].no_duplicates(),
{
    reveal_strlit("operation_id");
    reveal_strlit("environment_id");
    reveal_strlit("profile");
    reveal_strlit("config");
    reveal_strlit("secrets");
    reveal_strlit("metadata");
    assert("operation_id"@.len() == 12);
    assert("environment_id"@.len() == 14);
    assert("profile"@.len() == 7);
    assert("config"@.len() == 6);
    assert("secrets"@.len() == 7);
    assert("metadata"@.len() == 8);
    assert("profile"@[0] != "secrets"@[0]);
    let names = seq!["operation_id"@, "environment_id"@, "profile"@, "config"@, "secrets"@, "metadata"@];
    assert(names[0] == "operation_id"@);
    assert(names[1] == "environment_id"@);
    assert(names[2] == "profile"@);
    assert(names[3] == "config"@);
    assert(names[4] == "secrets"@);
    assert(names[5] == "metadata"@);
    assert forall|i: int, j: int| 0 <= i < names.len() && 0 <= j < names.len() && i != j implies #[trigger] names[i]
        != #[trigger] names[j] by {
        assert(i == 0 || i == 1 || i == 2 || i == 3 || i == 4 || i == 5);
        assert(j == 0 || j == 1 || j == 2 || j == 3 || j == 4 || j == 5);
    }
}

/// The names that a context with a root is written with differ.
proof fn lemma_rooted_names()
    ensures
        seq!["operation_id"@, "environment_id"@, "profile"@, "project_root"@, "config"@, "secrets"@, "metadata"@].no_duplicates(),
{
    reveal_strlit("operation_id");
    reveal_strlit("environment_id");
    reveal_strlit("profile");
    reveal_strlit("project_root");
    reveal_strlit("config");
    reveal_strlit("secrets");
    reveal_strlit("metadata");
    assert("operation_id"@.len() == 12);
    assert("environment_id"@.len() == 14);
    assert("profile"@.len() == 7);
    assert("project_root"@.len() == 12);
    assert("config"@.len() == 6);
    assert("secrets"@.len() == 7);
    assert("metadata"@.len() == 8);
    assert("operation_id"@[0] != "project_root"@[0]);
    assert("profile"@[0] != "secrets"@[0]);
    let names = seq!["operation_id"@, "environment_id"@, "profile"@, "project_root"@, "config"@, "secrets"@, "metadata"@];
    assert(names[0] == "operation_id"@);
    assert(names[1] == "environment_id"@);
    assert(names[2] == "profile"@);
    assert(names[3] == "project_root"@);
    assert(names[4] == "config"@);
    assert(names[5] == "secrets"@);
    assert(names[6] == "metadata"@);
    assert forall|i: int, j: int| 0 <= i < names.len() && 0 <= j < names.len() && i != j implies #[trigger] names[i]
        != #[trigger] names[j] by {
        assert(i == 0 || i == 1 || i == 2 || i == 3 || i == 4 || i == 5 || i == 6);
        assert(j == 0 || j == 1 || j == 2 || j == 3 || j == 4 || j == 5 || j == 6);
    }
}

/// A planned action reaches its plugin as it is: its name, its kind, what it is said to do,
/// whether it destroys, what it depends on, how it is undone, and what the plugin noted.
pub proof fn actions_are_written_as_they_are(action: PlannedAction)
    ensures
        value::field(action_value(action), "id"@) == Some(DataV::Str(action.id@)),
        value::field(action_value(action), "kind"@) == Some(DataV::Str(action.kind@)),
        value::field(action_value(action), "summary"@) == Some(DataV::Str(action.summary@)),
        value::field(action_value(action), "destructive"@) == Some(DataV::Bool(action.destructive)),
        value::field(action_value(action), "depends_on"@) matches Some(DataV::Array(items)) && items.len()
            == action.depends_on@.len() && forall|i: int|
            0 <= i < items.len() ==> #[trigger] items[i] == DataV::Str(action.depends_on@[i]@),
        value::field(action_value(action), "metadata"@) == Some(action.metadata@),
        action.rollback matches Some(rollback) ==> value::field(action_value(action), "rollback"@) == Some(
            rollback_value(rollback@),
        ),
{
    let entries = action_value(action)->Object_0;
    if action.rollback is Some {
        let names = seq!["id"@, "kind"@, "summary"@, "destructive"@, "depends_on"@, "rollback"@, "metadata"@];
        lemma_undoable_names();
        assert(value::names_of(entries) =~= names);
        value::lemma_distinct(entries, names);
        assert(names[0] == "id"@ && names[1] == "kind"@ && names[2] == "summary"@ && names[3] == "destructive"@ && names[4] == "depends_on"@ && names[5] == "rollback"@ && names[6] == "metadata"@);
    } else {
        let names = seq!["id"@, "kind"@, "summary"@, "destructive"@, "depends_on"@, "metadata"@];
        lemma_action_names();
        assert(value::names_of(entries) =~= names);
        value::lemma_distinct(entries, names);
        assert(names[0] == "id"@ && names[1] == "kind"@ && names[2] == "summary"@ && names[3] == "destructive"@ && names[4] == "depends_on"@ && names[5] == "metadata"@);
    }
}

/// A plan reaches its plugin as it is: with its name, each action in order, whether it changes
/// anything, and what the plugin noted.
pub proof fn plans_are_written_as_they_are(plan: PlanResult)
    ensures
        value::field(plan_value(plan), "plan_id"@) == Some(DataV::Str(plan.plan_id@)),
        value::field(plan_value(plan), "has_changes"@) == Some(DataV::Bool(plan.has_changes)),
        value::field(plan_value(plan), "metadata"@) == Some(plan.metadata@),
        value::field(plan_value(plan), "actions"@) matches Some(DataV::Array(items)) && items.len()
            == plan.actions@.len() && forall|i: int|
            0 <= i < items.len() ==> value::field(#[trigger] items[i], "id"@) == Some(
                DataV::Str(plan.actions@[i].id@),
            ),
{
    let entries = plan_value(plan)->Object_0;
    let names = seq!["plan_id"@, "actions"@, "has_changes"@, "metadata"@];
    lemma_plan_names();
    assert(value::names_of(entries) =~= names);
    value::lemma_distinct(entries, names);
    assert(names[0] == "plan_id"@ && names[1] == "actions"@ && names[2] == "has_changes"@ && names[3] == "metadata"@);
    let items = value::field(plan_value(plan), "actions"@)->0->Array_0;
    assert forall|i: int| 0 <= i < items.len() implies value::field(#[trigger] items[i], "id"@) == Some(
        DataV::Str(plan.actions@[i].id@),
    ) by {
        actions_are_written_as_they_are(plan.actions@[i]);
    }
}

/// How an action is undone reaches its plugin as it was told: whether at all, by what, with what
/// token, and what was noted.
pub proof fn inverses_are_written_as_they_are(rollback: RollbackV)
    ensures
        value::field(rollback_value(rollback), "supported"@) == Some(DataV::Bool(rollback.supported)),
        rollback.action matches Some(action) ==> value::field(rollback_value(rollback), "action"@) == Some(
            DataV::Str(action),
        ),
        rollback.token matches Some(token) ==> value::field(rollback_value(rollback), "token"@) == Some(
            DataV::Str(token),
        ),
        value::field(rollback_value(rollback), "metadata"@) == Some(rollback.metadata),
{
    let entries = rollback_value(rollback)->Object_0;
    let all = seq!["supported"@, "action"@, "token"@, "metadata"@];
    lemma_inverse_names();
    assert(all[0] == "supported"@ && all[1] == "action"@ && all[2] == "token"@ && all[3] == "metadata"@);
    let at = |i: int| if rollback.action is Some && rollback.token is Some {
        i
    } else if rollback.action is Some {
        if i == 2 {
            3
        } else {
            i
        }
    } else if rollback.token is Some {
        if i == 0 {
            0
        } else {
            i + 1
        }
    } else if i == 1 {
        3
    } else {
        i
    };
    let names = value::names_of(entries);
    assert forall|i: int, j: int| 0 <= i < names.len() && 0 <= j < names.len() && i != j implies #[trigger] names[i]
        != #[trigger] names[j] by {
        assert(names[i] == all[at(i)] && names[j] == all[at(j)]);
        assert(at(i) != at(j));
    }
    value::lemma_distinct(entries, names);
    assert(entries[0].0 == names[0]);
    assert(entries.last() == ("metadata"@, rollback.metadata));
    assert(names[entries.len() - 1] == "metadata"@);
    if rollback.action is Some {
        assert(names[1] == "action"@);
        if rollback.token is Some {
            assert(names[2] == "token"@);
        }
    } else if rollback.token is Some {
        assert(names[1] == "token"@);
    }
}

/// The context of a request tells the operation, the environment, the profile, the root where
/// there is one, the settings, the secrets, and what else is known.
pub proof fn contexts_are_written_as_they_are(context: OperationContext, secrets: Seq<(Seq<char>, DataV)>)
    ensures
        value::field(context.model(secrets), "operation_id"@) == Some(DataV::Str(context.operation_id@)),
        value::field(context.model(secrets), "environment_id"@) == Some(DataV::Str(context.environment_id@)),
        value::field(context.model(secrets), "profile"@) == Some(DataV::Str(context.profile@)),
        context.project_root matches Some(root) ==> value::field(context.model(secrets), "project_root"@) == Some(
            DataV::Str(root@),
        ),
        value::field(context.model(secrets), "config"@) == Some(context.config@),
        value::field(context.model(secrets), "secrets"@) == Some(DataV::Object(secrets)),
        value::field(context.model(secrets), "metadata"@) == Some(context.metadata@),
{
    let entries = context.model(secrets)->Object_0;
    if context.project_root is Some {
        let names = seq!["operation_id"@, "environment_id"@, "profile"@, "project_root"@, "config"@, "secrets"@, "metadata"@];
        lemma_rooted_names();
        assert(value::names_of(entries) =~= names);
        value::lemma_distinct(entries, names);
        assert(names[0] == "operation_id"@ && names[1] == "environment_id"@ && names[2] == "profile"@ && names[3] == "project_root"@ && names[4] == "config"@ && names[5] == "secrets"@ && names[6] == "metadata"@);
    } else {
        let names = seq!["operation_id"@, "environment_id"@, "profile"@, "config"@, "secrets"@, "metadata"@];
        lemma_context_names();
        assert(value::names_of(entries) =~= names);
        value::lemma_distinct(entries, names);
        assert(names[0] == "operation_id"@ && names[1] == "environment_id"@ && names[2] == "profile"@ && names[3] == "config"@ && names[4] == "secrets"@ && names[5] == "metadata"@);
    }
}

/// The methods of the protocol have their names.
pub proof fn methods_have_their_names()
    ensures
        METHOD_INITIALIZE@ == "plugin.initialize"@,
        METHOD_VALIDATE@ == "plugin.validate"@,
        METHOD_PLAN@ == "plugin.plan"@,
        METHOD_APPLY@ == "plugin.apply"@,
        METHOD_INSPECT@ == "plugin.inspect"@,
        METHOD_DESTROY@ == "plugin.destroy"@,
        METHOD_CANCEL@ == "plugin.cancel"@,
        METHOD_LOCK_ACQUIRE@ == "plugin.lock.acquire"@,
        METHOD_LOCK_RELEASE@ == "plugin.lock.release"@,
        METHOD_LOGS@ == "plugin.logs"@,
        METHOD_SHUTDOWN@ == "plugin.shutdown"@,
        METHOD_CANCEL_REQUEST@ == "$/cancelRequest"@,
{
}

} // verus!
