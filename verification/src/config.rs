//! Versioned, provider-independent project configuration.

use vstd::prelude::*;

use crate::collections;
use crate::collections::StringMap;
use crate::outside;
use crate::path;
use crate::text;
use crate::validation;
use crate::validation::{ValidationCode, ValidationErrors, ValidationIssue};
use crate::value;
use crate::value::Data;

verus! {

/// The only configuration schema understood by this release.
pub const CONFIG_SCHEMA_VERSION: u32 = 1;

/// Longest accepted name of a project, profile or app.
pub const MAX_SEMANTIC_NAME_BYTES: usize = 255;

/// Longest accepted plugin identifier.
pub const MAX_PLUGIN_ID_BYTES: usize = 128;

/// Longest accepted secret name.
pub const MAX_SECRET_NAME_BYTES: usize = 128;

/// Stable project identity: the sixteen bytes of a UUID.
///
/// Unlike a project slug, this value is never derived from a directory name and
/// must remain unchanged when the project is renamed.
#[derive(Clone, Copy, Debug, PartialEq, Eq, PartialOrd, Ord, Hash)]
pub struct ProjectId {
    /// The bytes of the UUID.
    pub bytes: [u8; 16],
}

impl View for ProjectId {
    type V = Seq<u8>;

    open spec fn view(&self) -> Seq<u8> {
        self.bytes@
    }
}

/// All bytes are zero.
pub open spec fn is_nil(id: Seq<u8>) -> bool {
    forall|i: int| 0 <= i < id.len() ==> #[trigger] id[i] == 0
}

impl ProjectId {
    /// Generates a new random project identity.
    pub fn new() -> (r: ProjectId)
        ensures
            !is_nil(r@),
    {
        let bytes = outside::uuid_random();
        assert(bytes@[6] != 0);
        ProjectId { bytes }
    }

    /// Wraps the bytes of an existing UUID.
    pub fn from_uuid(bytes: [u8; 16]) -> (r: ProjectId)
        ensures
            r@ == bytes@,
    {
        ProjectId { bytes }
    }

    /// Returns the bytes of the underlying UUID.
    pub fn as_uuid(self) -> (r: [u8; 16])
        ensures
            r@ == self@,
    {
        self.bytes
    }

    /// Whether the underlying UUID is nil.
    pub fn is_nil(self) -> (r: bool)
        ensures
            r == is_nil(self@),
    {
        let mut i: usize = 0;
        while i < 16
            invariant
                i <= 16,
                forall|k: int| 0 <= k < i ==> #[trigger] self.bytes@[k] == 0,
            decreases 16 - i,
        {
            if self.bytes[i] != 0 {
                assert(self@[i as int] != 0);
                return false;
            }
            i += 1;
        }
        true
    }

    /// Returns the UUID without hyphens, suitable for resource labels.
    pub fn simple(self) -> (r: String)
        ensures
            r@ == outside::hex_text(self@),
    {
        outside::uuid_simple(self.bytes)
    }

    /// Returns the hyphenated notation of the UUID.
    pub fn hyphenated(self) -> (r: String)
        ensures
            r@ == outside::uuid_text(self@),
    {
        outside::uuid_hyphenated(self.bytes)
    }

    /// Reads a notation of a UUID.
    pub fn parse(value: &str) -> (r: Option<ProjectId>)
        ensures
            match r {
                Some(id) => outside::uuid_of(value@) == Some(id@),
                None => outside::uuid_of(value@) is None,
            },
    {
        match outside::uuid_parse(value) {
            Some(bytes) => Some(ProjectId { bytes }),
            None => None,
        }
    }
}

/// The hyphenated and the simple notation of an identifier are read as that identifier.
pub proof fn project_ids_are_read_back(id: Seq<u8>)
    requires
        id.len() == 16,
    ensures
        outside::uuid_of(outside::uuid_text(id)) == Some(id),
        outside::uuid_of(outside::hex_text(id)) == Some(id),
{
    let h = outside::hex_text(id);
    let s = outside::uuid_text(id);
    assert(outside::is_hyphenated(s));
    assert(outside::between_hyphens(s) =~= h);
    assert forall|i: int| 0 <= i < 32 implies text::is_hex(#[trigger] h[i]) && outside::hex_value(h[i]) == if i % 2
        == 0 {
        id[i / 2] / 16
    } else {
        id[i / 2] % 16
    } by {}
    let read = Seq::new(
        16,
        |i: int| (16 * outside::hex_value(h[2 * i]) + outside::hex_value(h[2 * i + 1])) as u8,
    );
    assert forall|i: int| 0 <= i < 16 implies #[trigger] read[i] == id[i] by {
        assert(outside::hex_value(h[2 * i]) == id[i] / 16);
        assert(outside::hex_value(h[2 * i + 1]) == id[i] % 16);
    }
    assert(read =~= id);
}

impl Default for ProjectId {
    fn default() -> (r: ProjectId)
        ensures
            !is_nil(r@),
    {
        ProjectId::new()
    }
}

impl std::str::FromStr for ProjectId {
    type Err = IdentifierError;

    fn from_str(value: &str) -> Result<ProjectId, IdentifierError> {
        match ProjectId::parse(value) {
            Some(id) => Ok(id),
            None => Err(
                IdentifierError::InvalidCharacters { kind: "project ID", value: value.to_owned() },
            ),
        }
    }
}

/// A failure to construct a semantic identifier.
#[derive(Clone, Debug, PartialEq, Eq)]
#[non_exhaustive]
pub enum IdentifierError {
    /// The identifier is empty.
    Empty {
        /// Identifier category.
        kind: &'static str,
    },
    /// The identifier is longer than its protocol limit.
    TooLong {
        /// Identifier category.
        kind: &'static str,
        /// Actual byte length.
        length: usize,
        /// Maximum byte length.
        maximum: usize,
    },
    /// The identifier contains characters outside its safe alphabet.
    InvalidCharacters {
        /// Identifier category.
        kind: &'static str,
        /// Invalid value.
        value: String,
    },
}

impl IdentifierError {
    /// The text of the error.
    pub open spec fn text(self) -> Seq<char> {
        match self {
            IdentifierError::Empty { kind } => kind@ + " must not be empty"@,
            IdentifierError::TooLong { kind, length, maximum } => kind@ + " is "@ + text::decimal(
                length as nat,
            ) + " bytes; the maximum is "@ + text::decimal(maximum as nat),
            IdentifierError::InvalidCharacters { kind, value } => kind@ + " `"@ + value@
                + "` must use lowercase ASCII letters, digits, `.`, `_`, or `-`"@,
        }
    }

    /// Describes the error to a person.
    pub fn message(&self) -> (r: String)
        ensures
            r@ == self.text(),
    {
        match self {
            IdentifierError::Empty { kind } => text::cat2(kind, " must not be empty"),
            IdentifierError::TooLong { kind, length, maximum } => text::cat5(
                kind,
                " is ",
                text::number(*length as u128).as_str(),
                " bytes; the maximum is ",
                text::number(*maximum as u128).as_str(),
            ),
            IdentifierError::InvalidCharacters { kind, value } => text::cat4(
                kind,
                " `",
                value.as_str(),
                "` must use lowercase ASCII letters, digits, `.`, `_`, or `-`",
            ),
        }
    }
}

/// A text in the lowercase alphabet of protocol identifiers: letters, digits, dots,
/// underscores and hyphens, with a letter or digit at either end and no empty segment
/// between dots.
pub open spec fn is_identifier(s: Seq<char>) -> bool {
    &&& s.len() > 0
    &&& text::is_alnum(s[0])
    &&& text::is_alnum(s.last())
    &&& text::all_in(s, true, false, true, "._-"@)
    &&& forall|i: int|
        0 <= i < text::split(s, '.').len() ==> (#[trigger] text::split(s, '.')[i]).len() > 0
}

/// What a constructor of identifiers returns for a text.
pub open spec fn identifier_outcome(
    kind: Seq<char>,
    s: Seq<char>,
    maximum: usize,
    r: Result<(), IdentifierError>,
) -> bool {
    match r {
        Ok(()) => s.len() > 0 && text::utf8_len(s) <= maximum && is_identifier(s),
        Err(IdentifierError::Empty { kind: k }) => k@ == kind && s.len() == 0,
        Err(IdentifierError::TooLong { kind: k, length, maximum: m }) => k@ == kind && s.len() > 0
            && length == text::utf8_len(s) && m == maximum && length > maximum,
        Err(IdentifierError::InvalidCharacters { kind: k, value }) => k@ == kind && value@ == s && s.len() > 0
            && text::utf8_len(s) <= maximum && !is_identifier(s),
    }
}

/// Tests a protocol identifier.
pub fn validate_protocol_identifier(kind: &'static str, value: &str, maximum: usize) -> (r: Result<
    (),
    IdentifierError,
>)
    ensures
        identifier_outcome(kind@, value@, maximum, r),
{
    if value.is_empty() {
        return Err(IdentifierError::Empty { kind });
    }
    let length: usize = text::byte_len(value);
    if length > maximum {
        return Err(IdentifierError::TooLong { kind, length, maximum });
    }
    let chars = text::chars_of(value);
    let safe_edges = text::alnum(chars[0]) && text::alnum(chars[chars.len() - 1]);
    let safe_characters = text::all_in_set(value, true, false, true, "._-");
    if !safe_edges || !safe_characters || has_empty_segment(value) {
        return Err(IdentifierError::InvalidCharacters { kind, value: value.to_owned() });
    }
    Ok(())
}

/// Whether two dots follow one another, or a dot stands at an end.
fn has_empty_segment(value: &str) -> (r: bool)
    ensures
        r == !(forall|i: int|
            0 <= i < text::split(value@, '.').len() ==> (#[trigger] text::split(value@, '.')[i]).len() > 0),
{
    let parts = text::split_at_char(value, '.');
    let mut i: usize = 0;
    while i < parts.len()
        invariant
            i <= parts@.len(),
            text::texts(parts@) == text::split(value@, '.'),
            forall|k: int| 0 <= k < i ==> (#[trigger] text::split(value@, '.')[k]).len() > 0,
        decreases parts.len() - i,
    {
        assert(text::texts(parts@)[i as int] == parts@[i as int]@);
        if parts[i].as_str().is_empty() {
            assert(text::split(value@, '.')[i as int].len() == 0);
            return true;
        }
        i += 1;
    }
    false
}

/// Stable identifier of an executable plugin.
#[derive(Debug, PartialEq, Eq, PartialOrd, Ord, Hash)]
pub struct PluginId {
    name: String,
}

impl View for PluginId {
    type V = Seq<char>;

    closed spec fn view(&self) -> Seq<char> {
        self.name@
    }
}

impl Clone for PluginId {
    fn clone(&self) -> (r: PluginId)
        ensures
            r@ == self@,
    {
        proof {
            use_type_invariant(self);
        }
        PluginId { name: self.name.clone() }
    }
}

impl PluginId {
    /// Every plugin identifier is a protocol identifier within its limit.
    #[verifier::type_invariant]
    closed spec fn valid(self) -> bool {
        is_identifier(self.name@) && text::utf8_len(self.name@) <= MAX_PLUGIN_ID_BYTES
    }

    /// Validates and creates a plugin identifier.
    ///
    /// # Errors
    ///
    /// Returns [`IdentifierError`] when the value is empty, too long, or
    /// outside the lowercase protocol-safe alphabet.
    pub fn new(value: &str) -> (r: Result<PluginId, IdentifierError>)
        ensures
            match r {
                Ok(id) => id@ == value@ && identifier_outcome("plugin ID"@, value@, MAX_PLUGIN_ID_BYTES, Ok(())),
                Err(error) => identifier_outcome("plugin ID"@, value@, MAX_PLUGIN_ID_BYTES, Err(error)),
            },
    {
        match validate_protocol_identifier("plugin ID", value, MAX_PLUGIN_ID_BYTES) {
            Ok(()) => Ok(PluginId { name: value.to_owned() }),
            Err(error) => Err(error),
        }
    }

    /// Returns the identifier as text.
    pub fn as_str(&self) -> (r: &str)
        ensures
            r@ == self@,
            is_identifier(r@),
    {
        proof {
            use_type_invariant(self);
        }
        self.name.as_str()
    }
}

impl std::str::FromStr for PluginId {
    type Err = IdentifierError;

    fn from_str(value: &str) -> Result<PluginId, IdentifierError> {
        PluginId::new(value)
    }
}

/// Name of a secret resolved by the core before a plugin is launched.
#[derive(Debug, PartialEq, Eq, PartialOrd, Ord, Hash)]
pub struct SecretName {
    name: String,
}

impl View for SecretName {
    type V = Seq<char>;

    closed spec fn view(&self) -> Seq<char> {
        self.name@
    }
}

impl Clone for SecretName {
    fn clone(&self) -> (r: SecretName)
        ensures
            r@ == self@,
    {
        proof {
            use_type_invariant(self);
        }
        SecretName { name: self.name.clone() }
    }
}

impl SecretName {
    /// Every secret name is a protocol identifier within its limit.
    #[verifier::type_invariant]
    closed spec fn valid(self) -> bool {
        is_identifier(self.name@) && text::utf8_len(self.name@) <= MAX_SECRET_NAME_BYTES
    }

    /// Validates and creates a secret name.
    ///
    /// # Errors
    ///
    /// Returns [`IdentifierError`] when the value is empty, too long, or
    /// outside the lowercase protocol-safe alphabet.
    pub fn new(value: &str) -> (r: Result<SecretName, IdentifierError>)
        ensures
            match r {
                Ok(name) => name@ == value@ && identifier_outcome(
                    "secret name"@,
                    value@,
                    MAX_SECRET_NAME_BYTES,
                    Ok(()),
                ),
                Err(error) => identifier_outcome("secret name"@, value@, MAX_SECRET_NAME_BYTES, Err(error)),
            },
    {
        match validate_protocol_identifier("secret name", value, MAX_SECRET_NAME_BYTES) {
            Ok(()) => Ok(SecretName { name: value.to_owned() }),
            Err(error) => Err(error),
        }
    }

    /// Returns the secret name as text.
    pub fn as_str(&self) -> (r: &str)
        ensures
            r@ == self@,
            is_identifier(r@),
    {
        proof {
            use_type_invariant(self);
        }
        self.name.as_str()
    }
}

impl std::str::FromStr for SecretName {
    type Err = IdentifierError;

    fn from_str(value: &str) -> Result<SecretName, IdentifierError> {
        SecretName::new(value)
    }
}

/// A literal environment value or a reference to a secret.
#[derive(Debug, PartialEq, Eq)]
pub enum EnvironmentValue {
    /// A value committed directly to `lightrail.toml`.
    Literal(String),
    /// A value resolved from the configured secret sources.
    Secret(SecretReference),
}

/// The model of [`EnvironmentValue`].
pub enum EnvironmentValueV {
    Literal(Seq<char>),
    Secret(Seq<char>),
}

impl View for EnvironmentValue {
    type V = EnvironmentValueV;

    open spec fn view(&self) -> EnvironmentValueV {
        match self {
            EnvironmentValue::Literal(s) => EnvironmentValueV::Literal(s@),
            EnvironmentValue::Secret(reference) => EnvironmentValueV::Secret(reference.secret@),
        }
    }
}

impl Clone for EnvironmentValue {
    fn clone(&self) -> (r: EnvironmentValue)
        ensures
            r@ == self@,
    {
        match self {
            EnvironmentValue::Literal(s) => EnvironmentValue::Literal(s.clone()),
            EnvironmentValue::Secret(reference) => EnvironmentValue::Secret(reference.clone()),
        }
    }
}

impl EnvironmentValue {
    /// Creates a literal environment value.
    pub fn literal(value: &str) -> (r: EnvironmentValue)
        ensures
            r@ == EnvironmentValueV::Literal(value@),
    {
        EnvironmentValue::Literal(value.to_owned())
    }

    /// Creates a secret-backed environment value.
    ///
    /// # Errors
    ///
    /// Returns [`IdentifierError`] when `name` is not protocol-safe.
    pub fn secret(name: &str) -> (r: Result<EnvironmentValue, IdentifierError>)
        ensures
            match r {
                Ok(v) => v@ == EnvironmentValueV::Secret(name@) && identifier_outcome(
                    "secret name"@,
                    name@,
                    MAX_SECRET_NAME_BYTES,
                    Ok(()),
                ),
                Err(error) => identifier_outcome("secret name"@, name@, MAX_SECRET_NAME_BYTES, Err(error)),
            },
    {
        match SecretName::new(name) {
            Ok(secret) => Ok(EnvironmentValue::Secret(SecretReference { secret })),
            Err(error) => Err(error),
        }
    }

    /// Returns the literal value, when this is not a secret reference.
    pub fn as_literal(&self) -> (r: Option<&str>)
        ensures
            match r {
                Some(s) => self@ == EnvironmentValueV::Literal(s@),
                None => self@ is Secret,
            },
    {
        match self {
            EnvironmentValue::Literal(s) => Some(s.as_str()),
            EnvironmentValue::Secret(_) => None,
        }
    }

    /// Returns the referenced secret name, when present.
    pub fn secret_name(&self) -> (r: Option<&SecretName>)
        ensures
            match r {
                Some(name) => self@ == EnvironmentValueV::Secret(name@),
                None => self@ is Literal,
            },
    {
        match self {
            EnvironmentValue::Literal(_) => None,
            EnvironmentValue::Secret(reference) => Some(&reference.secret),
        }
    }
}

/// The shape of `{ secret = "name" }`.
#[derive(Debug, PartialEq, Eq)]
pub struct SecretReference {
    /// Name resolved from environment overrides, the OS keyring, or a prompt.
    pub secret: SecretName,
}

impl Clone for SecretReference {
    fn clone(&self) -> (r: SecretReference)
        ensures
            r.secret@ == self.secret@,
    {
        SecretReference { secret: self.secret.clone() }
    }
}

/// The isolation boundary used by a profile.
#[derive(Clone, Copy, Debug, PartialEq, Eq, Structural)]
pub enum Isolation {
    /// Multiple environments share a host but have isolated Compose resources.
    Project,
    /// Each environment owns a provider-native namespace or application boundary.
    Environment,
    /// The environment owns a complete machine.
    Machine,
}

impl Isolation {
    /// The configuration notation.
    pub open spec fn text(self) -> Seq<char> {
        match self {
            Isolation::Project => "project"@,
            Isolation::Environment => "environment"@,
            Isolation::Machine => "machine"@,
        }
    }

    /// Returns the configuration notation.
    pub fn as_str(self) -> (r: &'static str)
        ensures
            r@ == self.text(),
    {
        match self {
            Isolation::Project => "project",
            Isolation::Environment => "environment",
            Isolation::Machine => "machine",
        }
    }
}

/// A capability filled by one plugin in a deployment pipeline.
#[derive(Clone, Copy, Debug, PartialEq, Eq, PartialOrd, Ord, Hash, Structural)]
pub enum Capability {
    /// Discovers source from the checkout.
    Source,
    /// Builds deployable artifacts.
    Builder,
    /// Provisions or locates infrastructure.
    Target,
    /// Runs application services.
    Runtime,
    /// Publishes application routes.
    Exposure,
    /// Maps routes to an IP-derived DNS name.
    Dns,
}

/// A plugin-settings key does not name a pipeline capability.
#[derive(Clone, Debug, PartialEq, Eq)]
pub struct UnknownCapability(pub String);

impl UnknownCapability {
    /// Describes the error to a person.
    pub fn message(&self) -> (r: String)
        ensures
            r@ == "unknown pipeline capability `"@ + self.0@ + "`"@,
    {
        text::cat3("unknown pipeline capability `", self.0.as_str(), "`")
    }
}

/// A text names one of the six capabilities.
pub open spec fn names_capability(s: Seq<char>) -> bool {
    s == "source"@ || s == "builder"@ || s == "target"@ || s == "runtime"@ || s == "exposure"@ || s
        == "dns"@
}

impl Capability {
    /// All pipeline capabilities in execution order.
    pub const ALL: [Capability; 6] = [
        Capability::Source,
        Capability::Builder,
        Capability::Target,
        Capability::Runtime,
        Capability::Exposure,
        Capability::Dns,
    ];

    /// The configuration key of the capability.
    pub open spec fn text(self) -> Seq<char> {
        match self {
            Capability::Source => "source"@,
            Capability::Builder => "builder"@,
            Capability::Target => "target"@,
            Capability::Runtime => "runtime"@,
            Capability::Exposure => "exposure"@,
            Capability::Dns => "dns"@,
        }
    }

    /// Returns the stable configuration key for this capability.
    pub fn as_str(self) -> (r: &'static str)
        ensures
            r@ == self.text(),
    {
        match self {
            Capability::Source => "source",
            Capability::Builder => "builder",
            Capability::Target => "target",
            Capability::Runtime => "runtime",
            Capability::Exposure => "exposure",
            Capability::Dns => "dns",
        }
    }

    /// Reads a configuration key.
    pub fn parse(value: &str) -> (r: Result<Capability, UnknownCapability>)
        ensures
            match r {
                Ok(capability) => value@ == capability.text(),
                Err(UnknownCapability(other)) => other@ == value@ && !names_capability(value@),
            },
    {
        if text::same(value, "source") {
            Ok(Capability::Source)
        } else if text::same(value, "builder") {
            Ok(Capability::Builder)
        } else if text::same(value, "target") {
            Ok(Capability::Target)
        } else if text::same(value, "runtime") {
            Ok(Capability::Runtime)
        } else if text::same(value, "exposure") {
            Ok(Capability::Exposure)
        } else if text::same(value, "dns") {
            Ok(Capability::Dns)
        } else {
            Err(UnknownCapability(value.to_owned()))
        }
    }
}

impl std::str::FromStr for Capability {
    type Err = UnknownCapability;

    fn from_str(value: &str) -> Result<Capability, UnknownCapability> {
        Capability::parse(value)
    }
}

/// Complete plugin selection for one profile.
#[derive(Debug, PartialEq, Eq)]
pub struct PluginPipeline {
    /// Checkout/source plugin.
    pub source: PluginId,
    /// Artifact builder plugin.
    pub builder: PluginId,
    /// Infrastructure target plugin.
    pub target: PluginId,
    /// Workload runtime plugin.
    pub runtime: PluginId,
    /// Public or private exposure plugin.
    pub exposure: PluginId,
    /// IP-DNS plugin.
    pub dns: PluginId,
}

impl Clone for PluginPipeline {
    fn clone(&self) -> (r: PluginPipeline)
        ensures
            forall|c: Capability| r.assigned(c) == self.assigned(c),
    {
        PluginPipeline {
            source: self.source.clone(),
            builder: self.builder.clone(),
            target: self.target.clone(),
            runtime: self.runtime.clone(),
            exposure: self.exposure.clone(),
            dns: self.dns.clone(),
        }
    }
}

impl PluginPipeline {
    /// The identifier of the plugin that fills a capability.
    pub open spec fn assigned(self, capability: Capability) -> Seq<char> {
        match capability {
            Capability::Source => self.source@,
            Capability::Builder => self.builder@,
            Capability::Target => self.target@,
            Capability::Runtime => self.runtime@,
            Capability::Exposure => self.exposure@,
            Capability::Dns => self.dns@,
        }
    }

    /// Returns the plugin assigned to a capability.
    pub fn plugin(&self, capability: Capability) -> (r: &PluginId)
        ensures
            r@ == self.assigned(capability),
    {
        match capability {
            Capability::Source => &self.source,
            Capability::Builder => &self.builder,
            Capability::Target => &self.target,
            Capability::Runtime => &self.runtime,
            Capability::Exposure => &self.exposure,
            Capability::Dns => &self.dns,
        }
    }
}

/// Project-level metadata.
#[derive(Clone, Debug, PartialEq, Eq)]
pub struct Project {
    /// Immutable UUID generated by `lightrail init`.
    pub id: ProjectId,
    /// Human-facing project name used in hostnames.
    pub slug: String,
    /// Compose files, in merge order, relative to the repository root.
    pub compose: Vec<String>,
    /// Profile used when no CLI or environment override is provided.
    pub default_profile: String,
}

/// One public application route backed by a Compose service.
#[derive(Clone, Debug, PartialEq, Eq)]
pub struct App {
    /// Compose service name.
    pub service: String,
    /// Internal container port routed by the exposure plugin.
    pub port: u16,
    /// Optional readiness endpoint path.
    pub health_path: Option<String>,
    /// Optional exact HTTP status expected from the readiness endpoint.
    pub health_status: Option<u16>,
    /// Optional readiness polling interval.
    pub health_interval_seconds: Option<u64>,
    /// Optional per-request readiness timeout.
    pub health_timeout_seconds: Option<u64>,
    /// Environment defaults applied whenever this app is selected.
    pub env: StringMap<EnvironmentValue>,
}

/// One reusable environment profile.
#[derive(Clone, Debug, PartialEq, Eq)]
pub struct Profile {
    /// Shared-project, provider-environment, or machine isolation boundary.
    pub isolation: Isolation,
    /// Public apps selected from the top-level app map.
    pub apps: Vec<String>,
    /// Capability-to-plugin assignment.
    pub pipeline: PluginPipeline,
    /// Opaque settings passed to each capability plugin.
    pub settings: StringMap<Data>,
    /// Environment values applied to all services in this profile.
    pub env: StringMap<EnvironmentValue>,
    /// Per-app environment overrides for this profile.
    ///
    /// TOML uses `[profiles.<profile>.app_env.<app>]` to avoid colliding with
    /// the `apps = [...]` selection list.
    pub app_env: StringMap<StringMap<EnvironmentValue>>,
}

/// Conversion of arbitrary plugin settings failed.
#[derive(Clone, Debug, PartialEq, Eq)]
pub struct SettingsConversionError(pub String);

impl Profile {
    /// Returns opaque TOML settings for a capability.
    pub fn settings(&self, capability: Capability) -> (r: Option<&Data>)
        ensures
            match r {
                Some(v) => self.settings.at(capability.text()) == Some(*v),
                None => self.settings.at(capability.text()) is None,
            },
    {
        self.settings.get(capability.as_str())
    }

    /// Converts one capability's settings to the JSON value sent to a plugin.
    ///
    /// `Ok(None)` means that the profile did not configure the capability.
    pub fn settings_json(&self, capability: Capability) -> (r: Result<
        Option<Data>,
        SettingsConversionError,
    >)
        ensures
            match (r, self.settings.at(capability.text())) {
                (Ok(Some(v)), Some(settings)) => v@ == value::json_of(settings@),
                (Ok(None), None) => true,
                _ => false,
            },
    {
        match self.settings(capability) {
            Some(v) => Ok(Some(value::to_json(v))),
            None => Ok(None),
        }
    }
}

// ---------------------------------------------------------------------------
// Copies of profiles
// ---------------------------------------------------------------------------

/// The models of environment variables.
pub open spec fn variable_views(entries: Seq<(String, EnvironmentValue)>) -> Seq<(Seq<char>, EnvironmentValueV)> {
    Seq::new(entries.len(), |i: int| (entries[i].0@, entries[i].1@))
}

/// The models of the environment variables of each application.
pub open spec fn override_views(entries: Seq<(String, StringMap<EnvironmentValue>)>) -> Seq<
    (Seq<char>, Seq<(Seq<char>, EnvironmentValueV)>),
> {
    Seq::new(entries.len(), |i: int| (entries[i].0@, variable_views(entries[i].1.entries@)))
}

/// Two profiles say the same.
pub open spec fn same_profile(a: Profile, b: Profile) -> bool {
    &&& a.isolation == b.isolation
    &&& text::texts(a.apps@) == text::texts(b.apps@)
    &&& forall|c: Capability| a.pipeline.assigned(c) == #[trigger] b.pipeline.assigned(c)
    &&& value::entry_views(a.settings.entries@) == value::entry_views(b.settings.entries@)
    &&& variable_views(a.env.entries@) == variable_views(b.env.entries@)
    &&& override_views(a.app_env.entries@) == override_views(b.app_env.entries@)
}

/// A copy of environment variables.
pub fn copy_variables(map: &StringMap<EnvironmentValue>) -> (r: StringMap<EnvironmentValue>)
    ensures
        variable_views(r.entries@) == variable_views(map.entries@),
        r.keys() == map.keys(),
{
    let mut entries: Vec<(String, EnvironmentValue)> = Vec::new();
    let mut i: usize = 0;
    while i < map.entries.len()
        invariant
            i <= map.entries@.len(),
            entries@.len() == i,
            forall|k: int|
                0 <= k < i ==> (#[trigger] entries@[k]).0@ == map.entries@[k].0@ && entries@[k].1@
                    == map.entries@[k].1@,
        decreases map.entries.len() - i,
    {
        entries.push((map.entries[i].0.clone(), map.entries[i].1.clone()));
        i += 1;
    }
    assert(variable_views(entries@) =~= variable_views(map.entries@));
    let r = StringMap { entries };
    assert(r.keys() =~= map.keys());
    r
}

impl Profile {
    /// A copy.
    pub fn duplicate(&self) -> (r: Profile)
        ensures
            same_profile(r, *self),
    {
        let mut overrides: Vec<(String, StringMap<EnvironmentValue>)> = Vec::new();
        let mut i: usize = 0;
        while i < self.app_env.entries.len()
            invariant
                i <= self.app_env.entries@.len(),
                overrides@.len() == i,
                forall|k: int|
                    0 <= k < i ==> (#[trigger] overrides@[k]).0@ == self.app_env.entries@[k].0@
                        && variable_views(overrides@[k].1.entries@) == variable_views(
                        self.app_env.entries@[k].1.entries@,
                    ),
            decreases self.app_env.entries.len() - i,
        {
            let variables = copy_variables(&self.app_env.entries[i].1);
            overrides.push((self.app_env.entries[i].0.clone(), variables));
            i += 1;
        }
        assert(override_views(overrides@) =~= override_views(self.app_env.entries@));
        Profile {
            isolation: self.isolation,
            apps: text::copy_all(&self.apps),
            pipeline: self.pipeline.clone(),
            settings: StringMap { entries: value::duplicate_entries(&self.settings.entries) },
            env: copy_variables(&self.env),
            app_env: StringMap { entries: overrides },
        }
    }
}

/// Root of a committed `lightrail.toml`.
#[derive(Clone, Debug, PartialEq, Eq)]
pub struct LightrailConfig {
    /// Configuration schema version. This release accepts only `1`.
    pub schema: u32,
    /// Stable project metadata.
    pub project: Project,
    /// Public applications keyed by app name.
    pub apps: StringMap<App>,
    /// Reusable profiles keyed by profile name.
    pub profiles: StringMap<Profile>,
}

// ---------------------------------------------------------------------------
// What is wrong with a configuration
//
// Each function below takes the issues found so far and gives them back with those of
// one part of the configuration after them.
// ---------------------------------------------------------------------------

/// One issue.
pub open spec fn issue(path: Seq<char>, code: ValidationCode, message: Seq<char>) -> validation::IssueV {
    validation::IssueV { path, code, message }
}

/// A name of at most 255 bytes without surrounding white space or control characters.
pub open spec fn is_semantic_name(s: Seq<char>) -> bool {
    text::trimmed(s) == s && text::utf8_len(s) <= MAX_SEMANTIC_NAME_BYTES && text::no_control(s)
}

/// The issues of a name.
pub open spec fn name_issues(
    found: Seq<validation::IssueV>,
    path: Seq<char>,
    name: Seq<char>,
) -> Seq<validation::IssueV> {
    if name.len() == 0 {
        found.push(issue(path, ValidationCode::Empty, "value must not be empty"@))
    } else if !is_semantic_name(name) {
        found.push(
            issue(
                path,
                ValidationCode::InvalidIdentifier,
                "value must be at most 255 bytes with no surrounding whitespace or control characters"@,
            ),
        )
    } else {
        found
    }
}

/// An environment-variable name: a letter or underscore, then letters, digits and
/// underscores.
pub open spec fn is_environment_key_text(s: Seq<char>) -> bool {
    s.len() > 0 && !text::is_digit(s[0]) && text::all_in(s, true, true, true, "_"@)
}

/// The name of a Compose service.
pub open spec fn is_service_name(s: Seq<char>) -> bool {
    s.len() > 0 && text::is_alnum(s[0]) && text::all_in(s, true, true, true, "._-"@)
}

/// The issues of environment-variable names.
pub open spec fn environment_issues(
    found: Seq<validation::IssueV>,
    keys: Seq<Seq<char>>,
    base: Seq<char>,
) -> Seq<validation::IssueV>
    decreases keys.len(),
{
    if keys.len() == 0 {
        found
    } else {
        let before = environment_issues(found, keys.drop_last(), base);
        if is_environment_key_text(keys.last()) {
            before
        } else {
            before.push(
                issue(
                    base + "."@ + keys.last(),
                    ValidationCode::InvalidEnvironmentKey,
                    "environment keys must match [A-Za-z_][A-Za-z0-9_]*"@,
                ),
            )
        }
    }
}

/// A path names the same place as one of the others.
pub open spec fn repeats_path(path: Seq<char>, others: Seq<Seq<char>>) -> bool {
    exists|j: int|
        0 <= j < others.len() && path::components(#[trigger] others[j]) == path::components(path)
}

/// The issues of the Compose files.
pub open spec fn compose_issues(found: Seq<validation::IssueV>, paths: Seq<Seq<char>>) -> Seq<
    validation::IssueV,
>
    decreases paths.len(),
{
    if paths.len() == 0 {
        found
    } else {
        let before = compose_issues(found, paths.drop_last());
        let field = "project.compose["@ + text::decimal((paths.len() - 1) as nat) + "]"@;
        let path = paths.last();
        let checked = if path::is_plain_relative(path) {
            before
        } else {
            before.push(
                issue(
                    field,
                    ValidationCode::InvalidPath,
                    "Compose paths must be non-empty, normalized paths relative to the repository root"@,
                ),
            )
        };
        if repeats_path(path, paths.drop_last()) {
            checked.push(
                issue(
                    field,
                    ValidationCode::Duplicate,
                    "Compose path `"@ + path + "` is listed more than once"@,
                ),
            )
        } else {
            checked
        }
    }
}

/// The issues of the project metadata.
pub open spec fn project_issues(
    found: Seq<validation::IssueV>,
    project: Project,
    profiles: Seq<Seq<char>>,
) -> Seq<validation::IssueV> {
    let a = if is_nil(project.id@) {
        found.push(
            issue("project.id"@, ValidationCode::InvalidIdentifier, "project UUID must not be nil"@),
        )
    } else {
        found
    };
    let b = name_issues(a, "project.slug"@, project.slug@);
    let c = name_issues(b, "project.default_profile"@, project.default_profile@);
    let d = if project.compose@.len() == 0 {
        c.push(issue("project.compose"@, ValidationCode::Empty, "at least one Compose file is required"@))
    } else {
        c
    };
    let e = compose_issues(d, text::texts(project.compose@));
    if project.default_profile@.len() > 0 && !profiles.contains(project.default_profile@) {
        e.push(
            issue(
                "project.default_profile"@,
                ValidationCode::MissingReference,
                "profile `"@ + project.default_profile@ + "` does not exist"@,
            ),
        )
    } else {
        e
    }
}

/// A health path begins with a slash and holds no white space or control characters.
pub open spec fn is_health_path(s: Seq<char>) -> bool {
    &&& s.len() > 0
    &&& s[0] == '/'
    &&& forall|i: int|
        0 <= i < s.len() ==> !text::is_control(#[trigger] s[i]) && !text::is_space(s[i])
}

/// The issue of a health setting that is zero.
pub open spec fn zero_issue(
    found: Seq<validation::IssueV>,
    base: Seq<char>,
    name: Seq<char>,
    setting: Option<u64>,
) -> Seq<validation::IssueV> {
    if setting == Some(0u64) {
        found.push(
            issue(
                base + "."@ + name,
                ValidationCode::InvalidHealthCheck,
                name + " must be greater than zero"@,
            ),
        )
    } else {
        found
    }
}

/// The issues of the health check of an app.
pub open spec fn health_issues(found: Seq<validation::IssueV>, app: App, base: Seq<char>) -> Seq<
    validation::IssueV,
> {
    let a = match app.health_path {
        Some(path) => if is_health_path(path@) {
            found
        } else {
            found.push(
                issue(
                    base + ".health_path"@,
                    ValidationCode::InvalidHealthCheck,
                    "health path must begin with `/` and contain no whitespace or control characters"@,
                ),
            )
        },
        None => found,
    };
    let b = match app.health_status {
        Some(status) => if 100 <= status <= 599 {
            a
        } else {
            a.push(
                issue(
                    base + ".health_status"@,
                    ValidationCode::InvalidHealthCheck,
                    "health status must be between 100 and 599"@,
                ),
            )
        },
        None => a,
    };
    let tuned = app.health_status is Some || app.health_interval_seconds is Some
        || app.health_timeout_seconds is Some;
    let c = if tuned && app.health_path is None {
        b.push(
            issue(
                base + ".health_path"@,
                ValidationCode::InvalidHealthCheck,
                "health_path is required when other health-check settings are present"@,
            ),
        )
    } else {
        b
    };
    let d = zero_issue(c, base, "health_interval_seconds"@, app.health_interval_seconds);
    zero_issue(d, base, "health_timeout_seconds"@, app.health_timeout_seconds)
}

/// The issues of one app.
pub open spec fn app_issues(found: Seq<validation::IssueV>, name: Seq<char>, app: App) -> Seq<
    validation::IssueV,
> {
    let base = "apps."@ + name;
    let a = name_issues(found, base + " (name)"@, name);
    let b = if is_service_name(app.service@) {
        a
    } else {
        a.push(
            issue(
                base + ".service"@,
                ValidationCode::InvalidIdentifier,
                "service must begin with an ASCII letter or digit and contain only letters, digits, `.`, `_`, or `-`"@,
            ),
        )
    };
    let c = if app.port == 0 {
        b.push(
            issue(
                base + ".port"@,
                ValidationCode::InvalidPort,
                "internal app port must be between 1 and 65535"@,
            ),
        )
    } else {
        b
    };
    environment_issues(health_issues(c, app, base), app.env.keys(), base + ".env"@)
}

/// The issues of the first apps.
pub open spec fn each_app_issues(found: Seq<validation::IssueV>, apps: Seq<(String, App)>) -> Seq<
    validation::IssueV,
>
    decreases apps.len(),
{
    if apps.len() == 0 {
        found
    } else {
        app_issues(each_app_issues(found, apps.drop_last()), apps.last().0@, apps.last().1)
    }
}

/// The issues of the apps.
pub open spec fn apps_issues(found: Seq<validation::IssueV>, apps: Seq<(String, App)>) -> Seq<
    validation::IssueV,
> {
    let a = if apps.len() == 0 {
        found.push(issue("apps"@, ValidationCode::Empty, "at least one public app is required"@))
    } else {
        found
    };
    each_app_issues(a, apps)
}

/// The issues of the apps that a profile selects.
pub open spec fn selection_issues(
    found: Seq<validation::IssueV>,
    base: Seq<char>,
    selected: Seq<Seq<char>>,
    apps: Seq<Seq<char>>,
) -> Seq<validation::IssueV>
    decreases selected.len(),
{
    if selected.len() == 0 {
        found
    } else {
        let before = selection_issues(found, base, selected.drop_last(), apps);
        let field = base + ".apps["@ + text::decimal((selected.len() - 1) as nat) + "]"@;
        let name = selected.last();
        let a = if selected.drop_last().contains(name) {
            before.push(
                issue(
                    field,
                    ValidationCode::Duplicate,
                    "app `"@ + name + "` is selected more than once"@,
                ),
            )
        } else {
            before
        };
        if apps.contains(name) {
            a
        } else {
            a.push(issue(field, ValidationCode::MissingReference, "app `"@ + name + "` does not exist"@))
        }
    }
}

/// The issues of the names of settings.
pub open spec fn settings_issues(
    found: Seq<validation::IssueV>,
    base: Seq<char>,
    keys: Seq<Seq<char>>,
) -> Seq<validation::IssueV>
    decreases keys.len(),
{
    if keys.len() == 0 {
        found
    } else {
        let before = settings_issues(found, base, keys.drop_last());
        if names_capability(keys.last()) {
            before
        } else {
            before.push(
                issue(
                    base + ".settings."@ + keys.last(),
                    ValidationCode::UnknownCapability,
                    "`"@ + keys.last()
                        + "` is not one of source, builder, target, runtime, exposure, or dns"@,
                ),
            )
        }
    }
}

/// The issues of the overrides for one app.
pub open spec fn override_issues(
    found: Seq<validation::IssueV>,
    base: Seq<char>,
    name: Seq<char>,
    env: StringMap<EnvironmentValue>,
    selected: Seq<Seq<char>>,
    apps: Seq<Seq<char>>,
) -> Seq<validation::IssueV> {
    let field = base + ".app_env."@ + name;
    let a = if !apps.contains(name) {
        found.push(issue(field, ValidationCode::MissingReference, "app `"@ + name + "` does not exist"@))
    } else if !selected.contains(name) {
        found.push(
            issue(
                field,
                ValidationCode::MissingReference,
                "app `"@ + name + "` is not selected by this profile"@,
            ),
        )
    } else {
        found
    };
    environment_issues(a, env.keys(), field)
}

/// The issues of the overrides of a profile.
pub open spec fn overrides_issues(
    found: Seq<validation::IssueV>,
    base: Seq<char>,
    overrides: Seq<(String, StringMap<EnvironmentValue>)>,
    selected: Seq<Seq<char>>,
    apps: Seq<Seq<char>>,
) -> Seq<validation::IssueV>
    decreases overrides.len(),
{
    if overrides.len() == 0 {
        found
    } else {
        override_issues(
            overrides_issues(found, base, overrides.drop_last(), selected, apps),
            base,
            overrides.last().0@,
            overrides.last().1,
            selected,
            apps,
        )
    }
}

/// The issues of one profile.
pub open spec fn profile_issues(
    found: Seq<validation::IssueV>,
    name: Seq<char>,
    profile: Profile,
    apps: Seq<Seq<char>>,
) -> Seq<validation::IssueV> {
    let base = "profiles."@ + name;
    let selected = text::texts(profile.apps@);
    let a = name_issues(found, base + " (name)"@, name);
    let b = if selected.len() == 0 {
        a.push(
            issue(
                base + ".apps"@,
                ValidationCode::Empty,
                "profile must select at least one public app"@,
            ),
        )
    } else {
        a
    };
    let c = selection_issues(b, base, selected, apps);
    let d = settings_issues(c, base, profile.settings.keys());
    let e = environment_issues(d, profile.env.keys(), base + ".env"@);
    overrides_issues(e, base, profile.app_env.entries@, selected, apps)
}

/// The issues of the first profiles.
pub open spec fn each_profile_issues(
    found: Seq<validation::IssueV>,
    profiles: Seq<(String, Profile)>,
    apps: Seq<Seq<char>>,
) -> Seq<validation::IssueV>
    decreases profiles.len(),
{
    if profiles.len() == 0 {
        found
    } else {
        profile_issues(
            each_profile_issues(found, profiles.drop_last(), apps),
            profiles.last().0@,
            profiles.last().1,
            apps,
        )
    }
}

/// The issues of the profiles.
pub open spec fn profiles_issues(
    found: Seq<validation::IssueV>,
    profiles: Seq<(String, Profile)>,
    apps: Seq<Seq<char>>,
) -> Seq<validation::IssueV> {
    let a = if profiles.len() == 0 {
        found.push(issue("profiles"@, ValidationCode::Empty, "at least one profile is required"@))
    } else {
        found
    };
    each_profile_issues(a, profiles, apps)
}

/// All issues of a configuration, in the order in which they are reported.
pub open spec fn config_issues(config: LightrailConfig) -> Seq<validation::IssueV> {
    let a = if config.schema != CONFIG_SCHEMA_VERSION {
        seq![
            issue(
                "schema"@,
                ValidationCode::UnsupportedSchema,
                "schema "@ + text::decimal(config.schema as nat) + " is unsupported; expected 1"@,
            ),
        ]
    } else {
        Seq::empty()
    };
    let b = project_issues(a, config.project, config.profiles.keys());
    let c = apps_issues(b, config.apps.entries@);
    profiles_issues(c, config.profiles.entries@, config.apps.keys())
}

impl LightrailConfig {
    /// Validates all provider-independent configuration invariants.
    ///
    /// # Errors
    ///
    /// Returns [`ValidationErrors`] containing every independent problem found.
    pub fn validate(&self) -> (r: Result<(), ValidationErrors>)
        ensures
            match r {
                Ok(()) => config_issues(*self).len() == 0,
                Err(errors) => config_issues(*self).len() > 0 && errors@ == config_issues(*self),
            },
    {
        let mut issues: Vec<ValidationIssue> = Vec::new();
        assert(validation::issue_views(issues@) =~= Seq::<validation::IssueV>::empty());
        if self.schema != CONFIG_SCHEMA_VERSION {
            let message = text::cat3(
                "schema ",
                text::number(self.schema as u128).as_str(),
                " is unsupported; expected 1",
            );
            validation::report(&mut issues, "schema", ValidationCode::UnsupportedSchema, message.as_str());
            assert(validation::issue_views(issues@) =~= seq![
                issue("schema"@, ValidationCode::UnsupportedSchema, message@),
            ]);
        }
        validate_project(&self.project, &self.profiles, &mut issues);
        validate_apps(&self.apps, &mut issues);
        validate_profiles(&self.profiles, &self.apps, &mut issues);
        match ValidationErrors::from_issues(issues) {
            Some(errors) => Err(errors),
            None => Ok(()),
        }
    }

    /// Returns the configured default profile.
    pub fn default_profile(&self) -> (r: Option<(&str, &Profile)>)
        ensures
            match r {
                Some((name, profile)) => name@ == self.project.default_profile@ && self.profiles.at(name@)
                    == Some(*profile),
                None => self.profiles.at(self.project.default_profile@) is None,
            },
    {
        match self.profiles.get(self.project.default_profile.as_str()) {
            Some(profile) => Some((self.project.default_profile.as_str(), profile)),
            None => None,
        }
    }

    /// Returns a named profile.
    pub fn profile(&self, name: &str) -> (r: Option<&Profile>)
        ensures
            match r {
                Some(profile) => self.profiles.at(name@) == Some(*profile),
                None => self.profiles.at(name@) is None,
            },
    {
        self.profiles.get(name)
    }

    /// Returns a named public app.
    pub fn app(&self, name: &str) -> (r: Option<&App>)
        ensures
            match r {
                Some(app) => self.apps.at(name@) == Some(*app),
                None => self.apps.at(name@) is None,
            },
    {
        self.apps.get(name)
    }
}

/// Loading, parsing, validating, or serializing a Lightrail configuration failed.
#[derive(Debug)]
#[non_exhaustive]
pub enum ConfigError {
    /// The configuration file could not be read.
    Read {
        /// Path that was being read.
        path: String,
        /// Underlying filesystem error.
        source: String,
    },
    /// TOML could not be deserialized into the configuration model.
    Parse {
        /// Human-readable input origin, such as a path or `<memory>`.
        origin: String,
        /// Underlying TOML error.
        source: String,
    },
    /// A validated configuration could not be serialized.
    Serialize(String),
    /// The parsed configuration violates one or more domain invariants.
    Validation(ValidationErrors),
}

impl ConfigError {
    /// The text of the error.
    pub open spec fn text(self) -> Seq<char> {
        match self {
            ConfigError::Read { path, source } => "failed to read Lightrail configuration `"@ + path@
                + "`: "@ + source@,
            ConfigError::Parse { origin, source } =>
                "failed to parse Lightrail configuration from "@ + origin@ + ": "@ + source@,
            ConfigError::Serialize(source) => "failed to serialize Lightrail configuration: "@ + source@,
            ConfigError::Validation(errors) => validation::errors_text(errors@),
        }
    }

    /// Describes the error to a person.
    pub fn message(&self) -> (r: String)
        ensures
            r@ == self.text(),
    {
        match self {
            ConfigError::Read { path, source } => text::cat4(
                "failed to read Lightrail configuration `",
                path.as_str(),
                "`: ",
                source.as_str(),
            ),
            ConfigError::Parse { origin, source } => text::cat4(
                "failed to parse Lightrail configuration from ",
                origin.as_str(),
                ": ",
                source.as_str(),
            ),
            ConfigError::Serialize(source) => text::cat2(
                "failed to serialize Lightrail configuration: ",
                source.as_str(),
            ),
            ConfigError::Validation(errors) => errors.message(),
        }
    }
}

impl LightrailConfig {
    /// Accepts a configuration that was read from somewhere.
    ///
    /// # Errors
    ///
    /// Returns [`ConfigError::Parse`] where the notation could not be read, and
    /// [`ConfigError::Validation`] when domain invariants do not hold.
    pub fn parse_from(parsed: Result<LightrailConfig, String>, origin: &str) -> (r: Result<
        LightrailConfig,
        ConfigError,
    >)
        ensures
            match (parsed, r) {
                (Err(detail), Err(ConfigError::Parse { origin: o, source })) => o@ == origin@ && source
                    == detail,
                (Ok(config), Ok(accepted)) => config_issues(config).len() == 0 && accepted == config,
                (Ok(config), Err(ConfigError::Validation(errors))) => config_issues(config).len() > 0
                    && errors@ == config_issues(config),
                _ => false,
            },
    {
        match parsed {
            Err(source) => Err(ConfigError::Parse { origin: origin.to_owned(), source }),
            Ok(config) => match config.validate() {
                Ok(()) => Ok(config),
                Err(errors) => Err(ConfigError::Validation(errors)),
            },
        }
    }
}

/// Reports the issues of a name.
pub fn validate_semantic_name(path: &str, name: &str, issues: &mut Vec<ValidationIssue>)
    ensures
        validation::issue_views(final(issues)@) == name_issues(
            validation::issue_views(old(issues)@),
            path@,
            name@,
        ),
{
    if name.is_empty() {
        validation::report(issues, path, ValidationCode::Empty, "value must not be empty");
    } else if !text::same(text::trim(name).as_str(), name) || text::byte_len(name) > MAX_SEMANTIC_NAME_BYTES
        || !text::free_of_control(name) {
        validation::report(
            issues,
            path,
            ValidationCode::InvalidIdentifier,
            "value must be at most 255 bytes with no surrounding whitespace or control characters",
        );
    }
}

/// Tests for the name of a Compose service.
pub fn is_compose_service_name(s: &str) -> (r: bool)
    ensures
        r == is_service_name(s@),
{
    !s.is_empty() && text::alnum(text::chars_of(s)[0]) && text::all_in_set(s, true, true, true, "._-")
}

/// Tests for the name of an environment variable.
pub fn is_environment_key(s: &str) -> (r: bool)
    ensures
        r == is_environment_key_text(s@),
{
    !s.is_empty() && !text::digit(text::chars_of(s)[0]) && text::all_in_set(s, true, true, true, "_")
}

/// Reports the issues of environment-variable names.
pub fn validate_environment(
    environment: &StringMap<EnvironmentValue>,
    base: &str,
    issues: &mut Vec<ValidationIssue>,
)
    ensures
        validation::issue_views(final(issues)@) == environment_issues(
            validation::issue_views(old(issues)@),
            environment.keys(),
            base@,
        ),
{
    let ghost found = validation::issue_views(issues@);
    let ghost keys = environment.keys();
    let mut i: usize = 0;
    assert(keys.take(0) =~= Seq::<Seq<char>>::empty());
    while i < environment.entries.len()
        invariant
            i <= keys.len(),
            keys == environment.keys(),
            validation::issue_views(issues@) == environment_issues(found, keys.take(i as int), base@),
        decreases environment.entries.len() - i,
    {
        let key = environment.entries[i].0.as_str();
        proof {
            assert(keys.take(i + 1).drop_last() =~= keys.take(i as int));
            assert(keys.take(i + 1).last() == key@);
        }
        if !is_environment_key(key) {
            validation::report(
                issues,
                text::cat3(base, ".", key).as_str(),
                ValidationCode::InvalidEnvironmentKey,
                "environment keys must match [A-Za-z_][A-Za-z0-9_]*",
            );
        }
        i += 1;
    }
    assert(keys.take(keys.len() as int) =~= keys);
}

/// Whether a path repeats one of the first `n` paths.
fn path_repeats(paths: &Vec<String>, n: usize) -> (r: bool)
    requires
        n < paths@.len(),
    ensures
        r == repeats_path(paths@[n as int]@, text::texts(paths@).take(n as int)),
{
    let ghost others = text::texts(paths@).take(n as int);
    let wanted = path::path_components(paths[n].as_str());
    let mut j: usize = 0;
    while j < n
        invariant
            j <= n < paths@.len(),
            others == text::texts(paths@).take(n as int),
            text::texts(wanted@) == path::components(paths@[n as int]@),
            forall|k: int|
                0 <= k < j ==> path::components(#[trigger] others[k]) != path::components(paths@[n as int]@),
        decreases n - j,
    {
        let parts = path::path_components(paths[j].as_str());
        assert(others[j as int] == paths@[j as int]@);
        if path::same_texts(&parts, &wanted) {
            return true;
        }
        j += 1;
    }
    false
}

/// Reports the issues of the Compose files.
fn validate_compose(paths: &Vec<String>, issues: &mut Vec<ValidationIssue>)
    ensures
        validation::issue_views(final(issues)@) == compose_issues(
            validation::issue_views(old(issues)@),
            text::texts(paths@),
        ),
{
    let ghost found = validation::issue_views(issues@);
    let ghost all = text::texts(paths@);
    let mut i: usize = 0;
    assert(all.take(0) =~= Seq::<Seq<char>>::empty());
    while i < paths.len()
        invariant
            i <= all.len(),
            all == text::texts(paths@),
            validation::issue_views(issues@) == compose_issues(found, all.take(i as int)),
        decreases paths.len() - i,
    {
        proof {
            assert(all.take(i + 1).drop_last() =~= all.take(i as int));
            assert(all.take(i + 1).last() == paths@[i as int]@);
        }
        let field = text::cat3("project.compose[", text::number(i as u128).as_str(), "]");
        if !path::plain_relative(paths[i].as_str()) {
            validation::report(
                issues,
                field.as_str(),
                ValidationCode::InvalidPath,
                "Compose paths must be non-empty, normalized paths relative to the repository root",
            );
        }
        if path_repeats(paths, i) {
            let message = text::cat3("Compose path `", paths[i].as_str(), "` is listed more than once");
            validation::report(issues, field.as_str(), ValidationCode::Duplicate, message.as_str());
        }
        i += 1;
    }
    assert(all.take(all.len() as int) =~= all);
}

/// Reports the issues of the project metadata.
pub fn validate_project(
    project: &Project,
    profiles: &StringMap<Profile>,
    issues: &mut Vec<ValidationIssue>,
)
    ensures
        validation::issue_views(final(issues)@) == project_issues(
            validation::issue_views(old(issues)@),
            *project,
            profiles.keys(),
        ),
{
    if project.id.is_nil() {
        validation::report(
            issues,
            "project.id",
            ValidationCode::InvalidIdentifier,
            "project UUID must not be nil",
        );
    }
    validate_semantic_name("project.slug", project.slug.as_str(), issues);
    validate_semantic_name("project.default_profile", project.default_profile.as_str(), issues);
    if project.compose.len() == 0 {
        validation::report(
            issues,
            "project.compose",
            ValidationCode::Empty,
            "at least one Compose file is required",
        );
    }
    validate_compose(&project.compose, issues);
    if !project.default_profile.as_str().is_empty() && !profiles.contains_key(
        project.default_profile.as_str(),
    ) {
        let message = text::cat3("profile `", project.default_profile.as_str(), "` does not exist");
        validation::report(
            issues,
            "project.default_profile",
            ValidationCode::MissingReference,
            message.as_str(),
        );
    }
}

/// Tests for a health path.
fn health_path_fits(s: &str) -> (r: bool)
    ensures
        r == is_health_path(s@),
{
    let chars = text::chars_of(s);
    if chars.len() == 0 || chars[0] != '/' {
        return false;
    }
    let mut i: usize = 0;
    while i < chars.len()
        invariant
            chars@ == s@,
            i <= chars@.len(),
            forall|k: int|
                0 <= k < i ==> !text::is_control(#[trigger] chars@[k]) && !text::is_space(chars@[k]),
        decreases chars.len() - i,
    {
        if text::control(chars[i]) || text::space(chars[i]) {
            assert(text::is_control(s@[i as int]) || text::is_space(s@[i as int]));
            return false;
        }
        i += 1;
    }
    true
}

/// Reports a health setting that is zero.
fn validate_not_zero(
    base: &str,
    name: &str,
    setting: Option<u64>,
    issues: &mut Vec<ValidationIssue>,
)
    ensures
        validation::issue_views(final(issues)@) == zero_issue(
            validation::issue_views(old(issues)@),
            base@,
            name@,
            setting,
        ),
{
    match setting {
        Some(0) => {
            validation::report(
                issues,
                text::cat3(base, ".", name).as_str(),
                ValidationCode::InvalidHealthCheck,
                text::cat2(name, " must be greater than zero").as_str(),
            );
        },
        _ => {},
    }
}

/// Reports the issues of the health check of an app.
pub fn validate_health(app: &App, base: &str, issues: &mut Vec<ValidationIssue>)
    ensures
        validation::issue_views(final(issues)@) == health_issues(
            validation::issue_views(old(issues)@),
            *app,
            base@,
        ),
{
    if let Some(path) = &app.health_path {
        if !health_path_fits(path.as_str()) {
            validation::report(
                issues,
                text::cat2(base, ".health_path").as_str(),
                ValidationCode::InvalidHealthCheck,
                "health path must begin with `/` and contain no whitespace or control characters",
            );
        }
    }
    if let Some(status) = app.health_status {
        if status < 100 || status > 599 {
            validation::report(
                issues,
                text::cat2(base, ".health_status").as_str(),
                ValidationCode::InvalidHealthCheck,
                "health status must be between 100 and 599",
            );
        }
    }
    let tuned = app.health_status.is_some() || app.health_interval_seconds.is_some()
        || app.health_timeout_seconds.is_some();
    if tuned && app.health_path.is_none() {
        validation::report(
            issues,
            text::cat2(base, ".health_path").as_str(),
            ValidationCode::InvalidHealthCheck,
            "health_path is required when other health-check settings are present",
        );
    }
    validate_not_zero(base, "health_interval_seconds", app.health_interval_seconds, issues);
    validate_not_zero(base, "health_timeout_seconds", app.health_timeout_seconds, issues);
}

/// Reports the issues of one app.
fn validate_app(name: &str, app: &App, issues: &mut Vec<ValidationIssue>)
    ensures
        validation::issue_views(final(issues)@) == app_issues(
            validation::issue_views(old(issues)@),
            name@,
            *app,
        ),
{
    let base = text::cat2("apps.", name);
    validate_semantic_name(text::cat2(base.as_str(), " (name)").as_str(), name, issues);
    if !is_compose_service_name(app.service.as_str()) {
        validation::report(
            issues,
            text::cat2(base.as_str(), ".service").as_str(),
            ValidationCode::InvalidIdentifier,
            "service must begin with an ASCII letter or digit and contain only letters, digits, `.`, `_`, or `-`",
        );
    }
    if app.port == 0 {
        validation::report(
            issues,
            text::cat2(base.as_str(), ".port").as_str(),
            ValidationCode::InvalidPort,
            "internal app port must be between 1 and 65535",
        );
    }
    validate_health(app, base.as_str(), issues);
    validate_environment(&app.env, text::cat2(base.as_str(), ".env").as_str(), issues);
}

/// Reports the issues of the apps.
pub fn validate_apps(apps: &StringMap<App>, issues: &mut Vec<ValidationIssue>)
    ensures
        validation::issue_views(final(issues)@) == apps_issues(
            validation::issue_views(old(issues)@),
            apps.entries@,
        ),
{
    if apps.entries.len() == 0 {
        validation::report(issues, "apps", ValidationCode::Empty, "at least one public app is required");
    }
    let ghost found = validation::issue_views(issues@);
    let ghost all = apps.entries@;
    let mut i: usize = 0;
    assert(all.take(0) =~= Seq::<(String, App)>::empty());
    while i < apps.entries.len()
        invariant
            i <= all.len(),
            all == apps.entries@,
            validation::issue_views(issues@) == each_app_issues(found, all.take(i as int)),
        decreases apps.entries.len() - i,
    {
        proof {
            assert(all.take(i + 1).drop_last() =~= all.take(i as int));
            assert(all.take(i + 1).last() == all[i as int]);
        }
        validate_app(apps.entries[i].0.as_str(), &apps.entries[i].1, issues);
        i += 1;
    }
    assert(all.take(all.len() as int) =~= all);
}

/// Whether the text at `n` repeats one of those before it.
fn text_repeats(items: &Vec<String>, n: usize) -> (r: bool)
    requires
        n < items@.len(),
    ensures
        r == text::texts(items@).take(n as int).contains(items@[n as int]@),
{
    let ghost others = text::texts(items@).take(n as int);
    let mut j: usize = 0;
    while j < n
        invariant
            j <= n < items@.len(),
            others == text::texts(items@).take(n as int),
            forall|k: int| 0 <= k < j ==> #[trigger] others[k] != items@[n as int]@,
        decreases n - j,
    {
        assert(others[j as int] == items@[j as int]@);
        if text::same(items[j].as_str(), items[n].as_str()) {
            return true;
        }
        j += 1;
    }
    false
}

/// Reports the issues of the apps that a profile selects.
fn validate_selection(
    base: &str,
    selected: &Vec<String>,
    apps: &StringMap<App>,
    issues: &mut Vec<ValidationIssue>,
)
    ensures
        validation::issue_views(final(issues)@) == selection_issues(
            validation::issue_views(old(issues)@),
            base@,
            text::texts(selected@),
            apps.keys(),
        ),
{
    let ghost found = validation::issue_views(issues@);
    let ghost all = text::texts(selected@);
    let mut i: usize = 0;
    assert(all.take(0) =~= Seq::<Seq<char>>::empty());
    while i < selected.len()
        invariant
            i <= all.len(),
            all == text::texts(selected@),
            validation::issue_views(issues@) == selection_issues(
                found,
                base@,
                all.take(i as int),
                apps.keys(),
            ),
        decreases selected.len() - i,
    {
        proof {
            assert(all.take(i + 1).drop_last() =~= all.take(i as int));
            assert(all.take(i + 1).last() == selected@[i as int]@);
        }
        let name = selected[i].as_str();
        let field = text::cat4(base, ".apps[", text::number(i as u128).as_str(), "]");
        if text_repeats(selected, i) {
            let message = text::cat3("app `", name, "` is selected more than once");
            validation::report(issues, field.as_str(), ValidationCode::Duplicate, message.as_str());
        }
        if !apps.contains_key(name) {
            let message = text::cat3("app `", name, "` does not exist");
            validation::report(issues, field.as_str(), ValidationCode::MissingReference, message.as_str());
        }
        i += 1;
    }
    assert(all.take(all.len() as int) =~= all);
}

/// Reports the issues of the names of settings.
fn validate_settings(base: &str, settings: &StringMap<Data>, issues: &mut Vec<ValidationIssue>)
    ensures
        validation::issue_views(final(issues)@) == settings_issues(
            validation::issue_views(old(issues)@),
            base@,
            settings.keys(),
        ),
{
    let ghost found = validation::issue_views(issues@);
    let ghost keys = settings.keys();
    let mut i: usize = 0;
    assert(keys.take(0) =~= Seq::<Seq<char>>::empty());
    while i < settings.entries.len()
        invariant
            i <= keys.len(),
            keys == settings.keys(),
            validation::issue_views(issues@) == settings_issues(found, base@, keys.take(i as int)),
        decreases settings.entries.len() - i,
    {
        let key = settings.entries[i].0.as_str();
        proof {
            assert(keys.take(i + 1).drop_last() =~= keys.take(i as int));
            assert(keys.take(i + 1).last() == key@);
        }
        if Capability::parse(key).is_err() {
            validation::report(
                issues,
                text::cat3(base, ".settings.", key).as_str(),
                ValidationCode::UnknownCapability,
                text::cat3(
                    "`",
                    key,
                    "` is not one of source, builder, target, runtime, exposure, or dns",
                ).as_str(),
            );
        }
        i += 1;
    }
    assert(keys.take(keys.len() as int) =~= keys);
}

/// Reports the issues of the overrides of a profile.
fn validate_overrides(
    base: &str,
    overrides: &StringMap<StringMap<EnvironmentValue>>,
    selected: &Vec<String>,
    apps: &StringMap<App>,
    issues: &mut Vec<ValidationIssue>,
)
    ensures
        validation::issue_views(final(issues)@) == overrides_issues(
            validation::issue_views(old(issues)@),
            base@,
            overrides.entries@,
            text::texts(selected@),
            apps.keys(),
        ),
{
    let ghost found = validation::issue_views(issues@);
    let ghost all = overrides.entries@;
    let mut i: usize = 0;
    assert(all.take(0) =~= Seq::<(String, StringMap<EnvironmentValue>)>::empty());
    while i < overrides.entries.len()
        invariant
            i <= all.len(),
            all == overrides.entries@,
            validation::issue_views(issues@) == overrides_issues(
                found,
                base@,
                all.take(i as int),
                text::texts(selected@),
                apps.keys(),
            ),
        decreases overrides.entries.len() - i,
    {
        proof {
            assert(all.take(i + 1).drop_last() =~= all.take(i as int));
            assert(all.take(i + 1).last() == all[i as int]);
        }
        let name = overrides.entries[i].0.as_str();
        let field = text::cat3(base, ".app_env.", name);
        if !apps.contains_key(name) {
            let message = text::cat3("app `", name, "` does not exist");
            validation::report(issues, field.as_str(), ValidationCode::MissingReference, message.as_str());
        } else if !collections::contains_text(selected, name) {
            let message = text::cat3("app `", name, "` is not selected by this profile");
            validation::report(issues, field.as_str(), ValidationCode::MissingReference, message.as_str());
        }
        validate_environment(&overrides.entries[i].1, field.as_str(), issues);
        i += 1;
    }
    assert(all.take(all.len() as int) =~= all);
}

/// Reports the issues of one profile.
fn validate_profile(
    name: &str,
    profile: &Profile,
    apps: &StringMap<App>,
    issues: &mut Vec<ValidationIssue>,
)
    ensures
        validation::issue_views(final(issues)@) == profile_issues(
            validation::issue_views(old(issues)@),
            name@,
            *profile,
            apps.keys(),
        ),
{
    let base = text::cat2("profiles.", name);
    validate_semantic_name(text::cat2(base.as_str(), " (name)").as_str(), name, issues);
    if profile.apps.len() == 0 {
        validation::report(
            issues,
            text::cat2(base.as_str(), ".apps").as_str(),
            ValidationCode::Empty,
            "profile must select at least one public app",
        );
    }
    validate_selection(base.as_str(), &profile.apps, apps, issues);
    validate_settings(base.as_str(), &profile.settings, issues);
    validate_environment(&profile.env, text::cat2(base.as_str(), ".env").as_str(), issues);
    validate_overrides(base.as_str(), &profile.app_env, &profile.apps, apps, issues);
}

/// Reports the issues of the profiles.
pub fn validate_profiles(
    profiles: &StringMap<Profile>,
    apps: &StringMap<App>,
    issues: &mut Vec<ValidationIssue>,
)
    ensures
        validation::issue_views(final(issues)@) == profiles_issues(
            validation::issue_views(old(issues)@),
            profiles.entries@,
            apps.keys(),
        ),
{
    if profiles.entries.len() == 0 {
        validation::report(issues, "profiles", ValidationCode::Empty, "at least one profile is required");
    }
    let ghost found = validation::issue_views(issues@);
    let ghost all = profiles.entries@;
    let mut i: usize = 0;
    assert(all.take(0) =~= Seq::<(String, Profile)>::empty());
    while i < profiles.entries.len()
        invariant
            i <= all.len(),
            all == profiles.entries@,
            validation::issue_views(issues@) == each_profile_issues(found, all.take(i as int), apps.keys()),
        decreases profiles.entries.len() - i,
    {
        proof {
            assert(all.take(i + 1).drop_last() =~= all.take(i as int));
            assert(all.take(i + 1).last() == all[i as int]);
        }
        validate_profile(profiles.entries[i].0.as_str(), &profiles.entries[i].1, apps, issues);
        i += 1;
    }
    assert(all.take(all.len() as int) =~= all);
}

/// Identifiers are made of lower-case letters, digits, dots, underscores and hyphens; they start
/// and end with a letter or a digit.
pub proof fn identifiers_are_plain(s: Seq<char>, i: int)
    requires
        is_identifier(s),
        0 <= i < s.len(),
    ensures
        'a' <= s[i] <= 'z' || '0' <= s[i] <= '9' || s[i] == '.' || s[i] == '_' || s[i] == '-',
        i == 0 || i == s.len() - 1 ==> 'a' <= s[i] <= 'z' || '0' <= s[i] <= '9',
{
    reveal_strlit("._-");
}

/// Names of variables are made of letters, digits and underscores, and do not start with a
/// digit.
pub proof fn variables_have_lawful_names(s: Seq<char>)
    ensures
        is_environment_key_text(s) <==> s.len() > 0 && !('0' <= s[0] <= '9') && forall|i: int|
            0 <= i < s.len() ==> 'a' <= #[trigger] s[i] <= 'z' || 'A' <= s[i] <= 'Z' || '0' <= s[i] <= '9' || s[i]
                == '_',
{
    reveal_strlit("_");
    assert("_"@[0] == '_');
}

/// Names of services start with a letter or a digit, and go on with these, dots, underscores and
/// hyphens.
pub proof fn services_have_lawful_names(s: Seq<char>)
    ensures
        is_service_name(s) <==> s.len() > 0 && s[0] != '.' && s[0] != '_' && s[0] != '-' && forall|i: int|
            0 <= i < s.len() ==> 'a' <= #[trigger] s[i] <= 'z' || 'A' <= s[i] <= 'Z' || '0' <= s[i] <= '9' || s[i]
                == '.' || s[i] == '_' || s[i] == '-',
{
    reveal_strlit("._-");
    assert("._-"@[0] == '.' && "._-"@[1] == '_' && "._-"@[2] == '-');
}

/// The settings of a profile are kept under the names of the capabilities, and under no others.
pub proof fn settings_are_named_after_capabilities(s: Seq<char>)
    ensures
        names_capability(s) <==> exists|c: Capability| #[trigger] c.text() == s,
{
    if names_capability(s) {
        assert(Capability::Source.text() == s || Capability::Builder.text() == s || Capability::Target.text() == s
            || Capability::Runtime.text() == s || Capability::Exposure.text() == s || Capability::Dns.text() == s);
    }
}

/// Each capability is filled by the plugin that the pipeline names for it.
pub proof fn pipelines_assign_each_capability(pipeline: PluginPipeline)
    ensures
        pipeline.assigned(Capability::Source) == pipeline.source@,
        pipeline.assigned(Capability::Builder) == pipeline.builder@,
        pipeline.assigned(Capability::Target) == pipeline.target@,
        pipeline.assigned(Capability::Runtime) == pipeline.runtime@,
        pipeline.assigned(Capability::Exposure) == pipeline.exposure@,
        pipeline.assigned(Capability::Dns) == pipeline.dns@,
{
}

/// Capabilities and boundaries are written with their names.
pub proof fn capabilities_have_their_names()
    ensures
        Capability::Source.text() == "source"@,
        Capability::Builder.text() == "builder"@,
        Capability::Target.text() == "target"@,
        Capability::Runtime.text() == "runtime"@,
        Capability::Exposure.text() == "exposure"@,
        Capability::Dns.text() == "dns"@,
        Isolation::Project.text() == "project"@,
        Isolation::Environment.text() == "environment"@,
        Isolation::Machine.text() == "machine"@,
{
}

/// A health path starts at the root and holds neither space nor control characters.
pub proof fn health_paths_are_paths(s: Seq<char>)
    ensures
        is_health_path(s) ==> s.len() > 0 && s[0] == '/' && !s.contains(' ') && !s.contains('\n'),
{
    if is_health_path(s) {
        assert forall|c: char| (c == ' ' || c == '\n') implies !#[trigger] s.contains(c) by {
            if s.contains(c) {
                let i = choose|i: int| 0 <= i < s.len() && s[i] == c;
                assert(!text::is_control(s[i]) && !text::is_space(s[i]));
            }
        }
    }
}

/// Issues are only ever added.
pub open spec fn goes_on_from(after: Seq<validation::IssueV>, before: Seq<validation::IssueV>) -> bool {
    before.len() <= after.len() && forall|i: int| 0 <= i < before.len() ==> #[trigger] after[i] == before[i]
}

/// The variables of an application add issues alone.
proof fn lemma_environment_adds(found: Seq<validation::IssueV>, keys: Seq<Seq<char>>, base: Seq<char>)
    ensures
        goes_on_from(environment_issues(found, keys, base), found),
    decreases keys.len(),
{
    if keys.len() > 0 {
        lemma_environment_adds(found, keys.drop_last(), base);
    }
}

/// An application adds issues alone, and one for a port of zero.
proof fn lemma_app_adds(found: Seq<validation::IssueV>, name: Seq<char>, app: App)
    ensures
        goes_on_from(app_issues(found, name, app), found),
        app.port == 0 ==> exists|i: int|
            0 <= i < app_issues(found, name, app).len() && (#[trigger] app_issues(found, name, app)[i]).path
                == "apps."@ + name + ".port"@ && app_issues(found, name, app)[i].code == ValidationCode::InvalidPort,
        !is_service_name(app.service@) ==> exists|i: int|
            0 <= i < app_issues(found, name, app).len() && (#[trigger] app_issues(found, name, app)[i]).path
                == "apps."@ + name + ".service"@ && app_issues(found, name, app)[i].code
                == ValidationCode::InvalidIdentifier,
{
    let base = "apps."@ + name;
    let a = name_issues(found, base + " (name)"@, name);
    let b = if is_service_name(app.service@) {
        a
    } else {
        a.push(
            issue(
                base + ".service"@,
                ValidationCode::InvalidIdentifier,
                "service must begin with an ASCII letter or digit and contain only letters, digits, `.`, `_`, or `-`"@,
            ),
        )
    };
    let c = if app.port == 0 {
        b.push(
            issue(
                base + ".port"@,
                ValidationCode::InvalidPort,
                "internal app port must be between 1 and 65535"@,
            ),
        )
    } else {
        b
    };
    let d = health_issues(c, app, base);
    lemma_environment_adds(d, app.env.keys(), base + ".env"@);
    let all = app_issues(found, name, app);
    assert(goes_on_from(d, c));
    assert(goes_on_from(all, d));
    if app.port == 0 {
        let i = b.len() as int;
        assert(d[i] == c[i]);
        assert(all[i] == d[i]);
    }
    if !is_service_name(app.service@) {
        let i = a.len() as int;
        assert(c[i] == b[i]);
        assert(d[i] == c[i]);
        assert(all[i] == d[i]);
    }
}

/// Applications add issues alone, and each one its own.
proof fn lemma_apps_add(found: Seq<validation::IssueV>, apps: Seq<(String, App)>, k: int)
    requires
        0 <= k <= apps.len(),
    ensures
        goes_on_from(each_app_issues(found, apps), each_app_issues(found, apps.take(k))),
    decreases apps.len(),
{
    if k == apps.len() {
        assert(apps.take(k) =~= apps);
    } else {
        lemma_apps_add(found, apps.drop_last(), k);
        assert(apps.drop_last().take(k) =~= apps.take(k));
        lemma_app_adds(each_app_issues(found, apps.drop_last()), apps.last().0@, apps.last().1);
    }
}

/// An application whose port is zero, or whose service has no lawful name, is reported at its
/// place, whatever else is wrong.
pub proof fn wrong_applications_are_reported(found: Seq<validation::IssueV>, apps: Seq<(String, App)>, k: int)
    requires
        0 <= k < apps.len(),
    ensures
        apps[k].1.port == 0 ==> exists|i: int|
            0 <= i < apps_issues(found, apps).len() && (#[trigger] apps_issues(found, apps)[i]).path == "apps."@
                + apps[k].0@ + ".port"@ && apps_issues(found, apps)[i].code == ValidationCode::InvalidPort,
        !is_service_name(apps[k].1.service@) ==> exists|i: int|
            0 <= i < apps_issues(found, apps).len() && (#[trigger] apps_issues(found, apps)[i]).path == "apps."@
                + apps[k].0@ + ".service"@ && apps_issues(found, apps)[i].code == ValidationCode::InvalidIdentifier,
{
    let one = apps.take(k + 1);
    let before = each_app_issues(found, apps.take(k));
    assert(one.drop_last() =~= apps.take(k));
    assert(one.last() == apps[k]);
    lemma_app_adds(before, apps[k].0@, apps[k].1);
    lemma_apps_add(found, apps, k + 1);
    let mid = each_app_issues(found, one);
    let all = apps_issues(found, apps);
    assert(goes_on_from(all, mid));
    if apps[k].1.port == 0 {
        let i = choose|i: int|
            0 <= i < mid.len() && (#[trigger] mid[i]).path == "apps."@ + apps[k].0@ + ".port"@ && mid[i].code
                == ValidationCode::InvalidPort;
        assert(all[i] == mid[i]);
    }
    if !is_service_name(apps[k].1.service@) {
        let i = choose|i: int|
            0 <= i < mid.len() && (#[trigger] mid[i]).path == "apps."@ + apps[k].0@ + ".service"@ && mid[i].code
                == ValidationCode::InvalidIdentifier;
        assert(all[i] == mid[i]);
    }
}

/// A copy of a profile keeps everything: the boundary, the applications, the plugin of each
/// capability, the settings and the variables.
pub proof fn copies_keep_everything(a: Profile, b: Profile)
    requires
        same_profile(a, b),
    ensures
        a.isolation == b.isolation,
        text::texts(a.apps@) == text::texts(b.apps@),
        a.pipeline.source@ == b.pipeline.source@,
        a.pipeline.builder@ == b.pipeline.builder@,
        a.pipeline.target@ == b.pipeline.target@,
        a.pipeline.runtime@ == b.pipeline.runtime@,
        a.pipeline.exposure@ == b.pipeline.exposure@,
        a.pipeline.dns@ == b.pipeline.dns@,
        value::entry_views(a.settings.entries@) == value::entry_views(b.settings.entries@),
        variable_views(a.env.entries@) == variable_views(b.env.entries@),
        override_views(a.app_env.entries@) == override_views(b.app_env.entries@),
{
    assert(a.pipeline.assigned(Capability::Source) == b.pipeline.assigned(Capability::Source));
    assert(a.pipeline.assigned(Capability::Builder) == b.pipeline.assigned(Capability::Builder));
    assert(a.pipeline.assigned(Capability::Target) == b.pipeline.assigned(Capability::Target));
    assert(a.pipeline.assigned(Capability::Runtime) == b.pipeline.assigned(Capability::Runtime));
    assert(a.pipeline.assigned(Capability::Exposure) == b.pipeline.assigned(Capability::Exposure));
    assert(a.pipeline.assigned(Capability::Dns) == b.pipeline.assigned(Capability::Dns));
}

} // verus!
