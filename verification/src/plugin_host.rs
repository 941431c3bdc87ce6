//! The plugins that are bundled, and how plugins are started.

use vstd::prelude::*;

use crate::collections::StringMap;
use crate::config;
use crate::config::MAX_PLUGIN_ID_BYTES;
use crate::error::{settles, CliError, CliErrorV};
use crate::path;
use crate::plugin_registry;
use crate::plugin_registry::{LockedPlugin, PluginLock};
use crate::protocol::{self, Capability, PluginManifest};
use crate::provider::first;
use crate::text;
use crate::version;
use crate::version::PROTOCOL_VERSION_STRING;
use crate::workspace;

verus! {

pub const COMPOSE_PLUGIN_ID: &'static str = "dev.lightrail.compose";

pub const SSH_PLUGIN_ID: &'static str = "dev.lightrail.ssh";

pub const HETZNER_PLUGIN_ID: &'static str = "dev.lightrail.hetzner";

pub const KUBERNETES_PLUGIN_ID: &'static str = "dev.lightrail.kubernetes";

pub const FLY_PLUGIN_ID: &'static str = "dev.lightrail.fly";

/// A text that identifies a plugin.
pub open spec fn names_plugin(s: Seq<char>) -> bool {
    s.len() > 0 && text::utf8_len(s) <= MAX_PLUGIN_ID_BYTES && config::is_identifier(s)
}

/// Short segments of lowercase letters with single dots between them are an identifier.
proof fn lemma_names_plugin(s: Seq<char>)
    requires
        0 < s.len() <= 32,
        forall|i: int| 0 <= i < s.len() ==> text::is_lower(#[trigger] s[i]) || s[i] == '.',
        s[0] != '.',
        s.last() != '.',
        forall|i: int| 0 <= i < s.len() - 1 ==> !(#[trigger] s[i] == '.' && s[i + 1] == '.'),
    ensures
        names_plugin(s),
{
    text::lemma_utf8_len(s);
    text::lemma_segments(s, '.');
    reveal_strlit("._-");
    assert("._-"@[0] == '.');
    assert("._-"@.contains('.'));
    assert forall|i: int| 0 <= i < s.len() implies text::in_set(
        #[trigger] s[i],
        true,
        false,
        true,
        "._-"@,
    ) by {
        assert(text::is_lower(s[i]) || s[i] == '.');
    }
    assert(text::is_lower(s[0]));
    assert(text::is_lower(s[s.len() - 1]));
}

/// The identifiers of the bundled plugins are identifiers.
pub proof fn bundled_plugins_have_identifiers()
    ensures
        names_plugin(COMPOSE_PLUGIN_ID@),
        names_plugin(SSH_PLUGIN_ID@),
        names_plugin(HETZNER_PLUGIN_ID@),
        names_plugin(KUBERNETES_PLUGIN_ID@),
        names_plugin(FLY_PLUGIN_ID@),
{
    reveal_strlit("dev.lightrail.compose");
    assert(COMPOSE_PLUGIN_ID@ =~= seq!['d', 'e', 'v', '.', 'l', 'i', 'g', 'h', 't', 'r', 'a', 'i', 'l', '.', 'c', 'o', 'm', 'p', 'o', 's', 'e']);
    lemma_names_plugin(COMPOSE_PLUGIN_ID@);
    reveal_strlit("dev.lightrail.ssh");
    assert(SSH_PLUGIN_ID@ =~= seq!['d', 'e', 'v', '.', 'l', 'i', 'g', 'h', 't', 'r', 'a', 'i', 'l', '.', 's', 's', 'h']);
    lemma_names_plugin(SSH_PLUGIN_ID@);
    reveal_strlit("dev.lightrail.hetzner");
    assert(HETZNER_PLUGIN_ID@ =~= seq!['d', 'e', 'v', '.', 'l', 'i', 'g', 'h', 't', 'r', 'a', 'i', 'l', '.', 'h', 'e', 't', 'z', 'n', 'e', 'r']);
    lemma_names_plugin(HETZNER_PLUGIN_ID@);
    reveal_strlit("dev.lightrail.kubernetes");
    assert(KUBERNETES_PLUGIN_ID@ =~= seq!['d', 'e', 'v', '.', 'l', 'i', 'g', 'h', 't', 'r', 'a', 'i', 'l', '.', 'k', 'u', 'b', 'e', 'r', 'n', 'e', 't', 'e', 's']);
    lemma_names_plugin(KUBERNETES_PLUGIN_ID@);
    reveal_strlit("dev.lightrail.fly");
    assert(FLY_PLUGIN_ID@ =~= seq!['d', 'e', 'v', '.', 'l', 'i', 'g', 'h', 't', 'r', 'a', 'i', 'l', '.', 'f', 'l', 'y']);
    lemma_names_plugin(FLY_PLUGIN_ID@);
}

// ---------------------------------------------------------------------------
// Which program a plugin is
// ---------------------------------------------------------------------------

/// The program of a bundled plugin.
pub open spec fn bundled_program(id: Seq<char>) -> Option<Seq<char>> {
    if id == COMPOSE_PLUGIN_ID@ {
        Some("lightrail-plugin-compose"@)
    } else if id == SSH_PLUGIN_ID@ {
        Some("lightrail-plugin-ssh"@)
    } else if id == HETZNER_PLUGIN_ID@ {
        Some("lightrail-plugin-hetzner"@)
    } else if id == KUBERNETES_PLUGIN_ID@ {
        Some("lightrail-plugin-kubernetes"@)
    } else if id == FLY_PLUGIN_ID@ {
        Some("lightrail-plugin-fly"@)
    } else {
        None
    }
}

/// The text that an optional literal holds.
pub open spec fn literal_of(s: Option<&'static str>) -> Option<Seq<char>> {
    match s {
        Some(s) => Some(s@),
        None => None,
    }
}

/// The program of a bundled plugin.
pub fn bundled_executable(id: &str) -> (r: Option<&'static str>)
    ensures
        literal_of(r) == bundled_program(id@),
{
    if text::same(id, COMPOSE_PLUGIN_ID) {
        Some("lightrail-plugin-compose")
    } else if text::same(id, SSH_PLUGIN_ID) {
        Some("lightrail-plugin-ssh")
    } else if text::same(id, HETZNER_PLUGIN_ID) {
        Some("lightrail-plugin-hetzner")
    } else if text::same(id, KUBERNETES_PLUGIN_ID) {
        Some("lightrail-plugin-kubernetes")
    } else if text::same(id, FLY_PLUGIN_ID) {
        Some("lightrail-plugin-fly")
    } else {
        None
    }
}

/// How a plugin is started, and what it must declare.
#[derive(Clone, Debug)]
pub struct PluginLaunch {
    pub id: String,
    pub program: String,
    pub arguments: Vec<String>,
    pub expected_version: Option<String>,
    pub expected_protocol: Option<String>,
}

/// A launch without arguments that expects a version and a protocol.
pub open spec fn launches(
    launch: PluginLaunch,
    id: Seq<char>,
    program: Seq<char>,
    plugin_version: Seq<char>,
    protocol: Seq<char>,
) -> bool {
    &&& launch.id@ == id
    &&& launch.program@ == program
    &&& launch.arguments@.len() == 0
    &&& text::option_of(launch.expected_version) == Some(plugin_version)
    &&& text::option_of(launch.expected_protocol) == Some(protocol)
}

/// Starts a bundled plugin: it has the version of the command line.
pub fn bundled_launch(id: &str, program: &str, core_version: &str) -> (r: PluginLaunch)
    ensures
        launches(r, id@, program@, core_version@, PROTOCOL_VERSION_STRING@),
{
    PluginLaunch {
        id: id.to_owned(),
        program: program.to_owned(),
        arguments: Vec::new(),
        expected_version: Some(core_version.to_owned()),
        expected_protocol: Some(PROTOCOL_VERSION_STRING.to_owned()),
    }
}

/// The place of a pinned plugin that is not bundled.
pub fn pinned_plugin(lock: &PluginLock, id: &str, lock_path: &str) -> (r: Result<usize, CliError>)
    ensures
        match r {
            Ok(i) => i < lock.plugins@.len() && lock.plugins@[i as int].id@ == id@ && forall|k: int|
                0 <= k < i ==> (#[trigger] lock.plugins@[k]).id@ != id@,
            Err(e) => !plugin_registry::is_pinned(plugin_registry::locked_views(lock.plugins@), id@)
                && e@ == CliErrorV::Plugin(
                "plugin `"@ + id@ + "` is neither bundled nor pinned in "@ + lock_path@,
            ),
        },
{
    match lock.pinned(id) {
        Ok(i) => Ok(i),
        Err(_) => Err(
            CliError::Plugin(
                text::cat4("plugin `", id, "` is neither bundled nor pinned in ", lock_path),
            ),
        ),
    }
}

/// Starts a pinned plugin from the directory of installed plugins.
pub fn launch_from_lock(plugin: &LockedPlugin, root: &str, file: &str) -> (r: PluginLaunch)
    ensures
        launches(
            r,
            plugin@.id,
            plugin_registry::installed_path(root@, plugin@, file@),
            plugin@.version,
            plugin@.protocol,
        ),
{
    PluginLaunch {
        id: plugin.id.clone(),
        program: plugin_registry::executable_path(root, plugin, file),
        arguments: Vec::new(),
        expected_version: Some(plugin.version.clone()),
        expected_protocol: Some(plugin.protocol.clone()),
    }
}

/// Starts a pinned plugin that is installed.
pub fn pinned_launch(plugin: &LockedPlugin, root: &str, file: &str, installed: bool) -> (r: Result<
    PluginLaunch,
    CliError,
>)
    ensures
        match r {
            Ok(launch) => installed && launches(
                launch,
                plugin@.id,
                plugin_registry::installed_path(root@, plugin@, file@),
                plugin@.version,
                plugin@.protocol,
            ),
            Err(e) => !installed && e@ == CliErrorV::Plugin(
                "plugin `"@ + plugin@.id
                    + "` is pinned but not installed; run `lightrail plugin sync`"@,
            ),
        },
{
    if !installed {
        return Err(
            CliError::Plugin(
                text::cat3(
                    "plugin `",
                    plugin.id.as_str(),
                    "` is pinned but not installed; run `lightrail plugin sync`",
                ),
            ),
        );
    }
    Ok(launch_from_lock(plugin, root, file))
}

// ---------------------------------------------------------------------------
// Where bundled programs are
// ---------------------------------------------------------------------------

/// A place where a program may be.
#[derive(Clone, Debug)]
pub struct Candidate {
    /// The place.
    pub path: String,
    /// The file that stands there, links followed.
    pub resolved: Option<String>,
}

impl Candidate {
    /// The program that may be trusted: both paths are absolute.
    pub open spec fn trusted(self) -> Option<Seq<char>> {
        match self.resolved {
            Some(resolved) => if path::is_absolute(self.path@) && path::is_absolute(resolved@) {
                Some(resolved@)
            } else {
                None
            },
            None => None,
        }
    }
}

/// The program at a place, if it may be trusted.
pub fn trusted_existing_executable(candidate: &Candidate) -> (r: Option<String>)
    ensures
        text::option_of(r) == candidate.trusted(),
{
    match &candidate.resolved {
        Some(resolved) => if path::absolute(candidate.path.as_str()) && path::absolute(
            resolved.as_str(),
        ) {
            Some(resolved.as_str().to_owned())
        } else {
            None
        },
        None => None,
    }
}

/// The place beside the running program.
pub fn sibling_path(current_executable: &str, name: &str) -> (r: Option<String>)
    ensures
        text::option_of(r) == match workspace::parent(current_executable@) {
            Some(directory) => Some(path::joined_path(directory, name@)),
            None => None,
        },
{
    match workspace::parent_of(current_executable) {
        Some(directory) => Some(path::join(directory.as_str(), name)),
        None => None,
    }
}

/// The paths of places, quoted.
pub open spec fn quoted_places(a: Option<Candidate>, b: Option<Candidate>) -> Seq<char> {
    match (a, b) {
        (Some(a), Some(b)) => "`"@ + a.path@ + "`, `"@ + b.path@ + "`"@,
        (Some(a), None) => "`"@ + a.path@ + "`"@,
        (None, Some(b)) => "`"@ + b.path@ + "`"@,
        (None, None) => "no trusted candidate paths were available"@,
    }
}

/// The program that may be trusted at an optional place.
pub open spec fn trusted_at(candidate: Option<Candidate>) -> Option<Seq<char>> {
    match candidate {
        Some(candidate) => candidate.trusted(),
        None => None,
    }
}

/// Finds a bundled program: beside the running one, or else in the workspace.
pub fn find_bundled_executable_from(
    executable_name: &str,
    sibling: &Option<Candidate>,
    workspace_candidate: &Option<Candidate>,
) -> (r: Result<String, CliError>)
    ensures
        match (trusted_at(*sibling), trusted_at(*workspace_candidate), r) {
            (Some(program), _, Ok(found)) => found@ == program,
            (None, Some(program), Ok(found)) => found@ == program,
            (None, None, Err(e)) => e@ == CliErrorV::Plugin(
                "bundled executable `"@ + executable_name@
                    + "` was not found in a trusted location; checked "@ + quoted_places(
                    *sibling,
                    *workspace_candidate,
                )
                    + ". Reinstall Lightrail with its bundled plugins beside the CLI executable, or run `cargo build --workspace` in a source checkout"@,
            ),
            _ => false,
        },
{
    if let Some(candidate) = sibling {
        if let Some(found) = trusted_existing_executable(candidate) {
            return Ok(found);
        }
    }
    if let Some(candidate) = workspace_candidate {
        if let Some(found) = trusted_existing_executable(candidate) {
            return Ok(found);
        }
    }
    let checked = match (sibling, workspace_candidate) {
        (Some(a), Some(b)) => text::cat5("`", a.path.as_str(), "`, `", b.path.as_str(), "`"),
        (Some(a), None) => text::cat3("`", a.path.as_str(), "`"),
        (None, Some(b)) => text::cat3("`", b.path.as_str(), "`"),
        (None, None) => "no trusted candidate paths were available".to_owned(),
    };
    Err(
        CliError::Plugin(
            text::cat5(
                "bundled executable `",
                executable_name,
                "` was not found in a trusted location; checked ",
                checked.as_str(),
                ". Reinstall Lightrail with its bundled plugins beside the CLI executable, or run `cargo build --workspace` in a source checkout",
            ),
        ),
    )
}

// ---------------------------------------------------------------------------
// The environment of a plugin
// ---------------------------------------------------------------------------

/// Whether a variable of this process goes to a plugin.
pub open spec fn forwards(id: Seq<char>, name: Seq<char>) -> bool {
    name == "PATH"@ || name == "HOME"@ || name == "USER"@ || name == "TMPDIR"@ || name
        == "DOCKER_HOST"@ || name == "DOCKER_CONTEXT"@ || (name == "SSH_AUTH_SOCK"@ && (id
        == SSH_PLUGIN_ID@ || id == HETZNER_PLUGIN_ID@))
}

/// The variable of a plugin's environment that names the protocol.
pub const PROTOCOL_VARIABLE: &'static str = "LIGHTRAIL_PLUGIN_PROTOCOL";

/// A variable in the environment of a plugin.
pub open spec fn plugin_variable(id: Seq<char>, process: StringMap<String>, name: Seq<char>) -> Option<
    Seq<char>,
> {
    if name == PROTOCOL_VARIABLE@ {
        Some(PROTOCOL_VERSION_STRING@)
    } else if forwards(id, name) {
        text::option_of(process.at(name))
    } else {
        None
    }
}

/// A variable among some names of a process.
pub open spec fn variable_among(names: Seq<&'static str>, process: StringMap<String>, name: Seq<char>) -> Option<
    Seq<char>,
> {
    if exists|k: int| 0 <= k < names.len() && (#[trigger] names[k])@ == name {
        text::option_of(process.at(name))
    } else {
        None
    }
}

/// The variables of this process with given names, and no others.
pub fn copy_environment(process: &StringMap<String>, names: &Vec<&'static str>) -> (r: StringMap<String>)
    ensures
        r.wf(),
        forall|name: Seq<char>| #[trigger]
            text::option_of(r.at(name)) == variable_among(names@, *process, name),
{
    let mut out: StringMap<String> = StringMap::new();
    let mut i: usize = 0;
    while i < names.len()
        invariant
            i <= names@.len(),
            out.wf(),
            forall|name: Seq<char>| #[trigger]
                text::option_of(out.at(name)) == variable_among(
                    names@.take(i as int),
                    *process,
                    name,
                ),
        decreases names.len() - i,
    {
        let ghost before = out;
        let ghost earlier = names@.take(i as int);
        let ghost later = names@.take(i + 1);
        let ghost added = names@[i as int]@;
        if let Some(value) = process.get(names[i]) {
            out.insert(names[i].to_owned(), value.clone());
        }
        assert forall|name: Seq<char>| #[trigger]
            text::option_of(out.at(name)) == variable_among(later, *process, name) by {
            assert(text::option_of(before.at(name)) == variable_among(earlier, *process, name));
            assert(later[i as int]@ == added);
            if name != added {
                assert forall|k: int| 0 <= k < later.len() && (#[trigger] later[k])@ == name implies
                    earlier[k]@ == name by {}
                assert forall|k: int| 0 <= k < earlier.len() && (#[trigger] earlier[k])@ == name implies
                    later[k]@ == name by {}
            }
        }
        i += 1;
    }
    assert(names@.take(names@.len() as int) =~= names@);
    out
}

/// The environment of a plugin: what it needs of this process, and the protocol.
pub fn sanitized_environment(plugin_id: &str, process: &StringMap<String>) -> (r: StringMap<String>)
    ensures
        r.wf(),
        forall|name: Seq<char>| #[trigger]
            text::option_of(r.at(name)) == plugin_variable(plugin_id@, *process, name),
{
    let mut names: Vec<&'static str> = Vec::new();
    names.push("PATH");
    names.push("HOME");
    names.push("USER");
    names.push("TMPDIR");
    names.push("DOCKER_HOST");
    names.push("DOCKER_CONTEXT");
    if text::same(plugin_id, SSH_PLUGIN_ID) || text::same(plugin_id, HETZNER_PLUGIN_ID) {
        names.push("SSH_AUTH_SOCK");
    }
    let mut out = copy_environment(process, &names);
    let ghost copied = out;
    out.insert(PROTOCOL_VARIABLE.to_owned(), PROTOCOL_VERSION_STRING.to_owned());
    assert forall|name: Seq<char>| #[trigger]
        text::option_of(out.at(name)) == plugin_variable(plugin_id@, *process, name) by {
        assert(text::option_of(copied.at(name)) == variable_among(names@, *process, name));
        assert(names@[0]@ == "PATH"@ && names@[1]@ == "HOME"@ && names@[2]@ == "USER"@ && names@[3]@
            == "TMPDIR"@ && names@[4]@ == "DOCKER_HOST"@ && names@[5]@ == "DOCKER_CONTEXT"@);
        if names@.len() == 7 {
            assert(names@[6]@ == "SSH_AUTH_SOCK"@);
        }
    }
    out
}

/// The environment of a plugin that is looked at before it is pinned.
pub fn probe_environment(process: &StringMap<String>) -> (r: StringMap<String>)
    ensures
        r.wf(),
        forall|name: Seq<char>| #[trigger]
            text::option_of(r.at(name)) == if name == "PATH"@ || name == "HOME"@ || name == "TMPDIR"@ {
                text::option_of(process.at(name))
            } else {
                None
            },
{
    let mut names: Vec<&'static str> = Vec::new();
    names.push("PATH");
    names.push("HOME");
    names.push("TMPDIR");
    let out = copy_environment(process, &names);
    assert forall|name: Seq<char>| #[trigger]
        text::option_of(out.at(name)) == if name == "PATH"@ || name == "HOME"@ || name == "TMPDIR"@ {
            text::option_of(process.at(name))
        } else {
            None
        } by {
        assert(text::option_of(out.at(name)) == variable_among(names@, *process, name));
        assert(names@[0]@ == "PATH"@ && names@[1]@ == "HOME"@ && names@[2]@ == "TMPDIR"@);
    }
    out
}

/// A plugin sees no variable of this process beyond a few that are named, whatever the
/// process holds; secrets are never among them.
pub proof fn environment_holds_no_secrets(id: Seq<char>, process: StringMap<String>, name: Seq<char>)
    requires
        text::has_prefix(name, "LIGHTRAIL_SECRET_"@),
    ensures
        plugin_variable(id, process, name) is None,
{
    reveal_strlit("LIGHTRAIL_SECRET_");
    reveal_strlit("LIGHTRAIL_PLUGIN_PROTOCOL");
    reveal_strlit("PATH");
    reveal_strlit("HOME");
    reveal_strlit("USER");
    reveal_strlit("TMPDIR");
    reveal_strlit("DOCKER_HOST");
    reveal_strlit("DOCKER_CONTEXT");
    reveal_strlit("SSH_AUTH_SOCK");
    let secret = "LIGHTRAIL_SECRET_"@;
    assert(name.subrange(0, 17)[10] == secret[10]);
    assert(name[10] == 'S');
    assert(name.subrange(0, 17)[0] == secret[0]);
    assert(PROTOCOL_VARIABLE@[10] == 'P');
}

// ---------------------------------------------------------------------------
// What a plugin declares
// ---------------------------------------------------------------------------

/// A problem unless an expectation is absent or met.
pub open spec fn unless_expected(
    expected: Option<String>,
    actual: Seq<char>,
    head: Seq<char>,
    middle: Seq<char>,
) -> Option<CliErrorV> {
    match expected {
        Some(expected) => if actual == expected@ {
            None
        } else {
            Some(CliErrorV::Plugin(head + expected@ + middle + actual + "`"@))
        },
        None => None,
    }
}

/// The problem of what a started plugin declares.
pub open spec fn manifest_problem(launch: PluginLaunch, manifest: PluginManifest) -> Option<CliErrorV> {
    first(
        if manifest.id@ == launch.id@ {
            None
        } else {
            Some(
                CliErrorV::Plugin(
                    "plugin identity mismatch: requested `"@ + launch.id@ + "`, executable declared `"@
                        + manifest.id@ + "`"@,
                ),
            )
        },
        first(
            unless_expected(
                launch.expected_version,
                manifest.version@,
                "plugin `"@ + launch.id@ + "` version mismatch: expected `"@,
                "`, got `"@,
            ),
            unless_expected(
                launch.expected_protocol,
                version::version_text(manifest.protocol.version),
                "plugin `"@ + launch.id@ + "` protocol mismatch: lock pins `"@,
                "`, executable declared `"@,
            ),
        ),
    )
}

/// Rejects a plugin that declares another identity, version or protocol.
pub fn accept_manifest(launch: &PluginLaunch, manifest: &PluginManifest) -> (r: Result<(), CliError>)
    ensures
        settles(r, manifest_problem(*launch, *manifest)),
{
    if !text::same(manifest.id.as_str(), launch.id.as_str()) {
        return Err(
            CliError::Plugin(
                text::cat5(
                    "plugin identity mismatch: requested `",
                    launch.id.as_str(),
                    "`, executable declared `",
                    manifest.id.as_str(),
                    "`",
                ),
            ),
        );
    }
    if let Some(expected) = &launch.expected_version {
        if !text::same(manifest.version.as_str(), expected.as_str()) {
            let head = text::cat3(
                "plugin `",
                launch.id.as_str(),
                "` version mismatch: expected `",
            );
            return Err(
                CliError::Plugin(
                    text::cat5(
                        head.as_str(),
                        expected.as_str(),
                        "`, got `",
                        manifest.version.as_str(),
                        "`",
                    ),
                ),
            );
        }
    }
    if let Some(expected) = &launch.expected_protocol {
        let actual = manifest.protocol.version.to_text();
        if !text::same(actual.as_str(), expected.as_str()) {
            let head = text::cat3(
                "plugin `",
                launch.id.as_str(),
                "` protocol mismatch: lock pins `",
            );
            return Err(
                CliError::Plugin(
                    text::cat5(
                        head.as_str(),
                        expected.as_str(),
                        "`, executable declared `",
                        actual.as_str(),
                        "`",
                    ),
                ),
            );
        }
    }
    Ok(())
}

/// The problem of a plugin that lacks a capability.
pub open spec fn capability_problem(manifest: PluginManifest, capability: Capability) -> Option<CliErrorV> {
    if protocol::offers_capability(manifest.capabilities@, capability) {
        None
    } else {
        Some(
            CliErrorV::Plugin(
                "plugin `"@ + manifest.id@ + "` does not provide capability `"@ + capability.text()
                    + "`"@,
            ),
        )
    }
}

/// Rejects a plugin that lacks a capability.
pub fn require_capability(manifest: &PluginManifest, capability: &Capability) -> (r: Result<(), CliError>)
    ensures
        settles(r, capability_problem(*manifest, *capability)),
{
    if protocol::has_capability(&manifest.capabilities, capability) {
        return Ok(());
    }
    Err(
        CliError::Plugin(
            text::cat5(
                "plugin `",
                manifest.id.as_str(),
                "` does not provide capability `",
                capability.as_str(),
                "`",
            ),
        ),
    )
}

/// What is reported of a plugin that could not be started.
pub fn start_failed(id: &str, detail: &str) -> (r: CliError)
    ensures
        r@ == CliErrorV::Plugin("start plugin `"@ + id@ + "`: "@ + detail@),
{
    CliError::Plugin(text::cat4("start plugin `", id, "`: ", detail))
}

/// What is reported of a plugin that did not open its session.
pub fn initialize_failed(id: &str, detail: &str) -> (r: CliError)
    ensures
        r@ == CliErrorV::Plugin("initialize plugin `"@ + id@ + "`: "@ + detail@),
{
    CliError::Plugin(text::cat4("initialize plugin `", id, "`: ", detail))
}

/// A bundled plugin is started by the executable of its own name, and nothing else is bundled.
pub proof fn bundled_plugins_start_their_own_program(id: Seq<char>)
    ensures
        bundled_program("dev.lightrail.compose"@) == Some("lightrail-plugin-compose"@),
        bundled_program("dev.lightrail.ssh"@) == Some("lightrail-plugin-ssh"@),
        bundled_program("dev.lightrail.hetzner"@) == Some("lightrail-plugin-hetzner"@),
        bundled_program("dev.lightrail.kubernetes"@) == Some("lightrail-plugin-kubernetes"@),
        bundled_program("dev.lightrail.fly"@) == Some("lightrail-plugin-fly"@),
        bundled_program(id) is Some ==> id == "dev.lightrail.compose"@ || id == "dev.lightrail.ssh"@ || id
            == "dev.lightrail.hetzner"@ || id == "dev.lightrail.kubernetes"@ || id == "dev.lightrail.fly"@,
{
    reveal_strlit("dev.lightrail.compose");
    reveal_strlit("dev.lightrail.ssh");
    reveal_strlit("dev.lightrail.hetzner");
    reveal_strlit("dev.lightrail.kubernetes");
    reveal_strlit("dev.lightrail.fly");
    assert("dev.lightrail.compose"@.len() == 21);
    assert("dev.lightrail.ssh"@.len() == 17);
    assert("dev.lightrail.hetzner"@.len() == 21);
    assert("dev.lightrail.kubernetes"@.len() == 24);
    assert("dev.lightrail.fly"@.len() == 17);
    assert("dev.lightrail.compose"@[14] != "dev.lightrail.hetzner"@[14]);
    assert("dev.lightrail.ssh"@[14] != "dev.lightrail.fly"@[14]);
}

/// What a plugin needs of the environment reaches it, the agent's socket only where it connects by
/// SSH, and nothing else does.
pub proof fn plugins_get_what_they_need(id: Seq<char>, process: StringMap<String>, name: Seq<char>)
    ensures
        name == "PATH"@ || name == "HOME"@ || name == "USER"@ || name == "TMPDIR"@ || name == "DOCKER_HOST"@ || name
            == "DOCKER_CONTEXT"@ ==> forwards(id, name),
        forwards(id, "SSH_AUTH_SOCK"@) <==> id == "dev.lightrail.ssh"@ || id == "dev.lightrail.hetzner"@,
        forwards(id, name) && name != PROTOCOL_VARIABLE@ ==> plugin_variable(id, process, name)
            == match process.at(name) {
            Some(v) => Some(v@),
            None => None,
        },
        plugin_variable(id, process, PROTOCOL_VARIABLE@) == Some(PROTOCOL_VERSION_STRING@),
        !forwards(id, name) && name != PROTOCOL_VARIABLE@ ==> plugin_variable(id, process, name) is None,
{
    reveal_strlit("SSH_AUTH_SOCK");
    reveal_strlit("PATH");
    reveal_strlit("HOME");
    reveal_strlit("USER");
    reveal_strlit("TMPDIR");
    reveal_strlit("DOCKER_HOST");
    reveal_strlit("DOCKER_CONTEXT");
    assert("SSH_AUTH_SOCK"@.len() == 13 && "PATH"@.len() == 4 && "HOME"@.len() == 4 && "USER"@.len() == 4
        && "TMPDIR"@.len() == 6 && "DOCKER_HOST"@.len() == 11 && "DOCKER_CONTEXT"@.len() == 14);
}

/// A started plugin is used exactly where it declares the identifier that was asked for, and the
/// version and the protocol that are expected of it.
pub proof fn plugins_are_what_they_are_expected_to_be(launch: PluginLaunch, manifest: PluginManifest)
    ensures
        manifest_problem(launch, manifest) is None <==> {
            &&& manifest.id@ == launch.id@
            &&& launch.expected_version matches Some(expected) ==> manifest.version@ == expected@
            &&& launch.expected_protocol matches Some(expected) ==> version::version_text(
                manifest.protocol.version,
            ) == expected@
        },
{
}

/// A plugin fills a capability exactly where its manifest declares it.
pub proof fn plugins_fill_what_they_declare(manifest: PluginManifest, capability: Capability)
    ensures
        capability_problem(manifest, capability) is None <==> exists|i: int|
            0 <= i < manifest.capabilities@.len() && protocol::same_capability(
                #[trigger] manifest.capabilities@[i],
                capability,
            ),
{
}

/// An executable is trusted only where it exists and its own path and the path that it resolves
/// to are both absolute.
pub proof fn trusted_executables_have_absolute_paths(candidate: Candidate)
    ensures
        candidate.trusted() matches Some(found) ==> path::is_absolute(candidate.path@) && path::is_absolute(found)
            && (candidate.resolved matches Some(resolved) && resolved@ == found),
        candidate.resolved is None ==> candidate.trusted() is None,
{
}

/// A plugin is started as it is known: under its name, from its program, without arguments, and
/// with its version and its protocol expected of it.
pub proof fn launches_expect_what_is_known(
    launch: PluginLaunch,
    id: Seq<char>,
    program: Seq<char>,
    plugin_version: Seq<char>,
    protocol: Seq<char>,
)
    requires
        launches(launch, id, program, plugin_version, protocol),
    ensures
        launch.id@ == id,
        launch.program@ == program,
        launch.arguments@.len() == 0,
        launch.expected_version matches Some(expected) && expected@ == plugin_version,
        launch.expected_protocol matches Some(expected) && expected@ == protocol,
{
}

} // verus!
