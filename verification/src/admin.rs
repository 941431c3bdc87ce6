//! The command that manages pinned plugins: what is said of them.

use vstd::prelude::*;

use crate::error::{CliError, CliErrorV};
use crate::output::OutputFormat;
use crate::plugin_registry::{LockedPlugin, LockedV};
use crate::protocol::{Capability, PluginManifest};
use crate::text;
use crate::view;

verus! {

/// A pinned plugin, and whether it is installed.
#[derive(Clone, Debug)]
pub struct PluginStatus {
    pub locked: LockedPlugin,
    pub installed: bool,
}

/// A pinned plugin, and what it declares where it is installed.
#[derive(Clone, Debug)]
pub struct PluginInspection {
    pub status: PluginStatus,
    pub manifest: Option<PluginManifest>,
}

/// The line of a pinned plugin.
pub open spec fn status_line(locked: LockedV, installed: bool, human: bool) -> Seq<char> {
    if human {
        view::padded(locked.id, 32) + " "@ + view::padded(locked.version, 12) + " "@ + if installed {
            "installed"@
        } else {
            "missing"@
        }
    } else {
        locked.id
    }
}

/// The line of a pinned plugin; a document stands for it instead where the format is one.
pub fn plugin_status_line(status: &PluginStatus, format: OutputFormat) -> (r: Option<String>)
    ensures
        text::option_of(r) == if format == OutputFormat::Json {
            None
        } else {
            Some(status_line(status.locked@, status.installed, format == OutputFormat::Human))
        },
{
    match format {
        OutputFormat::Json => None,
        OutputFormat::Plain => Some(status.locked.id.clone()),
        OutputFormat::Human => Some(
            text::cat5(
                view::pad(status.locked.id.as_str(), 32).as_str(),
                " ",
                view::pad(status.locked.version.as_str(), 12).as_str(),
                " ",
                if status.installed {
                    "installed"
                } else {
                    "missing"
                },
            ),
        ),
    }
}

/// The lines of pinned plugins.
pub open spec fn status_lines(statuses: Seq<PluginStatus>, human: bool) -> Seq<Seq<char>> {
    if human && statuses.len() == 0 {
        seq!["No third-party plugins are pinned."@]
    } else {
        Seq::new(
            statuses.len(),
            |i: int| status_line(statuses[i].locked@, statuses[i].installed, human),
        )
    }
}

/// The lines of pinned plugins; a document stands for them instead where the format is one.
pub fn plugin_status_lines(statuses: &Vec<PluginStatus>, format: OutputFormat) -> (r: Option<Vec<String>>)
    ensures
        match r {
            None => format == OutputFormat::Json,
            Some(lines) => format != OutputFormat::Json && text::texts(lines@) == status_lines(
                statuses@,
                format == OutputFormat::Human,
            ),
        },
{
    if format == OutputFormat::Json {
        return None;
    }
    let ghost human = format == OutputFormat::Human;
    let mut lines: Vec<String> = Vec::new();
    if format == OutputFormat::Human && statuses.len() == 0 {
        lines.push("No third-party plugins are pinned.".to_owned());
        assert(text::texts(lines@) =~= status_lines(statuses@, true));
        return Some(lines);
    }
    let mut i: usize = 0;
    while i < statuses.len()
        invariant
            i <= statuses@.len(),
            lines@.len() == i,
            format != OutputFormat::Json,
            human == (format == OutputFormat::Human),
            forall|k: int|
                0 <= k < i ==> (#[trigger] lines@[k])@ == status_line(
                    statuses@[k].locked@,
                    statuses@[k].installed,
                    human,
                ),
        decreases statuses.len() - i,
    {
        if let Some(line) = plugin_status_line(&statuses[i], format) {
            lines.push(line);
        }
        i += 1;
    }
    assert(text::texts(lines@) =~= status_lines(statuses@, human));
    Some(lines)
}

/// The names of capabilities.
pub open spec fn capability_names(capabilities: Seq<Capability>) -> Seq<Seq<char>> {
    Seq::new(capabilities.len(), |i: int| capabilities[i].text())
}

/// The lines on one pinned plugin.
pub open spec fn inspection_text(inspection: PluginInspection, human: bool) -> Seq<Seq<char>> {
    let line = status_line(inspection.status.locked@, inspection.status.installed, human);
    match inspection.manifest {
        Some(manifest) => seq![
            line,
            "  capabilities: "@ + text::joined(capability_names(manifest.capabilities@), ", "@),
        ],
        None => seq![line],
    }
}

/// The lines on one pinned plugin; a document stands for them instead where the format is
/// one.
pub fn inspection_lines(inspection: &PluginInspection, format: OutputFormat) -> (r: Option<Vec<String>>)
    ensures
        match r {
            None => format == OutputFormat::Json,
            Some(lines) => format != OutputFormat::Json && text::texts(lines@) == inspection_text(
                *inspection,
                format == OutputFormat::Human,
            ),
        },
{
    match plugin_status_line(&inspection.status, format) {
        None => None,
        Some(line) => {
            let mut lines: Vec<String> = Vec::new();
            lines.push(line);
            if let Some(manifest) = &inspection.manifest {
                let mut names: Vec<String> = Vec::new();
                let mut i: usize = 0;
                while i < manifest.capabilities.len()
                    invariant
                        i <= manifest.capabilities@.len(),
                        names@.len() == i,
                        forall|k: int|
                            0 <= k < i ==> (#[trigger] names@[k])@ == manifest.capabilities@[k].text(),
                    decreases manifest.capabilities.len() - i,
                {
                    names.push(manifest.capabilities[i].as_str().to_owned());
                    i += 1;
                }
                assert(text::texts(names@) =~= capability_names(manifest.capabilities@));
                lines.push(text::cat2("  capabilities: ", text::join(&names, ", ").as_str()));
            }
            assert(text::texts(lines@) =~= inspection_text(*inspection, format == OutputFormat::Human));
            Some(lines)
        },
    }
}

/// What is said of a plugin that is no longer pinned; a document says it instead where the
/// format is one.
pub fn removed_plugin_line(id: &str, format: OutputFormat) -> (r: Option<String>)
    ensures
        text::option_of(r) == if format == OutputFormat::Json {
            None
        } else {
            Some("removed plugin `"@ + id@ + "`"@)
        },
{
    if format == OutputFormat::Json {
        None
    } else {
        Some(text::cat3("removed plugin `", id, "`"))
    }
}

/// What a candidate declares, where it opened its session and closed it again.
pub fn accept_probe(initialized: Result<PluginManifest, String>, closed: Result<(), String>) -> (r: Result<
    PluginManifest,
    CliError,
>)
    ensures
        match (initialized, closed, r) {
            (Ok(a), Ok(()), Ok(b)) => a == b,
            (Ok(_), Err(detail), Err(e)) => e@ == CliErrorV::Plugin(detail@),
            (Err(detail), _, Err(e)) => e@ == CliErrorV::Plugin(
                "inspect candidate plugin: "@ + detail@,
            ),
            _ => false,
        },
{
    match initialized {
        Err(detail) => Err(
            CliError::Plugin(text::cat2("inspect candidate plugin: ", detail.as_str())),
        ),
        Ok(manifest) => match closed {
            Ok(()) => Ok(manifest),
            Err(detail) => Err(CliError::Plugin(detail)),
        },
    }
}

/// Every pinned plugin has its line, in order: for people with its version and whether it is
/// installed, else its bare name.
pub proof fn pinned_plugins_are_listed(statuses: Seq<PluginStatus>, human: bool, i: int)
    requires
        0 <= i < statuses.len(),
    ensures
        status_lines(statuses, human).len() == statuses.len(),
        !human ==> status_lines(statuses, human)[i] == statuses[i].locked@.id,
        human && statuses[i].installed ==> status_lines(statuses, human)[i] == view::padded(
            statuses[i].locked@.id,
            32,
        ) + " "@ + view::padded(statuses[i].locked@.version, 12) + " "@ + "installed"@,
        human && !statuses[i].installed ==> status_lines(statuses, human)[i] == view::padded(
            statuses[i].locked@.id,
            32,
        ) + " "@ + view::padded(statuses[i].locked@.version, 12) + " "@ + "missing"@,
{
}

} // verus!
