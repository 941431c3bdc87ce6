//! The plugins of an operation: which are started, what they must offer, and the secrets
//! that were looked up once.

use vstd::prelude::*;

use crate::collections::{self, StringMap, StringSet};
use crate::config::Capability;
use crate::error::{settles, CliError, CliErrorV};
use crate::plugin_host;
use crate::prepared;
use crate::project::LoadedProject;
use crate::protocol::{PluginManifest, SecretValue};
use crate::provider::first;
use crate::text;

verus! {

/// Whether a plugin fills one of some capabilities.
pub open spec fn fills(project: LoadedProject, capabilities: Seq<Capability>, id: Seq<char>) -> bool {
    exists|i: int|
        0 <= i < capabilities.len() && project.selected().pipeline.assigned(
            #[trigger] capabilities[i],
        ) == id
}

/// The plugins that fill capabilities, each once, in order.
pub fn plugin_identifiers(project: &LoadedProject, capabilities: &[Capability]) -> (r: StringSet)
    requires
        project.wf(),
    ensures
        r.wf(),
        forall|id: Seq<char>| #[trigger] r@.contains(id) == fills(*project, capabilities@, id),
{
    let mut out = StringSet::new();
    let mut i: usize = 0;
    while i < capabilities.len()
        invariant
            project.wf(),
            i <= capabilities@.len(),
            out.wf(),
            forall|id: Seq<char>| #[trigger]
                out@.contains(id) == fills(*project, capabilities@.take(i as int), id),
        decreases capabilities.len() - i,
    {
        let ghost before = out@;
        let ghost added = project.selected().pipeline.assigned(capabilities@[i as int]);
        let ghost earlier = capabilities@.take(i as int);
        let ghost later = capabilities@.take(i + 1);
        proof {
            collections::lemma_with_text(before, added);
        }
        out.insert(project.plugin_id(capabilities[i]).to_owned());
        assert forall|id: Seq<char>| #[trigger]
            out@.contains(id) == fills(*project, later, id) by {
            assert(before.contains(id) == fills(*project, earlier, id));
            assert(later[i as int] == capabilities@[i as int]);
            if fills(*project, earlier, id) {
                let k = choose|k: int|
                    0 <= k < earlier.len() && project.selected().pipeline.assigned(
                        #[trigger] earlier[k],
                    ) == id;
                assert(later[k] == earlier[k]);
            }
            if fills(*project, later, id) && id != added {
                let k = choose|k: int|
                    0 <= k < later.len() && project.selected().pipeline.assigned(
                        #[trigger] later[k],
                    ) == id;
                assert(earlier[k] == later[k]);
            }
        }
        i += 1;
    }
    assert(capabilities@.take(capabilities@.len() as int) =~= capabilities@);
    out
}

/// The first capability that the plugin which fills it lacks.
pub open spec fn fleet_problem(
    project: LoadedProject,
    capabilities: Seq<Capability>,
    manifests: StringMap<PluginManifest>,
) -> Option<CliErrorV>
    decreases capabilities.len(),
{
    if capabilities.len() == 0 {
        None
    } else {
        first(
            plugin_host::capability_problem(
                manifests.at(project.selected().pipeline.assigned(capabilities[0]))->0,
                prepared::wire_capability(capabilities[0]),
            ),
            fleet_problem(
                project,
                capabilities.subrange(1, capabilities.len() as int),
                manifests,
            ),
        )
    }
}

/// Rejects plugins that lack a capability which they are to fill.
pub fn require_capabilities(
    project: &LoadedProject,
    capabilities: &[Capability],
    manifests: &StringMap<PluginManifest>,
) -> (r: Result<(), CliError>)
    requires
        project.wf(),
        forall|i: int|
            0 <= i < capabilities@.len() ==> manifests.at(
                project.selected().pipeline.assigned(#[trigger] capabilities@[i]),
            ) is Some,
    ensures
        settles(r, fleet_problem(*project, capabilities@, *manifests)),
{
    let ghost all = capabilities@;
    let mut i: usize = 0;
    assert(all.subrange(0, all.len() as int) =~= all);
    while i < capabilities.len()
        invariant
            project.wf(),
            all == capabilities@,
            i <= all.len(),
            forall|k: int|
                0 <= k < capabilities@.len() ==> manifests.at(
                    project.selected().pipeline.assigned(#[trigger] capabilities@[k]),
                ) is Some,
            fleet_problem(*project, all, *manifests) == fleet_problem(
                *project,
                all.subrange(i as int, all.len() as int),
                *manifests,
            ),
        decreases capabilities.len() - i,
    {
        let ghost rest = all.subrange(i as int, all.len() as int);
        assert(rest[0] == capabilities@[i as int]);
        assert(rest.subrange(1, rest.len() as int) =~= all.subrange(i + 1, all.len() as int));
        let identifier = project.plugin_id(capabilities[i]);
        if let Some(manifest) = manifests.get(identifier) {
            plugin_host::require_capability(
                manifest,
                &prepared::protocol_capability(capabilities[i]),
            )?;
        }
        i += 1;
    }
    Ok(())
}

/// What is reported where a plugin has no session.
pub fn session_unavailable(identifier: &str) -> (r: CliError)
    ensures
        r@ == CliErrorV::Plugin("plugin session `"@ + identifier@ + "` is unavailable"@),
{
    CliError::Plugin(text::cat3("plugin session `", identifier, "` is unavailable"))
}

/// The first error of sessions that were closed one after the other, whatever came of each.
pub fn first_error(outcomes: Vec<Result<(), CliError>>) -> (r: Result<(), CliError>)
    ensures
        match r {
            Ok(()) => forall|i: int| 0 <= i < outcomes@.len() ==> (#[trigger] outcomes@[i]) is Ok,
            Err(e) => exists|i: int|
                0 <= i < outcomes@.len() && (#[trigger] outcomes@[i]) == Err::<(), CliError>(e)
                    && forall|k: int| 0 <= k < i ==> (#[trigger] outcomes@[k]) is Ok,
        },
{
    let ghost all = outcomes@;
    let mut rest = outcomes;
    let ghost mut done: int = 0;
    while rest.len() > 0
        invariant
            all == outcomes@,
            0 <= done <= all.len(),
            rest@ == all.subrange(done, all.len() as int),
            forall|k: int| 0 <= k < done ==> (#[trigger] all[k]) is Ok,
        decreases rest.len(),
    {
        assert(rest@[0] == all[done]);
        match rest.remove(0) {
            Err(e) => {
                assert(all[done] == Err::<(), CliError>(e));
                return Err(e);
            },
            Ok(()) => {},
        }
        proof {
            done = done + 1;
            assert(rest@ =~= all.subrange(done, all.len() as int));
        }
    }
    Ok(())
}

/// The secrets that an operation looked up: each is looked up, and perhaps asked for, once.
pub struct OperationSecretCache {
    pub values: StringMap<SecretValue>,
}

impl OperationSecretCache {
    /// The value of a secret that was looked up.
    pub open spec fn known(self, name: Seq<char>) -> Option<Seq<char>> {
        match self.values.at(name) {
            Some(value) => Some(value@),
            None => None,
        }
    }

    /// No secret has been looked up.
    pub fn new() -> (r: OperationSecretCache)
        ensures
            r.values.wf(),
            forall|name: Seq<char>| #[trigger] r.known(name) is None,
    {
        OperationSecretCache { values: StringMap::new() }
    }

    /// The value of a secret that was looked up.
    pub fn get(&self, name: &str) -> (r: Option<SecretValue>)
        ensures
            match r {
                Some(value) => self.known(name@) == Some(value@),
                None => self.known(name@) is None,
            },
    {
        match self.values.get(name) {
            Some(value) => Some(value.clone()),
            None => None,
        }
    }

    /// Keeps what was looked up.
    pub fn remember(&mut self, name: &str, value: &SecretValue)
        requires
            old(self).values.wf(),
        ensures
            final(self).values.wf(),
            forall|other: Seq<char>| #[trigger]
                final(self).known(other) == if other == name@ {
                    Some(value@)
                } else {
                    old(self).known(other)
                },
    {
        self.values.insert(name.to_owned(), value.clone());
    }
}

/// What follows from looking a secret up outside the cache.
pub enum SecretLookup {
    /// It is there.
    Found(SecretValue),
    /// A person is asked for it.
    Ask(String),
    /// The operation fails.
    Fail(CliError),
}

/// Decides on a secret that was looked up: a person at a terminal is asked for one that is
/// not there.
pub fn resolve_uncached_secret(name: &str, outcome: Result<SecretValue, CliError>, terminal: bool) -> (r:
    SecretLookup)
    ensures
        match (outcome, r) {
            (Ok(a), SecretLookup::Found(b)) => a == b,
            (Err(e), SecretLookup::Ask(prompt)) => e is SecretUnavailable && terminal && prompt@
                == "Secret "@ + name@ + " (used for this command only)"@,
            (Err(e), SecretLookup::Fail(f)) => e == f && (!(e is SecretUnavailable) || !terminal),
            _ => false,
        },
{
    match outcome {
        Ok(value) => SecretLookup::Found(value),
        Err(e) => match e {
            CliError::SecretUnavailable { name: missing, env } => if terminal {
                SecretLookup::Ask(text::cat3("Secret ", name, " (used for this command only)"))
            } else {
                SecretLookup::Fail(CliError::SecretUnavailable { name: missing, env })
            },
            other => SecretLookup::Fail(other),
        },
    }
}

/// A fleet is complete exactly where each capability is declared by the plugin that is assigned to
/// it.
pub proof fn every_capability_is_filled(
    project: LoadedProject,
    capabilities: Seq<Capability>,
    manifests: StringMap<PluginManifest>,
    i: int,
)
    requires
        fleet_problem(project, capabilities, manifests) is None,
        0 <= i < capabilities.len(),
    ensures
        plugin_host::capability_problem(
            manifests.at(project.selected().pipeline.assigned(capabilities[i]))->0,
            prepared::wire_capability(capabilities[i]),
        ) is None,
    decreases capabilities.len(),
{
    if i > 0 {
        let rest = capabilities.subrange(1, capabilities.len() as int);
        assert(rest[i - 1] == capabilities[i]);
        every_capability_is_filled(project, rest, manifests, i - 1);
    }
}

} // verus!
