//! What a plugin is told: its configuration, its secrets and the operation.

use vstd::prelude::*;

use crate::collections::{StringMap, StringSet};
use crate::config;
use crate::config::Capability;
use crate::error::{CliError, CliErrorV};
use crate::identity;
use crate::outside;
use crate::project;
use crate::project::LoadedProject;
use crate::protocol::{OperationContext, PluginManifest, SecretRequirement, SecretValue};
use crate::text;
use crate::value;
use crate::value::{Data, DataV};

verus! {

// ---------------------------------------------------------------------------
// Configuration
// ---------------------------------------------------------------------------

/// A value laid over another of the same name: tables are merged one level deep, anything
/// else is replaced.
pub open spec fn overlaid(existing: Option<DataV>, v: DataV) -> DataV {
    match (existing, v) {
        (Some(DataV::Object(entries)), DataV::Object(over)) => DataV::Object(project::put_all(entries, over)),
        _ => v,
    }
}

/// Settings with others laid over them.
pub open spec fn merged_object(target: Seq<(Seq<char>, DataV)>, source: Seq<(Seq<char>, DataV)>) -> Seq<
    (Seq<char>, DataV),
>
    decreases source.len(),
{
    if source.len() == 0 {
        target
    } else {
        let before = merged_object(target, source.drop_last());
        let (name, v) = source.last();
        value::put(before, name, overlaid(value::lookup(before, name), v))
    }
}

/// Sets named values.
fn put_entries(entries: &mut Vec<(String, Data)>, over: &Vec<(String, Data)>)
    ensures
        value::entry_views(final(entries)@) == project::put_all(
            value::entry_views(old(entries)@),
            value::entry_views(over@),
        ),
{
    let ghost base = value::entry_views(entries@);
    let ghost all = value::entry_views(over@);
    let mut i: usize = 0;
    assert(all.take(0) =~= Seq::<(Seq<char>, DataV)>::empty());
    while i < over.len()
        invariant
            i <= over@.len(),
            all == value::entry_views(over@),
            value::entry_views(entries@) == project::put_all(base, all.take(i as int)),
        decreases over.len() - i,
    {
        assert(all.take(i + 1).drop_last() =~= all.take(i as int));
        assert(all.take(i + 1).last() == (over@[i as int].0@, over@[i as int].1@));
        value::put_entry(entries, over[i].0.as_str(), over[i].1.duplicate());
        i += 1;
    }
    assert(all.take(all.len() as int) =~= all);
}

/// Lays settings over others.
///
/// # Errors
///
/// Returns an error where the settings are not a table.
pub fn merge_json_object(target: &mut Vec<(String, Data)>, source: &Data) -> (r: Result<(), CliError>)
    ensures
        match (source@, r) {
            (DataV::Object(entries), Ok(())) => value::entry_views(final(target)@) == merged_object(
                value::entry_views(old(target)@),
                entries,
            ),
            (DataV::Object(_), Err(_)) => false,
            (_, Ok(())) => false,
            (_, Err(e)) => *final(target) == *old(target) && e@ == not_an_object(),
        },
{
    broadcast use {value::lemma_object_view, value::lemma_array_view};

    let source = match source.as_object() {
        Some(entries) => entries,
        None => {
            return Err(
                CliError::Config(
                    "plugin capability settings must serialize as an object".to_owned(),
                ),
            );
        },
    };
    let ghost base = value::entry_views(target@);
    let ghost all = value::entry_views(source@);
    let mut i: usize = 0;
    assert(all.take(0) =~= Seq::<(Seq<char>, DataV)>::empty());
    while i < source.len()
        invariant
            i <= source@.len(),
            all == value::entry_views(source@),
            value::entry_views(target@) == merged_object(base, all.take(i as int)),
        decreases source.len() - i,
    {
        let name = source[i].0.as_str();
        let v = &source[i].1;
        proof {
            assert(all.take(i + 1).drop_last() =~= all.take(i as int));
            assert(all.take(i + 1).last() == (name@, v@));
        }
        let out = overlay(value::find_entry(target, name), v);
        value::put_entry(target, name, out);
        i += 1;
    }
    assert(all.take(all.len() as int) =~= all);
    Ok(())
}

/// Lays a value over another of the same name.
fn overlay(existing: Option<&Data>, v: &Data) -> (r: Data)
    ensures
        r@ == overlaid(value::option_view(existing), v@),
{
    broadcast use {value::lemma_object_view, value::lemma_array_view};

    if let (Some(Data::Object(entries)), Data::Object(over)) = (existing, v) {
        let mut out = value::duplicate_entries(entries);
        put_entries(&mut out, over);
        return Data::Object(out);
    }
    v.duplicate()
}

/// The error of settings that are not a table.
pub open spec fn not_an_object() -> CliErrorV {
    CliErrorV::Config("plugin capability settings must serialize as an object"@)
}

/// Whether a capability is another one of the same plugin.
pub open spec fn shares_plugin(
    p: LoadedProject,
    plugin_id: Seq<char>,
    current: Capability,
    capability: Capability,
) -> bool {
    capability != current && p.selected().pipeline.assigned(capability) == plugin_id
}

/// The settings of the first `n` capabilities that share a plugin, each over the last.
pub open spec fn shared_settings(p: LoadedProject, plugin_id: Seq<char>, current: Capability, n: int) -> Seq<
    (Seq<char>, DataV),
>
    decreases n,
{
    if n <= 0 {
        Seq::empty()
    } else {
        let before = shared_settings(p, plugin_id, current, n - 1);
        let capability = Capability::ALL@[n - 1];
        if shares_plugin(p, plugin_id, current, capability) {
            match p.configured(capability) {
                DataV::Object(entries) => merged_object(before, entries),
                _ => before,
            }
        } else {
            before
        }
    }
}

/// Whether the settings of the first `n` capabilities that share a plugin are all tables.
pub open spec fn shared_are_tables(p: LoadedProject, plugin_id: Seq<char>, current: Capability, n: int) -> bool {
    forall|i: int|
        0 <= i < n && shares_plugin(p, plugin_id, current, #[trigger] Capability::ALL@[i]) ==> p.configured(
            Capability::ALL@[i],
        ) is Object
}

/// The configuration of a plugin: the settings of all its capabilities, those of the current
/// one over the others.
///
/// # Errors
///
/// Returns an error where some of them are not a table.
pub fn merged_plugin_config(p: &LoadedProject, plugin_id: &str, current: Capability) -> (r: Result<Data, CliError>)
    requires
        p.wf(),
    ensures
        match r {
            Ok(v) => shared_are_tables(*p, plugin_id@, current, 6) && (p.configured(current) matches DataV::Object(
                own,
            ) && v@ == DataV::Object(
                merged_object(shared_settings(*p, plugin_id@, current, 6), own),
            )),
            Err(e) => e@ == not_an_object() && !(shared_are_tables(*p, plugin_id@, current, 6) && p.configured(
                current,
            ) is Object),
        },
{
    broadcast use value::lemma_object_view;

    let mut merged: Vec<(String, Data)> = Vec::new();
    assert(value::entry_views(merged@) =~= Seq::<(Seq<char>, DataV)>::empty());
    let all = Capability::ALL;
    let mut i: usize = 0;
    while i < 6
        invariant
            i <= 6,
            p.wf(),
            all@ == Capability::ALL@,
            shared_are_tables(*p, plugin_id@, current, i as int),
            value::entry_views(merged@) == shared_settings(*p, plugin_id@, current, i as int),
        decreases 6 - i,
    {
        let capability = all[i];
        assert(capability == Capability::ALL@[i as int]);
        if capability != current && text::same(p.plugin_id(capability), plugin_id) {
            let settings = p.capability_config(capability)?;
            merge_json_object(&mut merged, &settings)?;
        }
        i += 1;
    }
    let settings = p.capability_config(current)?;
    merge_json_object(&mut merged, &settings)?;
    Ok(Data::Object(merged))
}

// ---------------------------------------------------------------------------
// Secrets
// ---------------------------------------------------------------------------

/// Whether what a capability is configured with, or what is desired of a runtime, refers to a
/// secret.
pub open spec fn refers_to(config: DataV, desired: Option<DataV>, name: Seq<char>) -> bool {
    value::mentions(config, name) || (desired matches Some(v) && value::mentions(v, name))
}

/// The secrets that an operation refers to. An aggregate plugin may see the settings of
/// several capabilities, but the secrets of the active one alone.
pub fn secret_references_for_operation(capability_config: &Data, runtime_desired: Option<&Data>) -> (r: StringSet)
    ensures
        r.wf(),
        forall|name: Seq<char>| #[trigger]
            r@.contains(name) <==> refers_to(
                capability_config@,
                value::option_view(runtime_desired),
                name,
            ),
{
    let mut names = StringSet::new();
    value::collect_secret_references(capability_config, &mut names);
    if let Some(desired) = runtime_desired {
        value::collect_secret_references(desired, &mut names);
    }
    names
}

/// What is desired of a runtime while it is created or updated.
pub open spec fn runtime_values(p: LoadedProject, capability: Capability, wanted: bool) -> Option<DataV> {
    if capability == Capability::Runtime && wanted {
        Some(project::desired(p))
    } else {
        None
    }
}

/// The secrets that a capability refers to.
pub fn secrets_for_capability(p: &LoadedProject, capability: Capability, include_runtime_values: bool) -> (r: Result<
    StringSet,
    CliError,
>)
    requires
        p.wf(),
        project::apps_wf(p.config),
    ensures
        r matches Ok(names) && names.wf() && forall|name: Seq<char>| #[trigger]
            names@.contains(name) <==> refers_to(
                p.configured(capability),
                runtime_values(*p, capability, include_runtime_values),
                name,
            ),
{
    let capability_config = p.capability_config(capability)?;
    if capability == Capability::Runtime && include_runtime_values {
        let desired = p.base_desired();
        Ok(secret_references_for_operation(&capability_config, Some(&desired)))
    } else {
        Ok(secret_references_for_operation(&capability_config, None))
    }
}

/// Whether the last declaration of a secret among the first `n` requires it.
pub open spec fn declared(required: Seq<SecretRequirement>, name: Seq<char>, n: int) -> Option<bool>
    decreases n,
{
    if n <= 0 {
        None
    } else if required[n - 1].name@ == name && name != "*"@ {
        Some(required[n - 1].required)
    } else {
        declared(required, name, n - 1)
    }
}

/// Whether a manifest declares that it takes any secret.
pub open spec fn takes_any(required: Seq<SecretRequirement>) -> bool {
    exists|i: int| 0 <= i < required.len() && (#[trigger] required[i]).name@ == "*"@
}

/// The first name that a manifest does not declare.
pub open spec fn undeclared(required: Seq<SecretRequirement>, names: Seq<Seq<char>>) -> Option<Seq<char>>
    decreases names.len(),
{
    if names.len() == 0 {
        None
    } else if declared(required, names[0], required.len() as int) is None {
        Some(names[0])
    } else {
        undeclared(required, names.subrange(1, names.len() as int))
    }
}

/// The problem of a reference to a secret that a manifest does not declare.
pub open spec fn reference_problem(manifest: PluginManifest, names: Seq<Seq<char>>) -> Option<CliErrorV> {
    let required = manifest.required_secrets@;
    if takes_any(required) {
        None
    } else {
        match undeclared(required, names) {
            Some(name) => Some(
                CliErrorV::Plugin(
                    "plugin `"@ + manifest.id@ + "` did not declare referenced secret `"@ + name
                        + "` in its manifest"@,
                ),
            ),
            None => None,
        }
    }
}

/// Whether a secret is handed to a plugin, and whether it must be there: what is referred to
/// must, what is declared may.
pub open spec fn requested(required: Seq<SecretRequirement>, names: Seq<Seq<char>>, name: Seq<char>) -> Option<bool> {
    if names.contains(name) {
        Some(true)
    } else {
        declared(required, name, required.len() as int)
    }
}

/// Tests whether a manifest declares that it takes any secret.
fn has_wildcard(required: &Vec<SecretRequirement>) -> (r: bool)
    ensures
        r == takes_any(required@),
{
    let mut i: usize = 0;
    while i < required.len()
        invariant
            i <= required@.len(),
            forall|k: int| 0 <= k < i ==> (#[trigger] required@[k]).name@ != "*"@,
        decreases required.len() - i,
    {
        if text::same(required[i].name.as_str(), "*") {
            return true;
        }
        i += 1;
    }
    false
}

/// The secrets that are handed to a plugin, each with whether it must be there.
///
/// # Errors
///
/// Returns an error where a secret is referred to that the manifest does not declare.
pub fn requested_secrets(manifest: &PluginManifest, referenced: &StringSet) -> (r: Result<StringMap<bool>, CliError>)
    requires
        referenced.wf(),
    ensures
        match (reference_problem(*manifest, referenced@), r) {
            (Some(problem), Err(e)) => e@ == problem,
            (None, Ok(map)) => map.wf() && forall|name: Seq<char>| #[trigger]
                map.at(name) == requested(manifest.required_secrets@, referenced@, name),
            _ => false,
        },
{
    let ghost required = manifest.required_secrets@;
    let ghost names = referenced@;
    let wildcard = has_wildcard(&manifest.required_secrets);
    let mut map: StringMap<bool> = StringMap::new();
    let mut i: usize = 0;
    while i < manifest.required_secrets.len()
        invariant
            i <= manifest.required_secrets@.len(),
            required == manifest.required_secrets@,
            map.wf(),
            forall|name: Seq<char>| #[trigger] map.at(name) == declared(required, name, i as int),
        decreases manifest.required_secrets.len() - i,
    {
        let requirement = &manifest.required_secrets[i];
        if !text::same(requirement.name.as_str(), "*") {
            map.insert(requirement.name.clone(), requirement.required);
        }
        i += 1;
    }
    let ghost n = required.len() as int;
    let mut i: usize = 0;
    assert(names.subrange(0, names.len() as int) =~= names);
    assert(names.take(0) =~= Seq::<Seq<char>>::empty());
    assert(referenced.items@.len() == names.len());
    while i < referenced.items.len()
        invariant
            i <= referenced.items@.len(),
            n == required.len(),
            required == manifest.required_secrets@,
            wildcard == takes_any(required),
            names == referenced@,
            names.len() == referenced.items@.len(),
            map.wf(),
            forall|name: Seq<char>| #[trigger]
                map.at(name) == requested(required, names.take(i as int), name),
            referenced.wf(),
            !wildcard ==> undeclared(required, names) == undeclared(
                required,
                names.subrange(i as int, names.len() as int),
            ),
        decreases referenced.items.len() - i,
    {
        let name = &referenced.items[i];
        let ghost rest = names.subrange(i as int, names.len() as int);
        proof {
            assert(names[i as int] == name@);
            assert(rest[0] == name@);
            assert(rest.subrange(1, rest.len() as int) =~= names.subrange(i + 1, names.len() as int));
        }
        if !wildcard {
            let known = map.contains_key(name.as_str());
            proof {
                assert(map.at(name@) == requested(required, names.take(i as int), name@));
                if names.take(i as int).contains(name@) {
                    let k = choose|k: int| 0 <= k < i && names.take(i as int)[k] == name@;
                    lemma_distinct(*referenced, k, i as int);
                }
            }
            if !known {
                return Err(
                    CliError::Plugin(
                        text::cat5(
                            "plugin `",
                            manifest.id.as_str(),
                            "` did not declare referenced secret `",
                            name.as_str(),
                            "` in its manifest",
                        ),
                    ),
                );
            }
        }
        map.insert(name.clone(), true);
        proof {
            let before = names.take(i as int);
            let after = names.take(i + 1);
            assert(after =~= before.push(name@));
            assert forall|other: Seq<char>| #[trigger] map.at(other) == requested(required, after, other) by {
                if other == name@ {
                    assert(after[i as int] == name@);
                } else if after.contains(other) {
                    let k = choose|k: int| 0 <= k < after.len() && after[k] == other;
                    assert(before[k] == other);
                    assert(before.contains(other));
                } else if before.contains(other) {
                    let k = choose|k: int| 0 <= k < before.len() && before[k] == other;
                    assert(after[k] == other);
                }
            }
        }
        i += 1;
    }
    assert(names.take(names.len() as int) =~= names);
    Ok(map)
}

/// The names of a set are distinct.
proof fn lemma_distinct(set: StringSet, i: int, j: int)
    requires
        set.wf(),
        0 <= i < j < set@.len(),
    ensures
        set@[i] != set@[j],
{
    text::lemma_text_lt_irreflexive(set@[i]);
}

/// A manifest declares a secret by its name.
pub open spec fn declares_name(required: Seq<SecretRequirement>, name: Seq<char>) -> bool {
    exists|i: int| 0 <= i < required.len() && (#[trigger] required[i]).name@ == name
}

/// What is declared stands in the manifest.
proof fn lemma_declared(required: Seq<SecretRequirement>, name: Seq<char>, n: int)
    requires
        n <= required.len(),
        declared(required, name, n) is Some,
    ensures
        declares_name(required, name),
    decreases n,
{
    if required[n - 1].name@ == name && name != "*"@ {
        assert(required[n - 1].name@ == name);
    } else {
        lemma_declared(required, name, n - 1);
    }
}

/// Where no name is undeclared, each is declared.
proof fn lemma_all_declared(required: Seq<SecretRequirement>, names: Seq<Seq<char>>, i: int)
    requires
        undeclared(required, names) is None,
        0 <= i < names.len(),
    ensures
        declared(required, names[i], required.len() as int) is Some,
    decreases names.len(),
{
    if i > 0 {
        let rest = names.subrange(1, names.len() as int);
        lemma_all_declared(required, rest, i - 1);
        assert(rest[i - 1] == names[i]);
    }
}

/// A plugin is handed no secret but those that its manifest declares by name and, where it
/// takes any secret, those that the capability at hand refers to.
pub proof fn secrets_are_scoped(manifest: PluginManifest, names: Seq<Seq<char>>, name: Seq<char>)
    requires
        reference_problem(manifest, names) is None,
        requested(manifest.required_secrets@, names, name) is Some,
    ensures
        declares_name(manifest.required_secrets@, name) || (takes_any(manifest.required_secrets@)
            && names.contains(name)),
{
    let required = manifest.required_secrets@;
    if names.contains(name) {
        if !takes_any(required) {
            let i = choose|i: int| 0 <= i < names.len() && names[i] == name;
            lemma_all_declared(required, names, i);
            lemma_declared(required, name, required.len() as int);
        }
    } else {
        lemma_declared(required, name, required.len() as int);
    }
}

/// What follows from looking a secret up.
pub enum SecretStep {
    /// It goes to the plugin.
    Include(SecretValue),
    /// It is not there and may be missing.
    Skip,
    /// The operation fails.
    Fail(CliError),
}

/// Decides on a secret that was looked up: only one that is required must be there.
pub fn accept_secret(required: bool, outcome: Result<SecretValue, CliError>) -> (r: SecretStep)
    ensures
        match (outcome, r) {
            (Ok(a), SecretStep::Include(b)) => a == b,
            (Err(e), SecretStep::Skip) => !required && e is SecretUnavailable,
            (Err(e), SecretStep::Fail(f)) => e == f && (required || !(e is SecretUnavailable)),
            _ => false,
        },
{
    match outcome {
        Ok(v) => SecretStep::Include(v),
        Err(e) => match e {
            CliError::SecretUnavailable { name, env } => if required {
                SecretStep::Fail(CliError::SecretUnavailable { name, env })
            } else {
                SecretStep::Skip
            },
            other => SecretStep::Fail(other),
        },
    }
}

// ---------------------------------------------------------------------------
// The context of an operation
// ---------------------------------------------------------------------------

/// What a request tells of its operation.
pub open spec fn operation_metadata(
    p: LoadedProject,
    capability: Capability,
    operation: Seq<char>,
    all: bool,
    target: DataV,
) -> DataV {
    DataV::Object(
        seq![
            ("all"@, DataV::Bool(all)),
            ("capability"@, DataV::Str(capability.text())),
            (
                "labels"@,
                DataV::Object(project::label_entries(identity::labels_of(p.identity@))),
            ),
            ("operation"@, DataV::Str(operation)),
            ("project_id"@, DataV::Str(outside::uuid_text(p.config.project.id@))),
            ("project_slug"@, DataV::Str(p.config.project.slug@)),
            ("target"@, target),
        ],
    )
}

/// The context of a request.
pub open spec fn is_context(
    context: OperationContext,
    p: LoadedProject,
    plugin_id: Seq<char>,
    capability: Capability,
    operation_id: Seq<char>,
    operation: Seq<char>,
    all: bool,
    target: DataV,
    secrets: StringMap<SecretValue>,
) -> bool {
    &&& context.operation_id@ == operation_id
    &&& context.environment_id@ == p.environment()
    &&& context.profile@ == p.profile_name@
    &&& text::option_of(context.project_root) == Some(p.paths.root@)
    &&& context.config@ == DataV::Object(
        merged_object(
            shared_settings(p, plugin_id, capability, 6),
            p.configured(capability)->Object_0,
        ),
    )
    &&& context.secrets == secrets
    &&& context.metadata@ == operation_metadata(p, capability, operation, all, target)
}

/// Puts the context of a request together from the secrets that were resolved.
///
/// # Errors
///
/// Returns an error where some settings of the plugin are not a table.
pub fn operation_context(
    p: &LoadedProject,
    plugin_id: &str,
    capability: Capability,
    operation_id: &str,
    operation: &str,
    all: bool,
    target: &Data,
    secrets: StringMap<SecretValue>,
) -> (r: Result<OperationContext, CliError>)
    requires
        p.wf(),
    ensures
        match r {
            Ok(context) => is_context(
                context,
                *p,
                plugin_id@,
                capability,
                operation_id@,
                operation@,
                all,
                target@,
                secrets,
            ) && shared_are_tables(*p, plugin_id@, capability, 6) && p.configured(capability) is Object,
            Err(e) => e@ == not_an_object() && !(shared_are_tables(*p, plugin_id@, capability, 6)
                && p.configured(capability) is Object),
        },
{
    broadcast use value::lemma_object_view;

    let config = merged_plugin_config(p, plugin_id, capability)?;
    let mut metadata: Vec<(String, Data)> = Vec::new();
    metadata.push(("all".to_owned(), Data::Bool(all)));
    metadata.push(("capability".to_owned(), Data::text(capability.as_str())));
    metadata.push(("labels".to_owned(), p.label_data()));
    metadata.push(("operation".to_owned(), Data::text(operation)));
    metadata.push(("project_id".to_owned(), Data::text(p.config.project.id.hyphenated().as_str())));
    metadata.push(("project_slug".to_owned(), Data::text(p.config.project.slug.as_str())));
    metadata.push(("target".to_owned(), target.duplicate()));
    assert(value::entry_views(metadata@) =~= operation_metadata(
        *p,
        capability,
        operation@,
        all,
        target@,
    )->Object_0);
    Ok(
        OperationContext {
            operation_id: operation_id.to_owned(),
            environment_id: p.identity.id().as_str().to_owned(),
            profile: p.profile_name.clone(),
            project_root: Some(p.paths.root.clone()),
            config,
            secrets,
            metadata: Data::Object(metadata),
        },
    )
}

/// The names of what is told of an operation differ.
proof fn lemma_metadata_names()
    ensures
        seq!["all"@, "capability"@, "labels"@, "operation"@, "project_id"@, "project_slug"@, "target"@].no_duplicates(),
{
    reveal_strlit("all");
    reveal_strlit("capability");
    reveal_strlit("labels");
    reveal_strlit("operation");
    reveal_strlit("project_id");
    reveal_strlit("project_slug");
    reveal_strlit("target");
    assert("all"@.len() == 3);
    assert("capability"@.len() == 10);
    assert("labels"@.len() == 6);
    assert("operation"@.len() == 9);
    assert("project_id"@.len() == 10);
    assert("project_slug"@.len() == 12);
    assert("target"@.len() == 6);
    assert("capability"@[0] != "project_id"@[0]);
    assert("labels"@[0] != "target"@[0]);
    let names = seq!["all"@, "capability"@, "labels"@, "operation"@, "project_id"@, "project_slug"@, "target"@];
    assert(names[0] == "all"@);
    assert(names[1] == "capability"@);
    assert(names[2] == "labels"@);
    assert(names[3] == "operation"@);
    assert(names[4] == "project_id"@);
    assert(names[5] == "project_slug"@);
    assert(names[6] == "target"@);
    assert forall|i: int, j: int| 0 <= i < names.len() && 0 <= j < names.len() && i != j implies #[trigger] names[i]
        != #[trigger] names[j] by {
        assert(i == 0 || i == 1 || i == 2 || i == 3 || i == 4 || i == 5 || i == 6);
        assert(j == 0 || j == 1 || j == 2 || j == 3 || j == 4 || j == 5 || j == 6);
    }
}

/// A plugin is told of an operation what it is: its name, the capability, whether it is about all
/// environments, the target's state, and the project by its identifier and slug.
pub proof fn operations_are_told_as_they_are(
    p: LoadedProject,
    capability: Capability,
    operation: Seq<char>,
    all: bool,
    target: DataV,
)
    ensures
        ({
            let told = operation_metadata(p, capability, operation, all, target);
            &&& value::field(told, "operation"@) == Some(DataV::Str(operation))
            &&& value::field(told, "capability"@) == Some(DataV::Str(capability.text()))
            &&& value::field(told, "all"@) == Some(DataV::Bool(all))
            &&& value::field(told, "target"@) == Some(target)
            &&& value::field(told, "project_id"@) == Some(
                DataV::Str(outside::uuid_text(p.config.project.id@)),
            )
            &&& value::field(told, "project_slug"@) == Some(DataV::Str(p.config.project.slug@))
            &&& value::field(told, "labels"@) == Some(
                DataV::Object(project::label_entries(identity::labels_of(p.identity@))),
            )
        }),
{
    let entries = operation_metadata(p, capability, operation, all, target)->Object_0;
    let names = seq!["all"@, "capability"@, "labels"@, "operation"@, "project_id"@, "project_slug"@, "target"@];
    lemma_metadata_names();
    assert(value::names_of(entries) =~= names);
    value::lemma_distinct(entries, names);
    assert(value::lookup(entries, names[0]) == Some(entries[0].1));
    assert(value::lookup(entries, names[1]) == Some(entries[1].1));
    assert(value::lookup(entries, names[2]) == Some(entries[2].1));
    assert(value::lookup(entries, names[3]) == Some(entries[3].1));
    assert(value::lookup(entries, names[4]) == Some(entries[4].1));
    assert(value::lookup(entries, names[5]) == Some(entries[5].1));
    assert(value::lookup(entries, names[6]) == Some(entries[6].1));
}

/// A request is made for the environment, the profile and the checkout of the project, under the
/// operation's own identifier and with the secrets that were resolved.
pub proof fn requests_are_made_for_the_project(
    context: OperationContext,
    p: LoadedProject,
    plugin_id: Seq<char>,
    capability: Capability,
    operation_id: Seq<char>,
    operation: Seq<char>,
    all: bool,
    target: DataV,
    secrets: StringMap<SecretValue>,
)
    requires
        is_context(context, p, plugin_id, capability, operation_id, operation, all, target, secrets),
    ensures
        context.operation_id@ == operation_id,
        context.environment_id@ == identity::environment_id_text(
            p.config.project.id@,
            p.profile_name@,
            p.git@.branch,
        ),
        context.profile@ == p.profile_name@,
        context.project_root matches Some(root) && root@ == p.paths.root@,
        context.secrets == secrets,
        value::field(context.metadata@, "operation"@) == Some(DataV::Str(operation)),
        value::field(context.metadata@, "all"@) == Some(DataV::Bool(all)),
        value::field(context.metadata@, "target"@) == Some(target),
        value::field(context.metadata@, "capability"@) == Some(DataV::Str(capability.text())),
{
    operations_are_told_as_they_are(p, capability, operation, all, target);
}

/// What is laid over settings wins, but for tables, whose own values win one by one. What is not
/// laid over stays.
proof fn lemma_merged(target: Seq<(Seq<char>, DataV)>, source: Seq<(Seq<char>, DataV)>, name: Seq<char>)
    requires
        value::in_order(source),
    ensures
        value::lookup(merged_object(target, source), name) == match value::lookup(source, name) {
            Some(v) => Some(overlaid(value::lookup(target, name), v)),
            None => value::lookup(target, name),
        },
    decreases source.len(),
{
    if source.len() > 0 {
        let fewer = source.drop_last();
        let (last, v) = source.last();
        let before = merged_object(target, fewer);
        let names = value::names_of(source);
        assert(value::names_of(fewer) =~= names.drop_last());
        assert(value::in_order(fewer));
        lemma_merged(target, fewer, name);
        value::lemma_lookup_last(source, name);
        let laid = overlaid(value::lookup(before, last), v);
        if name == last {
            assert forall|i: int| 0 <= i < fewer.len() implies (#[trigger] fewer[i]).0 != last by {
                assert(text::text_lt(names[i], names[source.len() - 1]));
                text::lemma_text_lt_irreflexive(last);
            }
            value::lemma_lookup_absent(fewer, last);
            value::lemma_put_found(before, last, laid);
        } else {
            value::lemma_put_kept(before, last, laid, name);
        }
    }
}

/// The settings of the capability at hand win over those of the plugin's other capabilities, and
/// what it does not set comes from them.
pub proof fn own_settings_win(shared: Seq<(Seq<char>, DataV)>, own: Seq<(Seq<char>, DataV)>, name: Seq<char>)
    requires
        value::in_order(own),
    ensures
        value::lookup(own, name) matches Some(v) ==> (v !is Object ==> value::lookup(
            merged_object(shared, own),
            name,
        ) == Some(v)),
        value::lookup(own, name) matches Some(v) ==> (!(value::lookup(shared, name) matches Some(
            DataV::Object(_),
        )) ==> value::lookup(merged_object(shared, own), name) == Some(v)),
        value::lookup(own, name) is None ==> value::lookup(merged_object(shared, own), name) == value::lookup(
            shared,
            name,
        ),
{
    lemma_merged(shared, own, name);
}

/// A secret that a capability refers to must be there; one that the plugin requires must be too;
/// any other that it declares may be missing.
pub proof fn secrets_that_are_needed_must_be_there(
    required: Seq<SecretRequirement>,
    names: Seq<Seq<char>>,
    name: Seq<char>,
    i: int,
)
    ensures
        names.contains(name) ==> requested(required, names, name) == Some(true),
        0 <= i < required.len() && required[i].name@ == name && name != "*"@ && (forall|k: int|
            i < k < required.len() ==> (#[trigger] required[k]).name@ != name) && !names.contains(name)
            ==> requested(required, names, name) == Some(required[i].required),
        (forall|k: int| 0 <= k < required.len() ==> (#[trigger] required[k]).name@ != name) && !names.contains(name)
            ==> requested(required, names, name) is None,
{
    let n = required.len() as int;
    if 0 <= i < n && required[i].name@ == name && name != "*"@ && (forall|k: int|
        i < k < n ==> (#[trigger] required[k]).name@ != name) {
        lemma_last_declared(required, name, i, n);
    }
    if forall|k: int| 0 <= k < n ==> (#[trigger] required[k]).name@ != name {
        lemma_never_declared(required, name, n);
    }
}

/// The last declaration counts.
proof fn lemma_last_declared(required: Seq<SecretRequirement>, name: Seq<char>, i: int, n: int)
    requires
        0 <= i < n <= required.len(),
        required[i].name@ == name,
        name != "*"@,
        forall|k: int| i < k < n ==> (#[trigger] required[k]).name@ != name,
    ensures
        declared(required, name, n) == Some(required[i].required),
    decreases n,
{
    if i < n - 1 {
        assert(required[n - 1].name@ != name);
        lemma_last_declared(required, name, i, n - 1);
    }
}

/// What is nowhere declared is not declared.
proof fn lemma_never_declared(required: Seq<SecretRequirement>, name: Seq<char>, n: int)
    requires
        0 <= n <= required.len(),
        forall|k: int| 0 <= k < n ==> (#[trigger] required[k]).name@ != name,
    ensures
        declared(required, name, n) is None,
    decreases n,
{
    if n > 0 {
        assert(required[n - 1].name@ != name);
        lemma_never_declared(required, name, n - 1);
    }
}

/// The values of applications reach the runtime alone, and only where it creates or updates:
/// every other capability refers to the secrets of its own settings.
pub proof fn application_secrets_reach_the_runtime_alone(p: LoadedProject, capability: Capability, wanted: bool, name: Seq<char>)
    ensures
        capability != Capability::Runtime || !wanted ==> (refers_to(
            p.configured(capability),
            runtime_values(p, capability, wanted),
            name,
        ) <==> value::mentions(p.configured(capability), name)),
        value::mentions(project::desired(p), name) ==> refers_to(
            p.configured(Capability::Runtime),
            runtime_values(p, Capability::Runtime, true),
            name,
        ),
        value::mentions(p.configured(capability), name) ==> refers_to(
            p.configured(capability),
            runtime_values(p, capability, wanted),
            name,
        ),
{
}

/// A setting that none of the plugin's other capabilities has is not shared; one that a single one
/// of them has is.
proof fn lemma_shared(
    p: LoadedProject,
    plugin_id: Seq<char>,
    current: Capability,
    k: int,
    name: Seq<char>,
    n: int,
)
    requires
        0 <= n <= 6,
        forall|j: int|
            0 <= j < 6 ==> (p.configured(#[trigger] Capability::ALL@[j]) matches DataV::Object(entries)
                ==> value::in_order(entries)),
        forall|j: int|
            0 <= j < 6 && j != k && Capability::ALL@[j] != current && p.selected().pipeline.assigned(
                #[trigger] Capability::ALL@[j],
            ) == plugin_id ==> value::field(p.configured(Capability::ALL@[j]), name) is None,
    ensures
        value::lookup(shared_settings(p, plugin_id, current, n), name) == if 0 <= k < n && Capability::ALL@[k]
            != current && p.selected().pipeline.assigned(Capability::ALL@[k]) == plugin_id {
            value::field(p.configured(Capability::ALL@[k]), name)
        } else {
            None
        },
    decreases n,
{
    if n > 0 {
        lemma_shared(p, plugin_id, current, k, name, n - 1);
        let capability = Capability::ALL@[n - 1];
        let before = shared_settings(p, plugin_id, current, n - 1);
        if shares_plugin(p, plugin_id, current, capability) {
            if let DataV::Object(entries) = p.configured(capability) {
                lemma_merged(before, entries, name);
            }
        }
    }
}

/// What is set for one capability reaches the plugin with its other capabilities too, where
/// the plugin fills both; what is set for capabilities of other plugins does not reach it.
pub proof fn settings_are_shared_within_a_plugin(
    p: LoadedProject,
    plugin_id: Seq<char>,
    current: Capability,
    k: int,
    name: Seq<char>,
)
    requires
        0 <= k < 6,
        forall|j: int|
            0 <= j < 6 ==> (p.configured(#[trigger] Capability::ALL@[j]) matches DataV::Object(entries)
                ==> value::in_order(entries)),
        forall|j: int|
            0 <= j < 6 && j != k && Capability::ALL@[j] != current && p.selected().pipeline.assigned(
                #[trigger] Capability::ALL@[j],
            ) == plugin_id ==> value::field(p.configured(Capability::ALL@[j]), name) is None,
    ensures
        Capability::ALL@[k] != current && p.selected().pipeline.assigned(Capability::ALL@[k]) == plugin_id
            ==> value::lookup(shared_settings(p, plugin_id, current, 6), name) == value::field(
            p.configured(Capability::ALL@[k]),
            name,
        ),
        p.selected().pipeline.assigned(Capability::ALL@[k]) != plugin_id ==> value::lookup(
            shared_settings(p, plugin_id, current, 6),
            name,
        ) is None,
{
    lemma_shared(p, plugin_id, current, k, name, 6);
}

/// Tables are laid over each other value by value: those of the upper one win, and those that
/// it does not have stay.
pub proof fn tables_are_laid_over_each_other(
    lower: Seq<(Seq<char>, DataV)>,
    upper: Seq<(Seq<char>, DataV)>,
    name: Seq<char>,
)
    requires
        value::in_order(upper),
    ensures
        value::lookup(upper, name) is Some ==> value::field(
            overlaid(Some(DataV::Object(lower)), DataV::Object(upper)),
            name,
        ) == value::lookup(upper, name),
        value::lookup(upper, name) is None ==> value::field(
            overlaid(Some(DataV::Object(lower)), DataV::Object(upper)),
            name,
        ) == value::lookup(lower, name),
{
    project::lemma_put_all(lower, upper, name);
}

/// A plugin that takes any secret may be referred any; another only those that it declares.
pub proof fn undeclared_secrets_are_refused(manifest: PluginManifest, names: Seq<Seq<char>>, i: int)
    requires
        0 <= i < names.len(),
    ensures
        (exists|k: int|
            0 <= k < manifest.required_secrets@.len() && (#[trigger] manifest.required_secrets@[k]).name@ == "*"@)
            ==> reference_problem(manifest, names) is None,
        (forall|k: int|
            0 <= k < manifest.required_secrets@.len() ==> (#[trigger] manifest.required_secrets@[k]).name@ != "*"@
                && manifest.required_secrets@[k].name@ != names[i]) ==> reference_problem(manifest, names) is Some,
{
    let required = manifest.required_secrets@;
    if forall|k: int| 0 <= k < required.len() ==> (#[trigger] required[k]).name@ != "*"@ && required[k].name@
        != names[i] {
        lemma_not_declared(required, names[i], required.len() as int);
        lemma_undeclared_found(required, names, i);
    }
}

/// A name that no requirement has is not declared.
proof fn lemma_not_declared(required: Seq<SecretRequirement>, name: Seq<char>, n: int)
    requires
        0 <= n <= required.len(),
        forall|k: int| 0 <= k < n ==> (#[trigger] required[k]).name@ != name,
    ensures
        declared(required, name, n) is None,
    decreases n,
{
    if n > 0 {
        assert(required[n - 1].name@ != name);
        lemma_not_declared(required, name, n - 1);
    }
}

/// A name that is not declared is found among names.
proof fn lemma_undeclared_found(required: Seq<SecretRequirement>, names: Seq<Seq<char>>, i: int)
    requires
        0 <= i < names.len(),
        declared(required, names[i], required.len() as int) is None,
    ensures
        undeclared(required, names) is Some,
    decreases names.len(),
{
    if i > 0 && declared(required, names[0], required.len() as int) is Some {
        let rest = names.subrange(1, names.len() as int);
        assert(rest[i - 1] == names[i]);
        lemma_undeclared_found(required, rest, i - 1);
    }
}

/// A secret that something refers to must be there, whatever the plugin declares of it; one that
/// nothing refers to is asked for as the plugin declares it last.
pub proof fn referenced_secrets_are_required(
    required: Seq<SecretRequirement>,
    names: Seq<Seq<char>>,
    i: int,
    last: SecretRequirement,
)
    requires
        0 <= i < names.len(),
    ensures
        requested(required, names, names[i]) == Some(true),
        last.name@ != "*"@ && !names.contains(last.name@) ==> requested(required.push(last), names, last.name@) == Some(
            last.required,
        ),
        !names.contains("*"@) ==> requested(required, names, "*"@) is None,
{
    assert(required.push(last)[required.len() as int] == last);
    lemma_wildcard_is_no_name(required, required.len() as int);
}

/// The wildcard declares no secret of its own.
proof fn lemma_wildcard_is_no_name(required: Seq<SecretRequirement>, n: int)
    ensures
        declared(required, "*"@, n) is None,
    decreases n,
{
    if n > 0 {
        lemma_wildcard_is_no_name(required, n - 1);
    }
}

} // verus!
