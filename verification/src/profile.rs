//! Named profile selection and the changes to the profiles of a configuration.

use vstd::prelude::*;

use crate::collections;
use crate::config::{self, Capability, Isolation, LightrailConfig, Profile};
use crate::error::{CliError, CliErrorV};
use crate::text;
use crate::validation;
use crate::validity;
use crate::value;

verus! {

/// A selected profile.
pub struct SelectedProfile {
    pub name: String,
    pub is_default: bool,
    pub profile: Profile,
}

/// Compact row of a list of profiles.
#[derive(Clone, Debug, Eq, PartialEq)]
pub struct ProfileSummary {
    pub name: String,
    pub is_default: bool,
    pub isolation: Isolation,
    pub apps: Vec<String>,
    pub target_plugin: String,
}

/// Result of a committed profile mutation.
#[derive(Clone, Debug, Eq, PartialEq)]
pub struct ProfileMutation {
    pub name: String,
    pub config_path: String,
}

/// The name that is selected: on the command line, else in the environment, else the
/// default of the project.
pub open spec fn selected_name(
    config: LightrailConfig,
    cli_profile: Option<&str>,
    environment_profile: Option<&str>,
) -> Seq<char> {
    match (cli_profile, environment_profile) {
        (Some(name), _) => name@,
        (None, Some(name)) => name@,
        (None, None) => config.project.default_profile@,
    }
}

/// What is reported of a profile that does not exist.
pub open spec fn missing_profile(config: LightrailConfig, name: Seq<char>) -> CliErrorV {
    CliErrorV::Config(
        "profile `"@ + name + "` does not exist; available profiles: "@ + text::joined(
            config.profiles.keys(),
            ", "@,
        ),
    )
}

/// What is reported of a profile that does not exist.
fn missing(config: &LightrailConfig, name: &str) -> (r: CliError)
    ensures
        r@ == missing_profile(*config, name@),
{
    let names = text::join(&config.profiles.key_list(), ", ");
    CliError::Config(
        text::cat4("profile `", name, "` does not exist; available profiles: ", names.as_str()),
    )
}

/// Applies the `CLI > environment > project default` precedence.
///
/// # Errors
///
/// Returns an error when the selected profile is not present in `config`.
pub fn resolve_profile_name(
    config: &LightrailConfig,
    cli_profile: Option<&str>,
    environment_profile: Option<&str>,
) -> (r: Result<String, CliError>)
    ensures
        ({
            let name = selected_name(*config, cli_profile, environment_profile);
            match r {
                Ok(selected) => config.profiles.at(name) is Some && selected@ == name,
                Err(e) => config.profiles.at(name) is None && e@ == missing_profile(*config, name),
            }
        }),
{
    let name: &str = match cli_profile {
        Some(name) => name,
        None => match environment_profile {
            Some(name) => name,
            None => config.project.default_profile.as_str(),
        },
    };
    if config.profile(name).is_none() {
        return Err(missing(config, name));
    }
    Ok(name.to_owned())
}

/// A profile under its name.
pub open spec fn is_selected(selected: SelectedProfile, config: LightrailConfig, name: Seq<char>) -> bool {
    &&& selected.name@ == name
    &&& selected.is_default == (name == config.project.default_profile@)
    &&& config.profiles.at(name) matches Some(profile) && config::same_profile(
        selected.profile,
        profile,
    )
}

/// Returns one profile under its name.
///
/// # Errors
///
/// Returns an error when `name` is not present in `config`.
pub fn show(config: &LightrailConfig, name: &str) -> (r: Result<SelectedProfile, CliError>)
    ensures
        match r {
            Ok(selected) => is_selected(selected, *config, name@),
            Err(e) => config.profiles.at(name@) is None && e@ == missing_profile(*config, name@),
        },
{
    match config.profile(name) {
        None => Err(missing(config, name)),
        Some(profile) => Ok(
            SelectedProfile {
                name: name.to_owned(),
                is_default: text::same(name, config.project.default_profile.as_str()),
                profile: profile.duplicate(),
            },
        ),
    }
}

/// Resolves a profile with the value of the variable that selects one.
///
/// # Errors
///
/// Returns an error when the selected profile is not present in `config`.
pub fn resolve_profile(config: &LightrailConfig, cli_profile: Option<&str>, environment_profile: Option<&str>) -> (r:
    Result<SelectedProfile, CliError>)
    ensures
        ({
            let name = selected_name(*config, cli_profile, environment_profile);
            match r {
                Ok(selected) => is_selected(selected, *config, name),
                Err(e) => config.profiles.at(name) is None && e@ == missing_profile(*config, name),
            }
        }),
{
    let name = resolve_profile_name(config, cli_profile, environment_profile)?;
    show(config, name.as_str())
}

/// A row of the list of profiles.
pub open spec fn is_summary(
    row: ProfileSummary,
    default_profile: Seq<char>,
    name: Seq<char>,
    profile: Profile,
) -> bool {
    &&& row.name@ == name
    &&& row.is_default == (name == default_profile)
    &&& row.isolation == profile.isolation
    &&& text::texts(row.apps@) == text::texts(profile.apps@)
    &&& row.target_plugin@ == profile.pipeline.assigned(Capability::Target)
}

/// Lists profiles in the order of their names.
pub fn list(config: &LightrailConfig) -> (r: Vec<ProfileSummary>)
    ensures
        r@.len() == config.profiles.entries@.len(),
        forall|i: int|
            0 <= i < r@.len() ==> is_summary(
                #[trigger] r@[i],
                config.project.default_profile@,
                config.profiles.entries@[i].0@,
                config.profiles.entries@[i].1,
            ),
{
    let mut out: Vec<ProfileSummary> = Vec::new();
    let mut i: usize = 0;
    while i < config.profiles.entries.len()
        invariant
            i <= config.profiles.entries@.len(),
            out@.len() == i,
            forall|k: int|
                0 <= k < i ==> is_summary(
                    #[trigger] out@[k],
                    config.project.default_profile@,
                    config.profiles.entries@[k].0@,
                    config.profiles.entries@[k].1,
                ),
        decreases config.profiles.entries.len() - i,
    {
        let entry = &config.profiles.entries[i];
        out.push(
            ProfileSummary {
                name: entry.0.clone(),
                is_default: text::same(
                    entry.0.as_str(),
                    config.project.default_profile.as_str(),
                ),
                isolation: entry.1.isolation,
                apps: text::copy_all(&entry.1.apps),
                target_plugin: entry.1.pipeline.target.as_str().to_owned(),
            },
        );
        i += 1;
    }
    out
}

// ---------------------------------------------------------------------------
// Changes
// ---------------------------------------------------------------------------

/// A configuration that differs in its profiles alone.
pub open spec fn differs_in_profiles(after: LightrailConfig, before: LightrailConfig) -> bool {
    &&& after.schema == before.schema
    &&& after.project == before.project
    &&& after.apps == before.apps
}

/// The configuration with a copy of a profile under a new name.
pub open spec fn is_added(
    after: LightrailConfig,
    before: LightrailConfig,
    name: Seq<char>,
    template: Seq<char>,
) -> bool {
    &&& differs_in_profiles(after, before)
    &&& after.profiles.wf()
    &&& after.profiles.at(name) matches Some(copy) && before.profiles.at(template) matches Some(original)
        && config::same_profile(copy, original)
    &&& forall|other: Seq<char>|
        other != name ==> #[trigger] after.profiles.at(other) == before.profiles.at(other)
}

/// The configuration without a profile.
pub open spec fn is_removed(after: LightrailConfig, before: LightrailConfig, name: Seq<char>) -> bool {
    &&& differs_in_profiles(after, before)
    &&& after.profiles.entries@ == collections::without_entry(before.profiles.entries@, name)
}

/// The configuration with another default profile.
pub open spec fn is_redirected(after: LightrailConfig, before: LightrailConfig, name: Seq<char>) -> bool {
    &&& after.schema == before.schema
    &&& after.apps == before.apps
    &&& after.profiles == before.profiles
    &&& after.project.id == before.project.id
    &&& after.project.slug == before.project.slug
    &&& after.project.compose == before.project.compose
    &&& after.project.default_profile@ == name
}

/// What is reported of a configuration that is not valid.
pub open spec fn invalid(config: LightrailConfig) -> CliErrorV {
    CliErrorV::Config(validation::errors_text(config::config_issues(config)))
}

/// Accepts a configuration to be saved.
///
/// # Errors
///
/// Returns an error where it is not valid.
pub fn accept(config: LightrailConfig) -> (r: Result<LightrailConfig, CliError>)
    ensures
        match r {
            Ok(accepted) => accepted == config && config::config_issues(config).len() == 0,
            Err(e) => config::config_issues(config).len() > 0 && e@ == invalid(config),
        },
{
    match config.validate() {
        Ok(()) => Ok(config),
        Err(errors) => Err(CliError::Config(errors.message())),
    }
}

/// The name of the template.
pub open spec fn template_of(config: LightrailConfig, template_name: Option<&str>) -> Seq<char> {
    match template_name {
        Some(name) => name@,
        None => config.project.default_profile@,
    }
}

/// Adds `name` by copying a template profile.
///
/// If `template_name` is absent, the project default profile is copied.
///
/// # Errors
///
/// Returns an error when `name` already exists, the template is missing, or the
/// configuration with the new profile is not valid.
pub fn add(config: LightrailConfig, name: &str, template_name: Option<&str>) -> (r: Result<
    LightrailConfig,
    CliError,
>)
    requires
        config.profiles.wf(),
    ensures
        ({
            let template = template_of(config, template_name);
            match r {
                Ok(after) => config.profiles.at(name@) is None && is_added(after, config, name@, template)
                    && config::config_issues(after).len() == 0,
                Err(e) => if config.profiles.at(name@) is Some {
                    e@ == CliErrorV::Usage("profile `"@ + name@ + "` already exists"@)
                } else if config.profiles.at(template) is None {
                    e@ == CliErrorV::Config("template profile `"@ + template + "` does not exist"@)
                } else {
                    exists|after: LightrailConfig| #[trigger]
                        is_added(after, config, name@, template) && config::config_issues(after).len()
                            > 0 && e@ == invalid(after)
                },
            }
        }),
        config::config_issues(config).len() == 0 && validity::is_name(name@) ==> (r is Ok <==>
            config.profiles.at(name@) is None && config.profiles.at(template_of(config, template_name)) is Some),
{
    if config.profiles.contains_key(name) {
        return Err(CliError::Usage(text::cat3("profile `", name, "` already exists")));
    }
    let template_name: &str = match template_name {
        Some(template) => template,
        None => config.project.default_profile.as_str(),
    };
    let copy = match config.profile(template_name) {
        None => {
            return Err(
                CliError::Config(
                    text::cat3("template profile `", template_name, "` does not exist"),
                ),
            );
        },
        Some(profile) => profile.duplicate(),
    };
    let ghost before = config;
    let ghost template = template_name@;
    let LightrailConfig { schema, project, apps, mut profiles } = config;
    profiles.insert(name.to_owned(), copy);
    let after = LightrailConfig { schema, project, apps, profiles };
    proof {
        assert(is_added(after, before, name@, template));
        if config::config_issues(before).len() == 0 && validity::is_name(name@) {
            adding_keeps_validity(before, after, name@, template);
        }
    }
    accept(after)
}

/// Removes a profile after the caller has rediscovered provider state.
///
/// A positive number of live environments is always refused, so that no resources are left
/// behind without a profile.
///
/// # Errors
///
/// Returns an error when the profile is missing, is the project default or still has live
/// environments. A configuration that was not valid before is rejected too.
pub fn remove(config: LightrailConfig, name: &str, live_environment_count: usize) -> (r: Result<
    LightrailConfig,
    CliError,
>)
    ensures
        match r {
            Ok(after) => config.profiles.at(name@) is Some && name@ != config.project.default_profile@
                && live_environment_count == 0 && is_removed(after, config, name@)
                && config::config_issues(after).len() == 0,
            Err(e) => if config.profiles.at(name@) is None {
                e@ == CliErrorV::Config("profile `"@ + name@ + "` does not exist"@)
            } else if name@ == config.project.default_profile@ {
                e@ == CliErrorV::Usage(
                    "cannot remove default profile `"@ + name@
                        + "`; choose another project.default_profile first"@,
                )
            } else if live_environment_count > 0 {
                e@ == CliErrorV::Usage(
                    "cannot remove profile `"@ + name@ + "`: "@ + text::decimal(
                        live_environment_count as nat,
                    ) + " live environment(s) still use it; destroy them first"@,
                )
            } else {
                exists|after: LightrailConfig| #[trigger]
                    is_removed(after, config, name@) && config::config_issues(after).len() > 0 && e@
                        == invalid(after)
            },
        },
        config::config_issues(config).len() == 0 ==> (r is Ok <==> config.profiles.at(name@) is Some && name@
            != config.project.default_profile@ && live_environment_count == 0),
{
    if !config.profiles.contains_key(name) {
        return Err(CliError::Config(text::cat3("profile `", name, "` does not exist")));
    }
    if text::same(name, config.project.default_profile.as_str()) {
        return Err(
            CliError::Usage(
                text::cat3(
                    "cannot remove default profile `",
                    name,
                    "`; choose another project.default_profile first",
                ),
            ),
        );
    }
    if live_environment_count > 0 {
        return Err(
            CliError::Usage(
                text::cat5(
                    "cannot remove profile `",
                    name,
                    "`: ",
                    text::number(live_environment_count as u128).as_str(),
                    " live environment(s) still use it; destroy them first",
                ),
            ),
        );
    }
    let ghost before = config;
    let LightrailConfig { schema, project, apps, mut profiles } = config;
    profiles.remove(name);
    let after = LightrailConfig { schema, project, apps, profiles };
    proof {
        assert(is_removed(after, before, name@));
        if config::config_issues(before).len() == 0 {
            removing_keeps_validity(before, after, name@);
        }
    }
    accept(after)
}

/// Makes a profile the default of the project.
///
/// # Errors
///
/// Returns an error when the profile is missing, or the configuration is not valid.
pub fn set_default(config: LightrailConfig, name: &str) -> (r: Result<LightrailConfig, CliError>)
    ensures
        match r {
            Ok(after) => config.profiles.at(name@) is Some && is_redirected(after, config, name@)
                && config::config_issues(after).len() == 0,
            Err(e) => if config.profiles.at(name@) is None {
                e@ == missing_profile(config, name@)
            } else {
                exists|after: LightrailConfig| #[trigger]
                    is_redirected(after, config, name@) && config::config_issues(after).len() > 0 && e@
                        == invalid(after)
            },
        },
        config::config_issues(config).len() == 0 ==> (r is Ok <==> config.profiles.at(name@) is Some),
{
    if config.profile(name).is_none() {
        return Err(missing(&config, name));
    }
    let ghost before = config;
    let mut after = config;
    after.project.default_profile = name.to_owned();
    proof {
        assert(is_redirected(after, before, name@));
        if config::config_issues(before).len() == 0 {
            redirecting_keeps_validity(before, after, name@);
        }
    }
    accept(after)
}

/// A profile that is added and then removed leaves the profiles as they were.
pub proof fn removing_undoes_adding(
    config: LightrailConfig,
    added: LightrailConfig,
    removed: LightrailConfig,
    name: Seq<char>,
    template: Seq<char>,
)
    requires
        config.profiles.at(name) is None,
        is_added(added, config, name, template),
        is_removed(removed, added, name),
    ensures
        differs_in_profiles(removed, config),
        forall|other: Seq<char>| #[trigger]
            removed.profiles.at(other) == config.profiles.at(other),
{
    assert forall|other: Seq<char>| #[trigger]
        removed.profiles.at(other) == config.profiles.at(other) by {
        collections::lemma_without_entry(added.profiles.entries@, name, other);
        assert(other != name ==> added.profiles.at(other) == config.profiles.at(other));
    }
}

/// Removing a profile other than the default from a valid configuration leaves a valid one.
pub proof fn removing_keeps_validity(before: LightrailConfig, after: LightrailConfig, name: Seq<char>)
    requires
        config::config_issues(before).len() == 0,
        name != before.project.default_profile@,
        is_removed(after, before, name),
    ensures
        config::config_issues(after).len() == 0,
{
    validity::validation_is_exact(before);
    validity::validation_is_exact(after);
    let entries = before.profiles.entries@;
    let left = after.profiles.entries@;
    collections::lemma_without_entry_keeps(entries, name);
    assert(after.profiles.keys().contains(before.project.default_profile@));
    assert forall|i: int| 0 <= i < left.len() implies validity::is_valid_profile(
        (#[trigger] left[i]).0@,
        left[i].1,
        after.apps.keys(),
    ) by {
        assert(entries.contains(left[i]));
        let j = choose|j: int| 0 <= j < entries.len() && entries[j] == left[i];
        assert(validity::is_valid_profile(entries[j].0@, entries[j].1, before.apps.keys()));
    }
}

/// Making another profile the default of a valid configuration leaves a valid one.
pub proof fn redirecting_keeps_validity(before: LightrailConfig, after: LightrailConfig, name: Seq<char>)
    requires
        config::config_issues(before).len() == 0,
        before.profiles.at(name) is Some,
        is_redirected(after, before, name),
    ensures
        config::config_issues(after).len() == 0,
{
    validity::validation_is_exact(before);
    validity::validation_is_exact(after);
    let entries = before.profiles.entries@;
    collections::lemma_find_some(entries, name);
    collections::lemma_found_stands(entries, name);
    let k = choose|k: int|
        0 <= k < entries.len() && (#[trigger] entries[k]).0@ == name && entries[k].1 == before.profiles.at(
            name,
        )->0;
    assert(validity::is_valid_profile(entries[k].0@, entries[k].1, before.apps.keys()));
}

/// A copy of a valid profile is valid under a usable name.
proof fn lemma_copy_is_valid(
    name: Seq<char>,
    copy: Profile,
    other: Seq<char>,
    template: Profile,
    apps: Seq<Seq<char>>,
)
    requires
        config::same_profile(copy, template),
        validity::is_valid_profile(other, template, apps),
        validity::is_name(name),
    ensures
        validity::is_valid_profile(name, copy, apps),
{
    let a = value::entry_views(copy.settings.entries@);
    let b = value::entry_views(template.settings.entries@);
    assert(a.len() == b.len());
    assert(copy.settings.keys() =~= template.settings.keys()) by {
        assert forall|i: int| 0 <= i < a.len() implies copy.settings.keys()[i] == #[trigger] template.settings.keys()[i] by {
            assert(a[i] == b[i]);
        }
    }
    lemma_same_keys(copy.env.entries@, template.env.entries@);
    let selected = text::texts(copy.apps@);
    let x = config::override_views(copy.app_env.entries@);
    let y = config::override_views(template.app_env.entries@);
    assert(x.len() == y.len());
    assert forall|i: int| 0 <= i < copy.app_env.entries@.len() implies validity::is_valid_override(
        (#[trigger] copy.app_env.entries@[i]).0@,
        copy.app_env.entries@[i].1,
        selected,
        apps,
    ) by {
        assert(x[i] == y[i]);
        let entry = template.app_env.entries@[i];
        assert(validity::is_valid_override(entry.0@, entry.1, selected, apps));
        lemma_same_keys(copy.app_env.entries@[i].1.entries@, entry.1.entries@);
    }
}

/// Variables that say the same have the same names.
proof fn lemma_same_keys(a: Seq<(String, config::EnvironmentValue)>, b: Seq<(String, config::EnvironmentValue)>)
    requires
        config::variable_views(a) == config::variable_views(b),
    ensures
        collections::keys_of(a) == collections::keys_of(b),
{
    let x = config::variable_views(a);
    let y = config::variable_views(b);
    assert(x.len() == y.len());
    assert forall|i: int| 0 <= i < a.len() implies collections::keys_of(a)[i] == #[trigger] collections::keys_of(
        b,
    )[i] by {
        assert(x[i] == y[i]);
    }
    assert(collections::keys_of(a) =~= collections::keys_of(b));
}

/// Adding a copy of a profile under a usable name to a valid configuration leaves a valid one.
pub proof fn adding_keeps_validity(
    before: LightrailConfig,
    after: LightrailConfig,
    name: Seq<char>,
    template: Seq<char>,
)
    requires
        config::config_issues(before).len() == 0,
        before.profiles.at(name) is None,
        validity::is_name(name),
        is_added(after, before, name, template),
    ensures
        config::config_issues(after).len() == 0,
{
    validity::validation_is_exact(before);
    validity::validation_is_exact(after);
    let entries = before.profiles.entries@;
    let more = after.profiles.entries@;
    let default = before.project.default_profile@;
    let apps = before.apps.keys();
    collections::lemma_find_some(entries, default);
    assert(after.profiles.at(default) == before.profiles.at(default));
    collections::lemma_find_some(more, default);
    assert forall|i: int| 0 <= i < more.len() implies validity::is_valid_profile(
        (#[trigger] more[i]).0@,
        more[i].1,
        apps,
    ) by {
        let key = more[i].0@;
        collections::lemma_find_ordered(more, i);
        let source = if key == name {
            template
        } else {
            key
        };
        assert(after.profiles.at(key) is Some);
        if key != name {
            assert(after.profiles.at(key) == before.profiles.at(key));
        }
        collections::lemma_found_stands(entries, source);
        let k = choose|k: int|
            0 <= k < entries.len() && (#[trigger] entries[k]).0@ == source && entries[k].1
                == before.profiles.at(source)->0;
        assert(validity::is_valid_profile(entries[k].0@, entries[k].1, apps));
        if key == name {
            lemma_copy_is_valid(name, more[i].1, source, entries[k].1, apps);
        }
    }
}

/// The profile of the command line wins over that of the environment, which wins over the
/// project's default.
pub proof fn explicit_profiles_win(config: LightrailConfig, given: &str, other: &str, environment: Option<&str>)
    ensures
        selected_name(config, Some(given), environment) == given@,
        selected_name(config, None, Some(other)) == other@,
        selected_name(config, None, None) == config.project.default_profile@,
        template_of(config, Some(given)) == given@,
        template_of(config, None) == config.project.default_profile@,
{
}

/// Adding a profile, or making one the default, leaves the other profiles as they are; neither
/// these nor removing one changes the applications.
pub proof fn other_profiles_are_kept(
    before: LightrailConfig,
    after: LightrailConfig,
    name: Seq<char>,
    template: Seq<char>,
    other: Seq<char>,
)
    requires
        other != name,
    ensures
        is_added(after, before, name, template) ==> after.profiles.at(other) == before.profiles.at(other)
            && after.project == before.project && after.apps == before.apps,
        is_redirected(after, before, name) ==> after.profiles.at(other) == before.profiles.at(other)
            && after.project.default_profile@ == name && after.apps == before.apps && after.project.id
            == before.project.id && after.project.slug == before.project.slug,
        is_removed(after, before, name) ==> after.project == before.project && after.apps == before.apps,
{
}

/// The profile that is selected is the one of that name, and is the default one exactly where it
/// has the name of the default one.
pub proof fn selected_profiles_are_the_named_ones(selected: SelectedProfile, config: LightrailConfig, name: Seq<char>)
    requires
        is_selected(selected, config, name),
    ensures
        selected.name@ == name,
        selected.is_default <==> name == config.project.default_profile@,
        config.profiles.at(name) matches Some(profile) && selected.profile.isolation == profile.isolation
            && text::texts(selected.profile.apps@) == text::texts(profile.apps@)
            && selected.profile.pipeline.target@ == profile.pipeline.target@,
{
    let profile = config.profiles.at(name)->0;
    assert(selected.profile.pipeline.assigned(Capability::Target) == profile.pipeline.assigned(Capability::Target));
}

/// A listed profile is told as it is configured.
pub proof fn profiles_are_listed_as_configured(
    row: ProfileSummary,
    default_profile: Seq<char>,
    name: Seq<char>,
    profile: Profile,
)
    requires
        is_summary(row, default_profile, name, profile),
    ensures
        row.name@ == name,
        row.is_default <==> name == default_profile,
        row.isolation == profile.isolation,
        text::texts(row.apps@) == text::texts(profile.apps@),
        row.target_plugin@ == profile.pipeline.target@,
{
}

} // verus!
