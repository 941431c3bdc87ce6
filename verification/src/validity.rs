//! What it means that a configuration has no issues.

use vstd::prelude::*;

use crate::collections::{self, StringMap};
use crate::config::{
    self, is_environment_key_text, is_health_path, is_nil, is_semantic_name, is_service_name, names_capability,
    repeats_path, App, EnvironmentValue, LightrailConfig, Profile, Project, CONFIG_SCHEMA_VERSION,
};
use crate::path;
use crate::text;
use crate::validation::{IssueV, ValidationCode};

verus! {

/// A name that may be used.
pub open spec fn is_name(s: Seq<char>) -> bool {
    s.len() > 0 && is_semantic_name(s)
}

/// Names that environment variables may have.
pub open spec fn are_environment_keys(keys: Seq<Seq<char>>) -> bool {
    forall|i: int| 0 <= i < keys.len() ==> is_environment_key_text(#[trigger] keys[i])
}

/// Compose files that may be listed: plain relative paths, none of them twice.
pub open spec fn are_compose_files(paths: Seq<Seq<char>>) -> bool {
    forall|i: int|
        0 <= i < paths.len() ==> path::is_plain_relative(#[trigger] paths[i]) && !repeats_path(
            paths[i],
            paths.take(i),
        )
}

/// Project metadata without issues.
pub open spec fn is_valid_project(project: Project, profiles: Seq<Seq<char>>) -> bool {
    &&& !is_nil(project.id@)
    &&& is_name(project.slug@)
    &&& is_name(project.default_profile@)
    &&& profiles.contains(project.default_profile@)
    &&& project.compose@.len() > 0
    &&& are_compose_files(text::texts(project.compose@))
}

/// A health check without issues.
pub open spec fn is_valid_health(app: App) -> bool {
    &&& app.health_path matches Some(p) ==> is_health_path(p@)
    &&& app.health_status matches Some(s) ==> 100 <= s <= 599
    &&& app.health_interval_seconds != Some(0u64)
    &&& app.health_timeout_seconds != Some(0u64)
    &&& app.health_path is None ==> app.health_status is None && app.health_interval_seconds is None
        && app.health_timeout_seconds is None
}

/// An application without issues.
pub open spec fn is_valid_app(name: Seq<char>, app: App) -> bool {
    &&& is_name(name)
    &&& is_service_name(app.service@)
    &&& app.port != 0
    &&& is_valid_health(app)
    &&& are_environment_keys(app.env.keys())
}

/// A selection of applications that exist, each of them once.
pub open spec fn is_selection(selected: Seq<Seq<char>>, apps: Seq<Seq<char>>) -> bool {
    forall|i: int|
        0 <= i < selected.len() ==> apps.contains(#[trigger] selected[i]) && !selected.take(
            i,
        ).contains(selected[i])
}

/// Variables that are set for one application.
pub open spec fn is_valid_override(
    name: Seq<char>,
    env: StringMap<EnvironmentValue>,
    selected: Seq<Seq<char>>,
    apps: Seq<Seq<char>>,
) -> bool {
    apps.contains(name) && selected.contains(name) && are_environment_keys(env.keys())
}

/// A profile without issues.
pub open spec fn is_valid_profile(name: Seq<char>, profile: Profile, apps: Seq<Seq<char>>) -> bool {
    let selected = text::texts(profile.apps@);
    &&& is_name(name)
    &&& selected.len() > 0
    &&& is_selection(selected, apps)
    &&& forall|i: int|
        0 <= i < profile.settings.keys().len() ==> names_capability(
            #[trigger] profile.settings.keys()[i],
        )
    &&& are_environment_keys(profile.env.keys())
    &&& forall|i: int|
        0 <= i < profile.app_env.entries@.len() ==> is_valid_override(
            (#[trigger] profile.app_env.entries@[i]).0@,
            profile.app_env.entries@[i].1,
            selected,
            apps,
        )
}

/// A configuration without issues.
pub open spec fn is_valid(c: LightrailConfig) -> bool {
    &&& c.schema == CONFIG_SCHEMA_VERSION
    &&& is_valid_project(c.project, c.profiles.keys())
    &&& c.apps.entries@.len() > 0
    &&& c.profiles.entries@.len() > 0
    &&& forall|i: int|
        0 <= i < c.apps.entries@.len() ==> is_valid_app(
            (#[trigger] c.apps.entries@[i]).0@,
            c.apps.entries@[i].1,
        )
    &&& forall|i: int|
        0 <= i < c.profiles.entries@.len() ==> is_valid_profile(
            (#[trigger] c.profiles.entries@[i]).0@,
            c.profiles.entries@[i].1,
            c.apps.keys(),
        )
}

// ---------------------------------------------------------------------------
// Issues are added, and added exactly where something is wrong
// ---------------------------------------------------------------------------

/// Issues were kept, and none were added exactly where all is well.
pub open spec fn adds_unless(after: Seq<IssueV>, before: Seq<IssueV>, well: bool) -> bool {
    after.len() >= before.len() && (after.len() == before.len() <==> well)
}

proof fn lemma_environment(found: Seq<IssueV>, keys: Seq<Seq<char>>, base: Seq<char>)
    ensures
        adds_unless(config::environment_issues(found, keys, base), found, are_environment_keys(keys)),
    decreases keys.len(),
{
    if keys.len() > 0 {
        let front = keys.drop_last();
        lemma_environment(found, front, base);
        assert forall|i: int| 0 <= i < front.len() implies front[i] == #[trigger] keys[i] by {}
        if are_environment_keys(keys) {
            assert forall|i: int| 0 <= i < front.len() implies is_environment_key_text(
                #[trigger] front[i],
            ) by {
                assert(is_environment_key_text(keys[i]));
            }
            assert(is_environment_key_text(keys[keys.len() - 1]));
        }
        if are_environment_keys(front) && is_environment_key_text(keys.last()) {
            assert forall|i: int| 0 <= i < keys.len() implies is_environment_key_text(
                #[trigger] keys[i],
            ) by {
                if i < front.len() {
                    assert(is_environment_key_text(front[i]));
                }
            }
        }
    }
}

proof fn lemma_compose(found: Seq<IssueV>, paths: Seq<Seq<char>>)
    ensures
        adds_unless(config::compose_issues(found, paths), found, are_compose_files(paths)),
    decreases paths.len(),
{
    if paths.len() > 0 {
        let front = paths.drop_last();
        let last = paths.len() - 1;
        lemma_compose(found, front);
        assert(paths.take(last as int) =~= front);
        if are_compose_files(paths) {
            assert forall|i: int| 0 <= i < front.len() implies path::is_plain_relative(
                #[trigger] front[i],
            ) && !repeats_path(front[i], front.take(i)) by {
                assert(path::is_plain_relative(paths[i]));
                assert(front.take(i) =~= paths.take(i));
            }
            assert(path::is_plain_relative(paths[last as int]));
        }
        if are_compose_files(front) && path::is_plain_relative(paths.last()) && !repeats_path(
            paths.last(),
            front,
        ) {
            assert forall|i: int| 0 <= i < paths.len() implies path::is_plain_relative(
                #[trigger] paths[i],
            ) && !repeats_path(paths[i], paths.take(i)) by {
                if i < front.len() {
                    assert(path::is_plain_relative(front[i]));
                    assert(front.take(i) =~= paths.take(i));
                }
            }
        }
    }
}

proof fn lemma_project(found: Seq<IssueV>, project: Project, profiles: Seq<Seq<char>>)
    ensures
        adds_unless(
            config::project_issues(found, project, profiles),
            found,
            is_valid_project(project, profiles),
        ),
{
    let a = if is_nil(project.id@) {
        found.push(config::issue("project.id"@, ValidationCode::InvalidIdentifier, "project UUID must not be nil"@))
    } else {
        found
    };
    let b = config::name_issues(a, "project.slug"@, project.slug@);
    let c = config::name_issues(b, "project.default_profile"@, project.default_profile@);
    let d = if project.compose@.len() == 0 {
        c.push(config::issue("project.compose"@, ValidationCode::Empty, "at least one Compose file is required"@))
    } else {
        c
    };
    lemma_compose(d, text::texts(project.compose@));
}

proof fn lemma_app(found: Seq<IssueV>, name: Seq<char>, app: App)
    ensures
        adds_unless(config::app_issues(found, name, app), found, is_valid_app(name, app)),
{
    let base = "apps."@ + name;
    let a = config::name_issues(found, base + " (name)"@, name);
    let whole = config::app_issues(found, name, app);
    let b = if is_service_name(app.service@) {
        a
    } else {
        a.push(
            config::issue(
                base + ".service"@,
                ValidationCode::InvalidIdentifier,
                "service must begin with an ASCII letter or digit and contain only letters, digits, `.`, `_`, or `-`"@,
            ),
        )
    };
    let c = if app.port == 0 {
        b.push(
            config::issue(
                base + ".port"@,
                ValidationCode::InvalidPort,
                "internal app port must be between 1 and 65535"@,
            ),
        )
    } else {
        b
    };
    let d = config::health_issues(c, app, base);
    assert(adds_unless(d, c, is_valid_health(app)));
    lemma_environment(d, app.env.keys(), base + ".env"@);
    assert(whole == config::environment_issues(d, app.env.keys(), base + ".env"@));
}

proof fn lemma_apps(found: Seq<IssueV>, apps: Seq<(String, App)>)
    ensures
        adds_unless(
            config::each_app_issues(found, apps),
            found,
            forall|i: int|
                0 <= i < apps.len() ==> is_valid_app((#[trigger] apps[i]).0@, apps[i].1),
        ),
    decreases apps.len(),
{
    if apps.len() > 0 {
        let front = apps.drop_last();
        lemma_apps(found, front);
        lemma_app(config::each_app_issues(found, front), apps.last().0@, apps.last().1);
        if forall|i: int| 0 <= i < apps.len() ==> is_valid_app((#[trigger] apps[i]).0@, apps[i].1) {
            assert forall|i: int| 0 <= i < front.len() implies is_valid_app(
                (#[trigger] front[i]).0@,
                front[i].1,
            ) by {
                assert(is_valid_app(apps[i].0@, apps[i].1));
            }
            assert(is_valid_app(apps[apps.len() - 1].0@, apps[apps.len() - 1].1));
        }
        if (forall|i: int| 0 <= i < front.len() ==> is_valid_app((#[trigger] front[i]).0@, front[i].1))
            && is_valid_app(apps.last().0@, apps.last().1) {
            assert forall|i: int| 0 <= i < apps.len() implies is_valid_app(
                (#[trigger] apps[i]).0@,
                apps[i].1,
            ) by {
                if i < front.len() {
                    assert(is_valid_app(front[i].0@, front[i].1));
                }
            }
        }
    }
}

proof fn lemma_selection(found: Seq<IssueV>, base: Seq<char>, selected: Seq<Seq<char>>, apps: Seq<Seq<char>>)
    ensures
        adds_unless(
            config::selection_issues(found, base, selected, apps),
            found,
            is_selection(selected, apps),
        ),
    decreases selected.len(),
{
    if selected.len() > 0 {
        let front = selected.drop_last();
        let last = selected.len() - 1;
        lemma_selection(found, base, front, apps);
        assert(selected.take(last as int) =~= front);
        if is_selection(selected, apps) {
            assert forall|i: int| 0 <= i < front.len() implies apps.contains(#[trigger] front[i])
                && !front.take(i).contains(front[i]) by {
                assert(apps.contains(selected[i]));
                assert(front.take(i) =~= selected.take(i));
            }
            assert(apps.contains(selected[last as int]));
        }
        if is_selection(front, apps) && apps.contains(selected.last()) && !front.contains(
            selected.last(),
        ) {
            assert forall|i: int| 0 <= i < selected.len() implies apps.contains(
                #[trigger] selected[i],
            ) && !selected.take(i).contains(selected[i]) by {
                if i < front.len() {
                    assert(apps.contains(front[i]));
                    assert(front.take(i) =~= selected.take(i));
                }
            }
        }
    }
}

proof fn lemma_settings(found: Seq<IssueV>, base: Seq<char>, keys: Seq<Seq<char>>)
    ensures
        adds_unless(
            config::settings_issues(found, base, keys),
            found,
            forall|i: int| 0 <= i < keys.len() ==> names_capability(#[trigger] keys[i]),
        ),
    decreases keys.len(),
{
    if keys.len() > 0 {
        let front = keys.drop_last();
        lemma_settings(found, base, front);
        if forall|i: int| 0 <= i < keys.len() ==> names_capability(#[trigger] keys[i]) {
            assert forall|i: int| 0 <= i < front.len() implies names_capability(#[trigger] front[i]) by {
                assert(names_capability(keys[i]));
            }
            assert(names_capability(keys[keys.len() - 1]));
        }
        if (forall|i: int| 0 <= i < front.len() ==> names_capability(#[trigger] front[i]))
            && names_capability(keys.last()) {
            assert forall|i: int| 0 <= i < keys.len() implies names_capability(#[trigger] keys[i]) by {
                if i < front.len() {
                    assert(names_capability(front[i]));
                }
            }
        }
    }
}

proof fn lemma_override(
    found: Seq<IssueV>,
    base: Seq<char>,
    name: Seq<char>,
    env: StringMap<EnvironmentValue>,
    selected: Seq<Seq<char>>,
    apps: Seq<Seq<char>>,
)
    ensures
        adds_unless(
            config::override_issues(found, base, name, env, selected, apps),
            found,
            is_valid_override(name, env, selected, apps),
        ),
{
    let field = base + ".app_env."@ + name;
    let a = if !apps.contains(name) {
        found.push(
            config::issue(
                field,
                ValidationCode::MissingReference,
                "app `"@ + name + "` does not exist"@,
            ),
        )
    } else if !selected.contains(name) {
        found.push(
            config::issue(
                field,
                ValidationCode::MissingReference,
                "app `"@ + name + "` is not selected by this profile"@,
            ),
        )
    } else {
        found
    };
    lemma_environment(a, env.keys(), field);
}

proof fn lemma_overrides(
    found: Seq<IssueV>,
    base: Seq<char>,
    overrides: Seq<(String, StringMap<EnvironmentValue>)>,
    selected: Seq<Seq<char>>,
    apps: Seq<Seq<char>>,
)
    ensures
        adds_unless(
            config::overrides_issues(found, base, overrides, selected, apps),
            found,
            forall|i: int|
                0 <= i < overrides.len() ==> is_valid_override(
                    (#[trigger] overrides[i]).0@,
                    overrides[i].1,
                    selected,
                    apps,
                ),
        ),
    decreases overrides.len(),
{
    if overrides.len() > 0 {
        let front = overrides.drop_last();
        lemma_overrides(found, base, front, selected, apps);
        lemma_override(
            config::overrides_issues(found, base, front, selected, apps),
            base,
            overrides.last().0@,
            overrides.last().1,
            selected,
            apps,
        );
        if forall|i: int|
            0 <= i < overrides.len() ==> is_valid_override(
                (#[trigger] overrides[i]).0@,
                overrides[i].1,
                selected,
                apps,
            ) {
            assert forall|i: int| 0 <= i < front.len() implies is_valid_override(
                (#[trigger] front[i]).0@,
                front[i].1,
                selected,
                apps,
            ) by {
                assert(is_valid_override(overrides[i].0@, overrides[i].1, selected, apps));
            }
            let last = overrides.len() - 1;
            assert(is_valid_override(overrides[last].0@, overrides[last].1, selected, apps));
        }
        if (forall|i: int|
            0 <= i < front.len() ==> is_valid_override(
                (#[trigger] front[i]).0@,
                front[i].1,
                selected,
                apps,
            )) && is_valid_override(overrides.last().0@, overrides.last().1, selected, apps) {
            assert forall|i: int| 0 <= i < overrides.len() implies is_valid_override(
                (#[trigger] overrides[i]).0@,
                overrides[i].1,
                selected,
                apps,
            ) by {
                if i < front.len() {
                    assert(is_valid_override(front[i].0@, front[i].1, selected, apps));
                }
            }
        }
    }
}

proof fn lemma_profile(found: Seq<IssueV>, name: Seq<char>, profile: Profile, apps: Seq<Seq<char>>)
    ensures
        adds_unless(
            config::profile_issues(found, name, profile, apps),
            found,
            is_valid_profile(name, profile, apps),
        ),
{
    let base = "profiles."@ + name;
    let selected = text::texts(profile.apps@);
    let a = config::name_issues(found, base + " (name)"@, name);
    let b = if selected.len() == 0 {
        a.push(
            config::issue(
                base + ".apps"@,
                ValidationCode::Empty,
                "profile must select at least one public app"@,
            ),
        )
    } else {
        a
    };
    let c = config::selection_issues(b, base, selected, apps);
    let d = config::settings_issues(c, base, profile.settings.keys());
    let e = config::environment_issues(d, profile.env.keys(), base + ".env"@);
    lemma_selection(b, base, selected, apps);
    lemma_settings(c, base, profile.settings.keys());
    lemma_environment(d, profile.env.keys(), base + ".env"@);
    lemma_overrides(e, base, profile.app_env.entries@, selected, apps);
}

proof fn lemma_profiles(found: Seq<IssueV>, profiles: Seq<(String, Profile)>, apps: Seq<Seq<char>>)
    ensures
        adds_unless(
            config::each_profile_issues(found, profiles, apps),
            found,
            forall|i: int|
                0 <= i < profiles.len() ==> is_valid_profile(
                    (#[trigger] profiles[i]).0@,
                    profiles[i].1,
                    apps,
                ),
        ),
    decreases profiles.len(),
{
    if profiles.len() > 0 {
        let front = profiles.drop_last();
        lemma_profiles(found, front, apps);
        lemma_profile(
            config::each_profile_issues(found, front, apps),
            profiles.last().0@,
            profiles.last().1,
            apps,
        );
        if forall|i: int|
            0 <= i < profiles.len() ==> is_valid_profile(
                (#[trigger] profiles[i]).0@,
                profiles[i].1,
                apps,
            ) {
            assert forall|i: int| 0 <= i < front.len() implies is_valid_profile(
                (#[trigger] front[i]).0@,
                front[i].1,
                apps,
            ) by {
                assert(is_valid_profile(profiles[i].0@, profiles[i].1, apps));
            }
            let last = profiles.len() - 1;
            assert(is_valid_profile(profiles[last].0@, profiles[last].1, apps));
        }
        if (forall|i: int|
            0 <= i < front.len() ==> is_valid_profile((#[trigger] front[i]).0@, front[i].1, apps))
            && is_valid_profile(profiles.last().0@, profiles.last().1, apps) {
            assert forall|i: int| 0 <= i < profiles.len() implies is_valid_profile(
                (#[trigger] profiles[i]).0@,
                profiles[i].1,
                apps,
            ) by {
                if i < front.len() {
                    assert(is_valid_profile(front[i].0@, front[i].1, apps));
                }
            }
        }
    }
}

// ---------------------------------------------------------------------------
// Validity
// ---------------------------------------------------------------------------

/// A configuration is accepted exactly where all of it is well: every part is checked, and
/// no part is rejected for anything else.
pub proof fn validation_is_exact(c: LightrailConfig)
    ensures
        config::config_issues(c).len() == 0 <==> is_valid(c),
{
    let a: Seq<IssueV> = if c.schema != CONFIG_SCHEMA_VERSION {
        seq![
            config::issue(
                "schema"@,
                ValidationCode::UnsupportedSchema,
                "schema "@ + text::decimal(c.schema as nat) + " is unsupported; expected 1"@,
            ),
        ]
    } else {
        Seq::empty()
    };
    let b = config::project_issues(a, c.project, c.profiles.keys());
    lemma_project(a, c.project, c.profiles.keys());
    let apps = c.apps.entries@;
    let listed = if apps.len() == 0 {
        b.push(
            config::issue(
                "apps"@,
                ValidationCode::Empty,
                "at least one public app is required"@,
            ),
        )
    } else {
        b
    };
    lemma_apps(listed, apps);
    let d = config::apps_issues(b, apps);
    let profiles = c.profiles.entries@;
    let kept = if profiles.len() == 0 {
        d.push(
            config::issue(
                "profiles"@,
                ValidationCode::Empty,
                "at least one profile is required"@,
            ),
        )
    } else {
        d
    };
    lemma_profiles(kept, profiles, c.apps.keys());
}

/// In an accepted configuration the default profile exists, and so does every application
/// that a profile selects.
pub proof fn references_resolve(c: LightrailConfig, profile: Seq<char>, i: int)
    requires
        config::config_issues(c).len() == 0,
        c.profiles.at(profile) is Some,
        0 <= i < c.profiles.at(profile)->0.apps@.len(),
    ensures
        c.profiles.at(c.project.default_profile@) is Some,
        c.apps.at(c.profiles.at(profile)->0.apps@[i]@) is Some,
{
    validation_is_exact(c);
    collections::lemma_find_some(c.profiles.entries@, c.project.default_profile@);
    collections::lemma_find_some(c.profiles.entries@, profile);
    collections::lemma_found_stands(c.profiles.entries@, profile);
    let k = choose|k: int|
        0 <= k < c.profiles.entries@.len() && (#[trigger] c.profiles.entries@[k]).0@ == profile
            && c.profiles.entries@[k].1 == c.profiles.at(profile)->0;
    let found = c.profiles.entries@[k].1;
    assert(is_valid_profile(c.profiles.entries@[k].0@, found, c.apps.keys()));
    let selected = text::texts(found.apps@);
    assert(c.apps.keys().contains(selected[i]));
    collections::lemma_find_some(c.apps.entries@, selected[i]);
}

} // verus!
