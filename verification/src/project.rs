//! A project with its configuration, checkout and selected profile.

use vstd::prelude::*;

use crate::collections;
use crate::collections::{StringMap, StringSet};
use crate::config;
use crate::config::{App, Capability, EnvironmentValue, EnvironmentValueV, LightrailConfig, Profile};
use crate::error::{CliError, CliErrorV};
use crate::git::GitContext;
use crate::identity;
use crate::identity::{EnvironmentIdentity, IdentityV};
use crate::outside;
use crate::path;
use crate::protocol;
use crate::text;
use crate::value;
use crate::value::{Data, DataV};
use crate::view;
use crate::workspace::ProjectPaths;

verus! {

/// A project with its configuration, checkout and selected profile.
#[derive(Debug)]
pub struct LoadedProject {
    pub paths: ProjectPaths,
    pub config: LightrailConfig,
    pub profile_name: String,
    pub git: GitContext,
    pub identity: EnvironmentIdentity,
}

/// The profile that is selected: by name, else the default.
pub open spec fn selected_profile(selected: Option<&str>, config: LightrailConfig) -> Seq<char> {
    match selected {
        Some(name) => name@,
        None => config.project.default_profile@,
    }
}

impl LoadedProject {
    /// The selected profile exists, and the identity is that of project, profile and branch.
    pub open spec fn wf(self) -> bool {
        &&& self.config.profiles.at(self.profile_name@) is Some
        &&& self.identity@ == (IdentityV {
            project_id: self.config.project.id@,
            project: self.config.project.slug@,
            profile: self.profile_name@,
            branch: self.git@.branch,
        })
    }

    /// The selected profile.
    pub open spec fn selected(self) -> Profile {
        self.config.profiles.at(self.profile_name@)->0
    }

    /// The identifier of the environment.
    pub open spec fn environment(self) -> Seq<char> {
        identity::environment_id_text(
            self.config.project.id@,
            self.profile_name@,
            self.git@.branch,
        )
    }

    /// Puts a project together. The two roots are canonical.
    ///
    /// # Errors
    ///
    /// Returns an error where the configuration is not at the root of the worktree, the
    /// profile does not exist, or the environment cannot be named.
    pub fn load(
        paths: ProjectPaths,
        config: LightrailConfig,
        git: GitContext,
        project_root: &str,
        repository_root: &str,
        selected: Option<&str>,
    ) -> (r: Result<LoadedProject, CliError>)
        ensures
            ({
                let name = selected_profile(selected, config);
                let problem = identity::identity_problem(
                    config.project.id@,
                    config.project.slug@,
                    name,
                    git@.branch,
                );
                match r {
                    Ok(project) => {
                        &&& path::components(project_root@) == path::components(repository_root@)
                        &&& config.profiles.at(name) is Some
                        &&& problem is None
                        &&& project.wf()
                        &&& project.paths == paths
                        &&& project.config == config
                        &&& project.profile_name@ == name
                        &&& project.git == git
                    },
                    Err(e) => if path::components(project_root@) != path::components(repository_root@) {
                        e@ == CliErrorV::Config(
                            paths.config@ + " must be at the current Git worktree root ("@
                                + repository_root@ + ")"@,
                        )
                    } else if config.profiles.at(name) is None {
                        e@ == CliErrorV::Config("profile `"@ + name + "` does not exist"@)
                    } else {
                        problem matches Some(detail) && e@ == CliErrorV::Config(detail)
                    },
                }
            }),
    {
        if !path::same_path(project_root, repository_root) {
            return Err(
                CliError::Config(
                    text::cat4(
                        paths.config.as_str(),
                        " must be at the current Git worktree root (",
                        repository_root,
                        ")",
                    ),
                ),
            );
        }
        let profile_name = match selected {
            Some(name) => name.to_owned(),
            None => config.project.default_profile.clone(),
        };
        if !config.profiles.contains_key(profile_name.as_str()) {
            return Err(
                CliError::Config(text::cat3("profile `", profile_name.as_str(), "` does not exist")),
            );
        }
        match EnvironmentIdentity::from_git(&config.project, profile_name.as_str(), &git) {
            Err(e) => Err(CliError::Config(e.message())),
            Ok(identity) => Ok(LoadedProject { paths, config, profile_name, git, identity }),
        }
    }

    /// The selected profile.
    pub fn profile(&self) -> (r: &Profile)
        requires
            self.wf(),
        ensures
            *r == self.selected(),
    {
        match self.config.profile(self.profile_name.as_str()) {
            Some(profile) => profile,
            None => {
                assert(false);
                &self.config.profiles.entries[0].1
            },
        }
    }

    /// The plugin that fills a capability.
    pub fn plugin_id(&self, capability: Capability) -> (r: &str)
        requires
            self.wf(),
        ensures
            r@ == self.selected().pipeline.assigned(capability),
    {
        self.profile().pipeline.plugin(capability).as_str()
    }

    /// The settings of a capability as they go to a plugin: an empty table where there are
    /// none.
    pub open spec fn configured(self, capability: Capability) -> DataV {
        match self.selected().settings.at(capability.text()) {
            Some(settings) => value::json_of(settings@),
            None => DataV::Object(Seq::empty()),
        }
    }

    /// The settings of a capability as they go to a plugin.
    pub fn capability_config(&self, capability: Capability) -> (r: Result<Data, CliError>)
        requires
            self.wf(),
        ensures
            r matches Ok(v) && v@ == self.configured(capability),
    {
        match self.profile().settings_json(capability) {
            Ok(Some(v)) => Ok(v),
            Ok(None) => Ok(Data::object()),
            Err(e) => Err(CliError::Config(e.0)),
        }
    }
}

// ---------------------------------------------------------------------------
// Environment variables
// ---------------------------------------------------------------------------

/// The value of an environment variable as it goes to a plugin.
pub open spec fn variable_value(v: EnvironmentValueV) -> DataV {
    match v {
        EnvironmentValueV::Literal(s) => DataV::Str(s),
        EnvironmentValueV::Secret(name) => DataV::Object(seq![("secret"@, DataV::Str(name))]),
    }
}

/// The value of an environment variable as it goes to a plugin.
fn variable_data(v: &EnvironmentValue) -> (r: Data)
    ensures
        r@ == variable_value(v@),
{
    broadcast use value::lemma_object_view;

    match v {
        EnvironmentValue::Literal(s) => Data::text(s.as_str()),
        EnvironmentValue::Secret(reference) => {
            let mut entries: Vec<(String, Data)> = Vec::new();
            entries.push(("secret".to_owned(), Data::text(reference.secret.as_str())));
            assert(value::entry_views(entries@) =~= seq![("secret"@, DataV::Str(reference.secret@))]);
            Data::Object(entries)
        },
    }
}

/// Environment variables as they go to a plugin.
pub open spec fn variables(entries: Seq<(String, EnvironmentValue)>) -> Seq<(Seq<char>, DataV)> {
    Seq::new(entries.len(), |i: int| (entries[i].0@, variable_value(entries[i].1@)))
}

/// Named values with others laid over them.
pub open spec fn put_all(base: Seq<(Seq<char>, DataV)>, over: Seq<(Seq<char>, DataV)>) -> Seq<(Seq<char>, DataV)>
    decreases over.len(),
{
    if over.len() == 0 {
        base
    } else {
        value::put(put_all(base, over.drop_last()), over.last().0, over.last().1)
    }
}

/// The variables of an application: its own, those of the profile over them, and those that
/// the profile sets for this application over both.
pub open spec fn app_variables(profile: Profile, name: Seq<char>, app: App) -> Seq<(Seq<char>, DataV)> {
    let shared = put_all(variables(app.env.entries@), variables(profile.env.entries@));
    match profile.app_env.at(name) {
        Some(own) => put_all(shared, variables(own.entries@)),
        None => shared,
    }
}

/// A variable that is set is found as it goes to a plugin.
proof fn lemma_variables_insert(entries: Seq<(String, EnvironmentValue)>, key: String, v: EnvironmentValue)
    ensures
        variables(collections::with_entry(entries, key, v)) == value::put(
            variables(entries),
            key@,
            variable_value(v@),
        ),
{
    assert(collections::keys_of(entries) =~= value::names_of(variables(entries)));
    collections::lemma_slot(collections::keys_of(entries), key@);
    assert(variables(collections::with_entry(entries, key, v)) =~= value::put(
        variables(entries),
        key@,
        variable_value(v@),
    ));
}

/// Lays variables over others.
fn extend(map: &mut StringMap<EnvironmentValue>, over: &StringMap<EnvironmentValue>)
    requires
        old(map).wf(),
    ensures
        final(map).wf(),
        variables(final(map).entries@) == put_all(
            variables(old(map).entries@),
            variables(over.entries@),
        ),
{
    let ghost base = variables(map.entries@);
    let ghost all = variables(over.entries@);
    let mut i: usize = 0;
    assert(all.take(0) =~= Seq::<(Seq<char>, DataV)>::empty());
    while i < over.entries.len()
        invariant
            i <= over.entries@.len(),
            map.wf(),
            all == variables(over.entries@),
            variables(map.entries@) == put_all(base, all.take(i as int)),
        decreases over.entries.len() - i,
    {
        let entry = &over.entries[i];
        let key = entry.0.clone();
        let v = entry.1.clone();
        proof {
            assert(all.take(i + 1).drop_last() =~= all.take(i as int));
            assert(all.take(i + 1).last() == (key@, variable_value(v@)));
            lemma_variables_insert(map.entries@, key, v);
        }
        map.insert(key, v);
        i += 1;
    }
    assert(all.take(all.len() as int) =~= all);
}

/// Merges the variables of an application.
pub fn merged_app_environment(profile: &Profile, app_name: &str, app: &App) -> (r: StringMap<EnvironmentValue>)
    requires
        app.env.wf(),
    ensures
        r.wf(),
        variables(r.entries@) == app_variables(*profile, app_name@, *app),
{
    let mut entries: Vec<(String, EnvironmentValue)> = Vec::new();
    let mut i: usize = 0;
    while i < app.env.entries.len()
        invariant
            i <= app.env.entries@.len(),
            entries@.len() == i,
            forall|k: int|
                0 <= k < i ==> (#[trigger] entries@[k]).0@ == app.env.entries@[k].0@ && entries@[k].1@
                    == app.env.entries@[k].1@,
        decreases app.env.entries.len() - i,
    {
        entries.push((app.env.entries[i].0.clone(), app.env.entries[i].1.clone()));
        i += 1;
    }
    assert(collections::keys_of(entries@) =~= collections::keys_of(app.env.entries@));
    assert(variables(entries@) =~= variables(app.env.entries@));
    let mut map = StringMap { entries };
    extend(&mut map, &profile.env);
    if let Some(own) = profile.app_env.get(app_name) {
        extend(&mut map, own);
    }
    map
}

/// What is laid over other values wins; the rest stays.
pub proof fn lemma_put_all(base: Seq<(Seq<char>, DataV)>, over: Seq<(Seq<char>, DataV)>, key: Seq<char>)
    requires
        value::in_order(over),
    ensures
        value::lookup(put_all(base, over), key) == match value::lookup(over, key) {
            Some(v) => Some(v),
            None => value::lookup(base, key),
        },
    decreases over.len(),
{
    if over.len() > 0 {
        let fewer = over.drop_last();
        let (name, v) = over.last();
        let names = value::names_of(over);
        assert(value::names_of(fewer) =~= names.drop_last());
        assert(value::in_order(fewer));
        lemma_put_all(base, fewer, key);
        value::lemma_lookup_last(over, key);
        if key == name {
            value::lemma_put_found(put_all(base, fewer), name, v);
            assert forall|i: int| 0 <= i < fewer.len() implies (#[trigger] fewer[i]).0 != name by {
                assert(text::text_lt(names[i], names[over.len() - 1]));
                text::lemma_text_lt_irreflexive(name);
            }
            value::lemma_lookup_absent(fewer, name);
        } else {
            value::lemma_put_kept(put_all(base, fewer), name, v, key);
        }
    }
}

/// A variable that the profile sets for an application wins over one that the profile sets
/// for all, which wins over one of the application itself.
pub proof fn variable_precedence(profile: Profile, name: Seq<char>, app: App, key: Seq<char>)
    requires
        profile.env.wf(),
        profile.app_env.at(name) matches Some(own) ==> own.wf(),
    ensures
        value::lookup(app_variables(profile, name, app), key) == ({
            let shared = match value::lookup(variables(profile.env.entries@), key) {
                Some(v) => Some(v),
                None => value::lookup(variables(app.env.entries@), key),
            };
            match profile.app_env.at(name) {
                Some(own) => match value::lookup(variables(own.entries@), key) {
                    Some(v) => Some(v),
                    None => shared,
                },
                None => shared,
            }
        }),
{
    let base = variables(app.env.entries@);
    assert(value::names_of(variables(profile.env.entries@)) =~= collections::keys_of(profile.env.entries@));
    lemma_put_all(base, variables(profile.env.entries@), key);
    if let Some(own) = profile.app_env.at(name) {
        assert(value::names_of(variables(own.entries@)) =~= collections::keys_of(own.entries@));
        lemma_put_all(put_all(base, variables(profile.env.entries@)), variables(own.entries@), key);
    }
}

// ---------------------------------------------------------------------------
// What is desired
// ---------------------------------------------------------------------------

/// A number that may be there as a value.
pub open spec fn number_or_null(n: Option<u64>) -> DataV {
    match n {
        Some(n) => DataV::Integer(n as int),
        None => DataV::Null,
    }
}

/// A number that may be there as a value.
fn nullable_number(n: Option<u64>) -> (r: Data)
    ensures
        r@ == number_or_null(n),
{
    match n {
        Some(n) => Data::Integer(n as i128),
        None => Data::Null,
    }
}

/// A status code that may be there.
pub open spec fn wide(n: Option<u16>) -> Option<u64> {
    match n {
        Some(n) => Some(n as u64),
        None => None,
    }
}

/// What is desired of an application.
pub open spec fn desired_app(profile: Profile, name: Seq<char>, app: App) -> DataV {
    DataV::Object(
        seq![
            ("environment"@, DataV::Object(app_variables(profile, name, app))),
            ("health_interval_seconds"@, number_or_null(app.health_interval_seconds)),
            ("health_path"@, view::text_or_null(text::option_of(app.health_path))),
            ("health_status"@, number_or_null(wide(app.health_status))),
            ("health_timeout_seconds"@, number_or_null(app.health_timeout_seconds)),
            ("name"@, DataV::Str(name)),
            ("port"@, DataV::Integer(app.port as int)),
            ("service"@, DataV::Str(app.service@)),
        ],
    )
}

/// What is desired of the selected applications that are configured.
pub open spec fn desired_apps(config: LightrailConfig, profile: Profile, names: Seq<Seq<char>>) -> Seq<DataV>
    decreases names.len(),
{
    if names.len() == 0 {
        Seq::empty()
    } else {
        let before = desired_apps(config, profile, names.drop_last());
        match config.apps.at(names.last()) {
            Some(app) => before.push(desired_app(profile, names.last(), app)),
            None => before,
        }
    }
}

/// Labels as named values.
pub open spec fn label_entries(labels: Seq<(Seq<char>, Seq<char>)>) -> Seq<(Seq<char>, DataV)> {
    Seq::new(labels.len(), |i: int| (labels[i].0, DataV::Str(labels[i].1)))
}

/// What is desired of a project's environment, whatever its target.
pub open spec fn desired(project: LoadedProject) -> DataV {
    let profile = project.selected();
    let c = project.config;
    DataV::Object(
        seq![
            ("apps"@, DataV::Array(desired_apps(c, profile, text::texts(profile.apps@)))),
            (
                "environment"@,
                DataV::Object(
                    seq![
                        ("branch"@, DataV::Str(project.git@.branch)),
                        ("commit"@, view::text_or_null(project.git@.commit)),
                        ("dirty"@, DataV::Bool(project.git@.dirty)),
                        ("id"@, DataV::Str(project.environment())),
                        ("isolation"@, DataV::Str(profile.isolation.text())),
                        (
                            "labels"@,
                            DataV::Object(label_entries(identity::labels_of(project.identity@))),
                        ),
                        ("profile"@, DataV::Str(project.profile_name@)),
                    ],
                ),
            ),
            (
                "project"@,
                DataV::Object(
                    seq![
                        ("compose"@, protocol::text_items(text::texts(c.project.compose@))),
                        ("id"@, DataV::Str(outside::uuid_text(c.project.id@))),
                        ("root"@, DataV::Str(project.paths.root@)),
                        ("slug"@, DataV::Str(c.project.slug@)),
                    ],
                ),
            ),
            ("schema"@, DataV::Integer(1)),
        ],
    )
}

/// What is desired of an application.
fn desired_app_data(profile: &Profile, name: &str, app: &App) -> (r: Data)
    requires
        app.env.wf(),
    ensures
        r@ == desired_app(*profile, name@, *app),
{
    broadcast use value::lemma_object_view;

    let merged = merged_app_environment(profile, name, app);
    let mut environment: Vec<(String, Data)> = Vec::new();
    let mut i: usize = 0;
    while i < merged.entries.len()
        invariant
            i <= merged.entries@.len(),
            environment@.len() == i,
            forall|k: int|
                0 <= k < i ==> (#[trigger] environment@[k]).0@ == merged.entries@[k].0@ && environment@[k].1@
                    == variable_value(merged.entries@[k].1@),
        decreases merged.entries.len() - i,
    {
        environment.push((merged.entries[i].0.clone(), variable_data(&merged.entries[i].1)));
        i += 1;
    }
    assert(value::entry_views(environment@) =~= variables(merged.entries@));
    let status: Option<u64> = match app.health_status {
        Some(n) => Some(n as u64),
        None => None,
    };
    let mut out: Vec<(String, Data)> = Vec::new();
    out.push(("environment".to_owned(), Data::Object(environment)));
    out.push(("health_interval_seconds".to_owned(), nullable_number(app.health_interval_seconds)));
    out.push(("health_path".to_owned(), view::nullable(&app.health_path)));
    out.push(("health_status".to_owned(), nullable_number(status)));
    out.push(("health_timeout_seconds".to_owned(), nullable_number(app.health_timeout_seconds)));
    out.push(("name".to_owned(), Data::text(name)));
    out.push(("port".to_owned(), Data::Integer(app.port as i128)));
    out.push(("service".to_owned(), Data::text(app.service.as_str())));
    assert(value::entry_views(out@) =~= desired_app(*profile, name@, *app)->Object_0);
    Data::Object(out)
}

/// The variables of applications stand in maps.
pub open spec fn apps_wf(config: LightrailConfig) -> bool {
    forall|name: Seq<char>| #[trigger] config.apps.at(name) matches Some(app) ==> app.env.wf()
}

impl LoadedProject {
    /// What is desired of the selected applications.
    fn desired_app_list(&self) -> (r: Vec<Data>)
        requires
            self.wf(),
            apps_wf(self.config),
        ensures
            value::item_views(r@) == desired_apps(
                self.config,
                self.selected(),
                text::texts(self.selected().apps@),
            ),
    {
        let profile = self.profile();
        let ghost names = text::texts(profile.apps@);
        let mut out: Vec<Data> = Vec::new();
        let mut i: usize = 0;
        assert(names.take(0) =~= Seq::<Seq<char>>::empty());
        assert(value::item_views(out@) =~= Seq::<DataV>::empty());
        while i < profile.apps.len()
            invariant
                i <= profile.apps@.len(),
                apps_wf(self.config),
                names == text::texts(profile.apps@),
                value::item_views(out@) == desired_apps(self.config, *profile, names.take(i as int)),
            decreases profile.apps.len() - i,
        {
            let name = profile.apps[i].as_str();
            let ghost before = out@;
            proof {
                assert(names.take(i + 1).drop_last() =~= names.take(i as int));
                assert(names.take(i + 1).last() == name@);
            }
            if let Some(app) = self.config.app(name) {
                assert(self.config.apps.at(name@) == Some(*app));
                let v = desired_app_data(profile, name, app);
                out.push(v);
                assert(value::item_views(out@) =~= value::item_views(before).push(v@));
            }
            i += 1;
        }
        assert(names.take(names.len() as int) =~= names);
        out
    }

    /// The labels of the environment as named values.
    pub fn label_data(&self) -> (r: Data)
        ensures
            r@ == DataV::Object(label_entries(identity::labels_of(self.identity@))),
    {
        broadcast use value::lemma_object_view;

        let labels = self.identity.resource_labels();
        let ghost model = identity::labels_of(self.identity@);
        let mut out: Vec<(String, Data)> = Vec::new();
        let mut i: usize = 0;
        while i < labels.len()
            invariant
                i <= labels@.len(),
                labels@.len() == 6,
                model.len() == 6,
                forall|k: int|
                    0 <= k < 6 ==> (#[trigger] labels@[k]).0@ == model[k].0 && labels@[k].1@ == model[k].1,
                out@.len() == i,
                forall|k: int|
                    0 <= k < i ==> (#[trigger] out@[k]).0@ == model[k].0 && out@[k].1@ == DataV::Str(
                        model[k].1,
                    ),
            decreases labels.len() - i,
        {
            assert(labels@[i as int].0@ == model[i as int].0);
            out.push((labels[i].0.to_owned(), Data::text(labels[i].1.as_str())));
            i += 1;
        }
        assert(value::entry_views(out@) =~= label_entries(model));
        Data::Object(out)
    }

    /// What is desired of the environment, whatever its target.
    pub fn base_desired(&self) -> (r: Data)
        requires
            self.wf(),
            apps_wf(self.config),
        ensures
            r@ == desired(*self),
    {
        broadcast use {value::lemma_object_view, value::lemma_array_view};

        let profile = self.profile();
        let apps = self.desired_app_list();
        let mut environment: Vec<(String, Data)> = Vec::new();
        environment.push(("branch".to_owned(), Data::text(self.git.branch())));
        let commit = match self.git.commit() {
            Some(s) => Data::text(s),
            None => Data::Null,
        };
        environment.push(("commit".to_owned(), commit));
        environment.push(("dirty".to_owned(), Data::Bool(self.git.is_dirty())));
        environment.push(("id".to_owned(), Data::text(self.identity.id().as_str())));
        environment.push(("isolation".to_owned(), Data::text(profile.isolation.as_str())));
        environment.push(("labels".to_owned(), self.label_data()));
        environment.push(("profile".to_owned(), Data::text(self.profile_name.as_str())));
        let mut project: Vec<(String, Data)> = Vec::new();
        project.push(("compose".to_owned(), protocol::text_list(&self.config.project.compose)));
        project.push(("id".to_owned(), Data::text(self.config.project.id.hyphenated().as_str())));
        project.push(("root".to_owned(), Data::text(self.paths.root.as_str())));
        project.push(("slug".to_owned(), Data::text(self.config.project.slug.as_str())));
        let ghost model = desired(*self)->Object_0;
        assert(value::entry_views(environment@) =~= model[1].1->Object_0);
        assert(value::entry_views(project@) =~= model[2].1->Object_0);
        let mut out: Vec<(String, Data)> = Vec::new();
        out.push(("apps".to_owned(), Data::Array(apps)));
        out.push(("environment".to_owned(), Data::Object(environment)));
        out.push(("project".to_owned(), Data::Object(project)));
        out.push(("schema".to_owned(), Data::Integer(1)));
        assert(value::entry_views(out@) =~= model);
        Data::Object(out)
    }
}

// ---------------------------------------------------------------------------
// Secrets
// ---------------------------------------------------------------------------

/// Whether variables refer to a secret.
pub open spec fn variables_refer(entries: Seq<(String, EnvironmentValue)>, name: Seq<char>) -> bool {
    exists|i: int| 0 <= i < entries.len() && (#[trigger] entries[i]).1@ == EnvironmentValueV::Secret(name)
}

/// Whether an application of a profile refers to a secret.
pub open spec fn app_refers(config: LightrailConfig, profile: Profile, app: Seq<char>, name: Seq<char>) -> bool {
    ||| config.apps.at(app) matches Some(a) && variables_refer(a.env.entries@, name)
    ||| profile.app_env.at(app) matches Some(own) && variables_refer(own.entries@, name)
}

/// Whether the first `n` applications of a profile refer to a secret.
pub open spec fn apps_refer(config: LightrailConfig, profile: Profile, n: int, name: Seq<char>) -> bool {
    exists|i: int| 0 <= i < n && app_refers(config, profile, (#[trigger] profile.apps@[i])@, name)
}

/// Whether the first `n` settings of a profile refer to a secret.
pub open spec fn settings_refer(entries: Seq<(String, Data)>, n: int, name: Seq<char>) -> bool {
    exists|i: int| 0 <= i < n && value::mentions(value::json_of((#[trigger] entries[i]).1@), name)
}

/// Whether a profile refers to a secret.
pub open spec fn profile_refers(config: LightrailConfig, profile: Profile, name: Seq<char>) -> bool {
    ||| variables_refer(profile.env.entries@, name)
    ||| apps_refer(config, profile, profile.apps@.len() as int, name)
    ||| settings_refer(profile.settings.entries@, profile.settings.entries@.len() as int, name)
}

/// Adds the names of the secrets that variables refer to.
fn collect_environment_secrets(map: &StringMap<EnvironmentValue>, names: &mut StringSet)
    requires
        old(names).wf(),
    ensures
        final(names).wf(),
        forall|t: Seq<char>| #[trigger]
            final(names)@.contains(t) <==> old(names)@.contains(t) || variables_refer(map.entries@, t),
{
    let ghost start = names@;
    let mut i: usize = 0;
    while i < map.entries.len()
        invariant
            i <= map.entries@.len(),
            names.wf(),
            forall|t: Seq<char>| #[trigger]
                names@.contains(t) <==> start.contains(t) || (exists|k: int|
                    0 <= k < i && (#[trigger] map.entries@[k]).1@ == EnvironmentValueV::Secret(t)),
        decreases map.entries.len() - i,
    {
        let ghost before = names@;
        let v = &map.entries[i].1;
        if let Some(name) = v.secret_name() {
            let owned = name.as_str().to_owned();
            proof {
                collections::lemma_with_text(before, owned@);
            }
            names.insert(owned);
        }
        proof {
            assert forall|t: Seq<char>| #[trigger] names@.contains(t) <==> start.contains(t) || (exists|k: int|
                0 <= k < i + 1 && (#[trigger] map.entries@[k]).1@ == EnvironmentValueV::Secret(t)) by {
                assert(names@.contains(t) <==> before.contains(t) || v@ == EnvironmentValueV::Secret(t));
                if v@ == EnvironmentValueV::Secret(t) {
                    assert(map.entries@[i as int].1@ == EnvironmentValueV::Secret(t));
                }
            }
        }
        i += 1;
    }
}

impl LoadedProject {
    /// The names of all secrets that the selected profile refers to.
    pub fn referenced_secrets(&self) -> (r: StringSet)
        requires
            self.wf(),
        ensures
            r.wf(),
            forall|name: Seq<char>| #[trigger]
                r@.contains(name) <==> profile_refers(self.config, self.selected(), name),
    {
        let profile = self.profile();
        let mut names = StringSet::new();
        collect_environment_secrets(&profile.env, &mut names);
        let ghost shared = names@;
        let mut i: usize = 0;
        while i < profile.apps.len()
            invariant
                i <= profile.apps@.len(),
                names.wf(),
                forall|t: Seq<char>| #[trigger]
                    names@.contains(t) <==> shared.contains(t) || apps_refer(
                        self.config,
                        *profile,
                        i as int,
                        t,
                    ),
            decreases profile.apps.len() - i,
        {
            let ghost before = names@;
            let app_name = profile.apps[i].as_str();
            if let Some(app) = self.config.app(app_name) {
                collect_environment_secrets(&app.env, &mut names);
            }
            if let Some(own) = profile.app_env.get(app_name) {
                collect_environment_secrets(own, &mut names);
            }
            proof {
                assert forall|t: Seq<char>| #[trigger]
                    names@.contains(t) <==> shared.contains(t) || apps_refer(
                    self.config,
                    *profile,
                    i + 1,
                    t,
                ) by {
                    assert(names@.contains(t) <==> before.contains(t) || app_refers(
                        self.config,
                        *profile,
                        app_name@,
                        t,
                    ));
                    if app_refers(self.config, *profile, app_name@, t) {
                        assert(app_refers(self.config, *profile, profile.apps@[i as int]@, t));
                    }
                    if apps_refer(self.config, *profile, i as int, t) {
                        let k = choose|k: int|
                            0 <= k < i && app_refers(
                                self.config,
                                *profile,
                                (#[trigger] profile.apps@[k])@,
                                t,
                            );
                        assert(app_refers(self.config, *profile, profile.apps@[k]@, t));
                    }
                }
            }
            i += 1;
        }
        let ghost named = names@;
        let mut i: usize = 0;
        while i < profile.settings.entries.len()
            invariant
                i <= profile.settings.entries@.len(),
                names.wf(),
                forall|t: Seq<char>| #[trigger]
                    names@.contains(t) <==> named.contains(t) || settings_refer(
                        profile.settings.entries@,
                        i as int,
                        t,
                    ),
            decreases profile.settings.entries.len() - i,
        {
            let ghost before = names@;
            let v = value::to_json(&profile.settings.entries[i].1);
            value::collect_secret_references(&v, &mut names);
            proof {
                let entries = profile.settings.entries@;
                assert forall|t: Seq<char>| #[trigger]
                    names@.contains(t) <==> named.contains(t) || settings_refer(entries, i + 1, t) by {
                    assert(names@.contains(t) <==> before.contains(t) || value::mentions(v@, t));
                    if value::mentions(v@, t) {
                        assert(value::mentions(value::json_of(entries[i as int].1@), t));
                    }
                    if settings_refer(entries, i as int, t) {
                        let k = choose|k: int|
                            0 <= k < i && value::mentions(value::json_of((#[trigger] entries[k]).1@), t);
                        assert(value::mentions(value::json_of(entries[k].1@), t));
                    }
                }
            }
            i += 1;
        }
        names
    }
}

// ---------------------------------------------------------------------------
// What plugins are told
// ---------------------------------------------------------------------------

/// The value of a variable goes to a plugin as it is written: a text, or the name of a secret.
pub proof fn variables_are_told_as_written(map: StringMap<EnvironmentValue>, key: Seq<char>)
    requires
        map.wf(),
    ensures
        match map.at(key) {
            Some(v) => match v@ {
                EnvironmentValueV::Literal(s) => value::lookup(variables(map.entries@), key) == Some(DataV::Str(s)),
                EnvironmentValueV::Secret(name) => value::lookup(variables(map.entries@), key) matches Some(told)
                    && value::field(told, "secret"@) == Some(DataV::Str(name)),
            },
            None => value::lookup(variables(map.entries@), key) is None,
        },
{
    let entries = map.entries@;
    let all = variables(entries);
    collections::lemma_find_some(entries, key);
    if map.at(key) is Some {
        collections::lemma_found_stands(entries, key);
        let k = choose|k: int|
            0 <= k < entries.len() && (#[trigger] entries[k]).0@ == key && entries[k].1 == map.at(key)->0;
        let keys = collections::keys_of(entries);
        assert forall|i: int, j: int| 0 <= i < j < all.len() implies (#[trigger] all[i]).0 != (
        #[trigger] all[j]).0 by {
            assert(text::text_lt(keys[i], keys[j]));
            text::lemma_text_lt_irreflexive(keys[i]);
        }
        value::lemma_lookup_distinct(all, k);
        assert(all[k].0 == key);
    } else {
        assert forall|i: int| 0 <= i < all.len() implies (#[trigger] all[i]).0 != key by {
            assert(collections::keys_of(entries)[i] == all[i].0);
        }
        value::lemma_lookup_absent(all, key);
    }
}

/// The names of what is said of an application differ.
proof fn lemma_app_field_names()
    ensures
        seq!["environment"@, "health_interval_seconds"@, "health_path"@, "health_status"@, "health_timeout_seconds"@, "name"@, "port"@, "service"@].no_duplicates(),
{
    reveal_strlit("environment");
    reveal_strlit("health_interval_seconds");
    reveal_strlit("health_path");
    reveal_strlit("health_status");
    reveal_strlit("health_timeout_seconds");
    reveal_strlit("name");
    reveal_strlit("port");
    reveal_strlit("service");
    assert("environment"@.len() == 11);
    assert("health_interval_seconds"@.len() == 23);
    assert("health_path"@.len() == 11);
    assert("health_status"@.len() == 13);
    assert("health_timeout_seconds"@.len() == 22);
    assert("name"@.len() == 4);
    assert("port"@.len() == 4);
    assert("service"@.len() == 7);
    assert("environment"@[0] != "health_path"@[0]);
    assert("name"@[0] != "port"@[0]);
    let names = seq!["environment"@, "health_interval_seconds"@, "health_path"@, "health_status"@, "health_timeout_seconds"@, "name"@, "port"@, "service"@];
    assert(names[0] == "environment"@);
    assert(names[1] == "health_interval_seconds"@);
    assert(names[2] == "health_path"@);
    assert(names[3] == "health_status"@);
    assert(names[4] == "health_timeout_seconds"@);
    assert(names[5] == "name"@);
    assert(names[6] == "port"@);
    assert(names[7] == "service"@);
    assert forall|i: int, j: int| 0 <= i < names.len() && 0 <= j < names.len() && i != j implies #[trigger] names[i]
        != #[trigger] names[j] by {
        assert(i == 0 || i == 1 || i == 2 || i == 3 || i == 4 || i == 5 || i == 6 || i == 7);
        assert(j == 0 || j == 1 || j == 2 || j == 3 || j == 4 || j == 5 || j == 6 || j == 7);
    }
}

/// What is desired of an application says of it what the configuration says: its name, its
/// service, the port that traffic goes to, and how its health is checked.
pub proof fn applications_are_told_as_configured(profile: Profile, name: Seq<char>, app: App)
    ensures
        ({
            let told = desired_app(profile, name, app);
            &&& value::field(told, "name"@) == Some(DataV::Str(name))
            &&& value::field(told, "service"@) == Some(DataV::Str(app.service@))
            &&& value::field(told, "port"@) == Some(DataV::Integer(app.port as int))
            &&& value::field(told, "health_path"@) == match app.health_path {
                Some(path) => Some(DataV::Str(path@)),
                None => Some(DataV::Null),
            }
            &&& value::field(told, "health_status"@) == match app.health_status {
                Some(status) => Some(DataV::Integer(status as int)),
                None => Some(DataV::Null),
            }
            &&& value::field(told, "health_interval_seconds"@) == match app.health_interval_seconds {
                Some(seconds) => Some(DataV::Integer(seconds as int)),
                None => Some(DataV::Null),
            }
            &&& value::field(told, "health_timeout_seconds"@) == match app.health_timeout_seconds {
                Some(seconds) => Some(DataV::Integer(seconds as int)),
                None => Some(DataV::Null),
            }
            &&& value::field(told, "environment"@) == Some(DataV::Object(app_variables(profile, name, app)))
        }),
{
    let entries = desired_app(profile, name, app)->Object_0;
    let names = seq!["environment"@, "health_interval_seconds"@, "health_path"@, "health_status"@, "health_timeout_seconds"@, "name"@, "port"@, "service"@];
    lemma_app_field_names();
    assert(value::names_of(entries) =~= names);
    value::lemma_distinct(entries, names);
    assert(value::lookup(entries, names[0]) == Some(entries[0].1));
    assert(value::lookup(entries, names[1]) == Some(entries[1].1));
    assert(value::lookup(entries, names[2]) == Some(entries[2].1));
    assert(value::lookup(entries, names[3]) == Some(entries[3].1));
    assert(value::lookup(entries, names[4]) == Some(entries[4].1));
    assert(value::lookup(entries, names[5]) == Some(entries[5].1));
    assert(value::lookup(entries, names[6]) == Some(entries[6].1));
    assert(value::lookup(entries, names[7]) == Some(entries[7].1));
}

/// A value is what is desired of one of the named applications.
spec fn is_desired_from(config: LightrailConfig, profile: Profile, names: Seq<Seq<char>>, v: DataV) -> bool {
    exists|i: int|
        0 <= i < names.len() && config.apps.at(#[trigger] names[i]) is Some && v == desired_app(
            profile,
            names[i],
            config.apps.at(names[i])->0,
        )
}

/// Each selected application that is configured is desired, and nothing else is.
proof fn lemma_desired_apps(config: LightrailConfig, profile: Profile, names: Seq<Seq<char>>)
    ensures
        forall|i: int|
            0 <= i < names.len() && config.apps.at(#[trigger] names[i]) is Some ==> desired_apps(
                config,
                profile,
                names,
            ).contains(desired_app(profile, names[i], config.apps.at(names[i])->0)),
        forall|j: int|
            0 <= j < desired_apps(config, profile, names).len() ==> is_desired_from(
                config,
                profile,
                names,
                #[trigger] desired_apps(config, profile, names)[j],
            ),
        (forall|i: int| 0 <= i < names.len() ==> config.apps.at(#[trigger] names[i]) is Some) ==> desired_apps(
            config,
            profile,
            names,
        ) == Seq::new(names.len(), |i: int| desired_app(profile, names[i], config.apps.at(names[i])->0)),
    decreases names.len(),
{
    let all = desired_apps(config, profile, names);
    if names.len() > 0 {
        let fewer = names.drop_last();
        let before = desired_apps(config, profile, fewer);
        let last = names.len() - 1;
        lemma_desired_apps(config, profile, fewer);
        assert(names.last() == names[last as int]);
        assert forall|i: int| 0 <= i < names.len() && config.apps.at(#[trigger] names[i]) is Some implies all.contains(
            desired_app(profile, names[i], config.apps.at(names[i])->0),
        ) by {
            let v = desired_app(profile, names[i], config.apps.at(names[i])->0);
            if i < last {
                assert(fewer[i] == names[i]);
                let j = choose|j: int| 0 <= j < before.len() && before[j] == v;
                assert(all[j] == v);
            } else {
                assert(all[before.len() as int] == v);
            }
        }
        assert forall|j: int| 0 <= j < all.len() implies is_desired_from(config, profile, names, #[trigger] all[j]) by {
            if j < before.len() {
                assert(all[j] == before[j]);
                assert(is_desired_from(config, profile, fewer, before[j]));
                let i = choose|i: int|
                    0 <= i < fewer.len() && config.apps.at(#[trigger] fewer[i]) is Some && before[j] == desired_app(
                        profile,
                        fewer[i],
                        config.apps.at(fewer[i])->0,
                    );
                assert(names[i] == fewer[i]);
            } else {
                assert(config.apps.at(names[last as int]) is Some);
            }
        }
        if forall|i: int| 0 <= i < names.len() ==> config.apps.at(#[trigger] names[i]) is Some {
            assert forall|i: int| 0 <= i < fewer.len() implies config.apps.at(#[trigger] fewer[i]) is Some by {
                assert(config.apps.at(names[i]) is Some);
            }
            assert(config.apps.at(names[last as int]) is Some);
            assert(all =~= Seq::new(
                names.len(),
                |i: int| desired_app(profile, names[i], config.apps.at(names[i])->0),
            ));
        }
    } else {
        assert(all =~= Seq::new(
            names.len(),
            |i: int| desired_app(profile, names[i], config.apps.at(names[i])->0),
        ));
    }
}

/// A value says of an application what its name, its service and its port are.
pub open spec fn says_of_app(told: DataV, name: Seq<char>, app: App) -> bool {
    &&& value::field(told, "name"@) == Some(DataV::Str(name))
    &&& value::field(told, "service"@) == Some(DataV::Str(app.service@))
    &&& value::field(told, "port"@) == Some(DataV::Integer(app.port as int))
}

/// Each named application that is configured is listed.
proof fn lemma_app_listed(config: LightrailConfig, profile: Profile, names: Seq<Seq<char>>, i: int)
    requires
        0 <= i < names.len(),
        config.apps.at(names[i]) is Some,
    ensures
        exists|j: int|
            0 <= j < desired_apps(config, profile, names).len() && says_of_app(
                #[trigger] desired_apps(config, profile, names)[j],
                names[i],
                config.apps.at(names[i])->0,
            ),
{
    let told = desired_apps(config, profile, names);
    lemma_desired_apps(config, profile, names);
    let app = config.apps.at(names[i])->0;
    let v = desired_app(profile, names[i], app);
    assert(told.contains(v));
    let j = choose|j: int| 0 <= j < told.len() && told[j] == v;
    applications_are_told_as_configured(profile, names[i], app);
    assert(says_of_app(told[j], names[i], app));
}

/// What is desired of an environment lists every selected application that is configured, with
/// its own name, service and port.
pub proof fn selected_applications_are_desired(project: LoadedProject, i: int)
    requires
        project.wf(),
        0 <= i < project.selected().apps@.len(),
        project.config.apps.at(project.selected().apps@[i]@) is Some,
    ensures
        value::items_of(value::field(desired(project), "apps"@)) is Some,
        exists|j: int|
            0 <= j < value::items_of(value::field(desired(project), "apps"@))->0.len() && says_of_app(
                #[trigger] value::items_of(value::field(desired(project), "apps"@))->0[j],
                project.selected().apps@[i]@,
                project.config.apps.at(project.selected().apps@[i]@)->0,
            ),
{
    let config = project.config;
    let profile = project.selected();
    let names = text::texts(profile.apps@);
    lemma_desired_list(project);
    assert(names[i] == profile.apps@[i]@);
    lemma_app_listed(config, profile, names, i);
    let all = desired_apps(config, profile, names);
    let told = value::items_of(value::field(desired(project), "apps"@))->0;
    assert(told == all);
    let j = choose|j: int|
        0 <= j < all.len() && says_of_app(#[trigger] all[j], names[i], config.apps.at(names[i])->0);
    assert(says_of_app(told[j], names[i], config.apps.at(names[i])->0));
}

/// What is desired of an environment lists no application that is not selected, and where all
/// selected ones are configured, it lists them in their order.
pub proof fn only_selected_applications_are_desired(project: LoadedProject, j: int)
    requires
        project.wf(),
        value::field(desired(project), "apps"@) matches Some(DataV::Array(told)) && 0 <= j < told.len(),
    ensures
        ({
            let selected = project.selected().apps@;
            let told = value::field(desired(project), "apps"@)->0->Array_0;
            &&& exists|i: int|
                0 <= i < selected.len() && value::field(told[j], "name"@) == Some(
                    DataV::Str((#[trigger] selected[i])@),
                )
            &&& (forall|i: int| 0 <= i < selected.len() ==> project.config.apps.at((#[trigger] selected[i])@) is Some)
                ==> told.len() == selected.len() && value::field(told[j], "name"@) == Some(
                DataV::Str(selected[j]@),
            )
        }),
{
    let config = project.config;
    let profile = project.selected();
    let selected = profile.apps@;
    let names = text::texts(profile.apps@);
    let told = desired_apps(config, profile, names);
    lemma_desired_list(project);
    lemma_desired_apps(config, profile, names);
    assert(is_desired_from(config, profile, names, told[j]));
    let i = choose|i: int|
        0 <= i < names.len() && config.apps.at(#[trigger] names[i]) is Some && told[j] == desired_app(
            profile,
            names[i],
            config.apps.at(names[i])->0,
        );
    applications_are_told_as_configured(profile, names[i], config.apps.at(names[i])->0);
    assert(names[i] == selected[i]@);
    if forall|i: int| 0 <= i < selected.len() ==> config.apps.at((#[trigger] selected[i])@) is Some {
        assert forall|i: int| 0 <= i < names.len() implies config.apps.at(#[trigger] names[i]) is Some by {
            assert(config.apps.at(selected[i]@) is Some);
        }
        assert(told[j] == desired_app(profile, names[j], config.apps.at(names[j])->0));
        assert(names[j] == selected[j]@);
        applications_are_told_as_configured(profile, names[j], config.apps.at(names[j])->0);
    }
}

/// The applications that are desired stand under their name.
proof fn lemma_desired_list(project: LoadedProject)
    ensures
        value::field(desired(project), "apps"@) == Some(
            DataV::Array(
                desired_apps(project.config, project.selected(), text::texts(project.selected().apps@)),
            ),
        ),
{
    let entries = desired(project)->Object_0;
    assert(entries[0].0 == "apps"@);
    assert(value::lookup(entries, "apps"@) == Some(entries[0].1));
}

/// The names of what is desired differ.
proof fn lemma_desired_names()
    ensures
        seq!["apps"@, "environment"@, "project"@, "schema"@].no_duplicates(),
{
    reveal_strlit("apps");
    reveal_strlit("environment");
    reveal_strlit("project");
    reveal_strlit("schema");
    assert("apps"@.len() == 4);
    assert("environment"@.len() == 11);
    assert("project"@.len() == 7);
    assert("schema"@.len() == 6);
    let names = seq!["apps"@, "environment"@, "project"@, "schema"@];
    assert(names[0] == "apps"@);
    assert(names[1] == "environment"@);
    assert(names[2] == "project"@);
    assert(names[3] == "schema"@);
    assert forall|i: int, j: int| 0 <= i < names.len() && 0 <= j < names.len() && i != j implies #[trigger] names[i]
        != #[trigger] names[j] by {
        assert(i == 0 || i == 1 || i == 2 || i == 3);
        assert(j == 0 || j == 1 || j == 2 || j == 3);
    }
}

/// The names of what is said of an environment differ.
proof fn lemma_environment_names()
    ensures
        seq!["branch"@, "commit"@, "dirty"@, "id"@, "isolation"@, "labels"@, "profile"@].no_duplicates(),
{
    reveal_strlit("branch");
    reveal_strlit("commit");
    reveal_strlit("dirty");
    reveal_strlit("id");
    reveal_strlit("isolation");
    reveal_strlit("labels");
    reveal_strlit("profile");
    assert("branch"@.len() == 6);
    assert("commit"@.len() == 6);
    assert("dirty"@.len() == 5);
    assert("id"@.len() == 2);
    assert("isolation"@.len() == 9);
    assert("labels"@.len() == 6);
    assert("profile"@.len() == 7);
    assert("branch"@[0] != "commit"@[0]);
    assert("branch"@[0] != "labels"@[0]);
    assert("commit"@[0] != "labels"@[0]);
    let names = seq!["branch"@, "commit"@, "dirty"@, "id"@, "isolation"@, "labels"@, "profile"@];
    assert(names[0] == "branch"@);
    assert(names[1] == "commit"@);
    assert(names[2] == "dirty"@);
    assert(names[3] == "id"@);
    assert(names[4] == "isolation"@);
    assert(names[5] == "labels"@);
    assert(names[6] == "profile"@);
    assert forall|i: int, j: int| 0 <= i < names.len() && 0 <= j < names.len() && i != j implies #[trigger] names[i]
        != #[trigger] names[j] by {
        assert(i == 0 || i == 1 || i == 2 || i == 3 || i == 4 || i == 5 || i == 6);
        assert(j == 0 || j == 1 || j == 2 || j == 3 || j == 4 || j == 5 || j == 6);
    }
}

/// The names of what is said of a project differ.
proof fn lemma_project_names()
    ensures
        seq!["compose"@, "id"@, "root"@, "slug"@].no_duplicates(),
{
    reveal_strlit("compose");
    reveal_strlit("id");
    reveal_strlit("root");
    reveal_strlit("slug");
    assert("compose"@.len() == 7);
    assert("id"@.len() == 2);
    assert("root"@.len() == 4);
    assert("slug"@.len() == 4);
    assert("root"@[0] != "slug"@[0]);
    let names = seq!["compose"@, "id"@, "root"@, "slug"@];
    assert(names[0] == "compose"@);
    assert(names[1] == "id"@);
    assert(names[2] == "root"@);
    assert(names[3] == "slug"@);
    assert forall|i: int, j: int| 0 <= i < names.len() && 0 <= j < names.len() && i != j implies #[trigger] names[i]
        != #[trigger] names[j] by {
        assert(i == 0 || i == 1 || i == 2 || i == 3);
        assert(j == 0 || j == 1 || j == 2 || j == 3);
    }
}

/// What is desired names the environment by its own identifier, profile, branch, commit and
/// isolation, and the project by its own identifier, slug, root and Compose files.
pub proof fn environments_are_told_as_they_are(project: LoadedProject)
    requires
        project.wf(),
    ensures
        value::field(desired(project), "schema"@) == Some(DataV::Integer(1)),
        value::field(desired(project), "environment"@) matches Some(told) && {
            &&& value::field(told, "id"@) == Some(DataV::Str(project.environment()))
            &&& value::field(told, "profile"@) == Some(DataV::Str(project.profile_name@))
            &&& value::field(told, "branch"@) == Some(DataV::Str(project.git@.branch))
            &&& value::field(told, "commit"@) == match project.git@.commit {
                Some(commit) => Some(DataV::Str(commit)),
                None => Some(DataV::Null),
            }
            &&& value::field(told, "dirty"@) == Some(DataV::Bool(project.git@.dirty))
            &&& value::field(told, "isolation"@) == Some(DataV::Str(project.selected().isolation.text()))
            &&& value::field(told, "labels"@) == Some(
                DataV::Object(label_entries(identity::labels_of(project.identity@))),
            )
        },
        value::field(desired(project), "project"@) matches Some(told) && {
            &&& value::field(told, "id"@) == Some(DataV::Str(outside::uuid_text(project.config.project.id@)))
            &&& value::field(told, "slug"@) == Some(DataV::Str(project.config.project.slug@))
            &&& value::field(told, "root"@) == Some(DataV::Str(project.paths.root@))
            &&& value::field(told, "compose"@) matches Some(DataV::Array(files)) && files.len()
                == project.config.project.compose@.len() && forall|i: int|
                0 <= i < files.len() ==> #[trigger] files[i] == DataV::Str(project.config.project.compose@[i]@)
        },
{
    let entries = desired(project)->Object_0;
    let names = seq!["apps"@, "environment"@, "project"@, "schema"@];
    lemma_desired_names();
    lemma_environment_names();
    lemma_project_names();
    assert(value::names_of(entries) =~= names);
    value::lemma_distinct(entries, names);
    assert(value::lookup(entries, names[1]) == Some(entries[1].1));
    assert(value::lookup(entries, names[2]) == Some(entries[2].1));
    assert(value::lookup(entries, names[3]) == Some(entries[3].1));
    let environment = entries[1].1->Object_0;
    let told = seq!["branch"@, "commit"@, "dirty"@, "id"@, "isolation"@, "labels"@, "profile"@];
    assert(value::names_of(environment) =~= told);
    value::lemma_distinct(environment, told);
    assert(value::lookup(environment, told[0]) == Some(environment[0].1));
    assert(value::lookup(environment, told[1]) == Some(environment[1].1));
    assert(value::lookup(environment, told[2]) == Some(environment[2].1));
    assert(value::lookup(environment, told[3]) == Some(environment[3].1));
    assert(value::lookup(environment, told[4]) == Some(environment[4].1));
    assert(value::lookup(environment, told[5]) == Some(environment[5].1));
    assert(value::lookup(environment, told[6]) == Some(environment[6].1));
    let named = entries[2].1->Object_0;
    let parts = seq!["compose"@, "id"@, "root"@, "slug"@];
    assert(value::names_of(named) =~= parts);
    value::lemma_distinct(named, parts);
    assert(value::lookup(named, parts[0]) == Some(named[0].1));
    assert(value::lookup(named, parts[1]) == Some(named[1].1));
    assert(value::lookup(named, parts[2]) == Some(named[2].1));
    assert(value::lookup(named, parts[3]) == Some(named[3].1));
}

/// The settings of a capability reach its plugin: those that the selected profile sets under the
/// name of that capability, and none where it sets none.
pub proof fn settings_reach_their_capability(project: LoadedProject, capability: Capability, name: Seq<char>)
    requires
        project.wf(),
    ensures
        match project.selected().settings.at(capability.text()) {
            Some(settings) => settings@ is Object ==> value::field(project.configured(capability), name) == match value::field(
                settings@,
                name,
            ) {
                Some(v) => Some(value::json_of(v)),
                None => None,
            },
            None => value::field(project.configured(capability), name) is None,
        },
{
    if let Some(settings) = project.selected().settings.at(capability.text()) {
        if let DataV::Object(entries) = settings@ {
            value::lemma_json_fields(entries, name);
        }
    }
}

/// A secret is referred to by the variables of the profile, by those of the applications that it
/// selects, and by its settings; what an application refers to that is not selected does not
/// count.
pub proof fn secrets_are_referred_to_where_they_are_used(
    config: LightrailConfig,
    profile: Profile,
    name: Seq<char>,
    i: int,
    k: int,
)
    ensures
        0 <= k < profile.env.entries@.len() && profile.env.entries@[k].1@ == EnvironmentValueV::Secret(name)
            ==> profile_refers(config, profile, name),
        0 <= i < profile.apps@.len() ==> (config.apps.at(profile.apps@[i]@) matches Some(app) ==> (0 <= k
            < app.env.entries@.len() && app.env.entries@[k].1@ == EnvironmentValueV::Secret(name) ==> profile_refers(
            config,
            profile,
            name,
        ))),
        0 <= i < profile.apps@.len() ==> (profile.app_env.at(profile.apps@[i]@) matches Some(own) ==> (0 <= k
            < own.entries@.len() && own.entries@[k].1@ == EnvironmentValueV::Secret(name) ==> profile_refers(
            config,
            profile,
            name,
        ))),
        profile.env.entries@.len() == 0 && profile.apps@.len() == 0 && profile.settings.entries@.len() == 0
            ==> !profile_refers(config, profile, name),
{
    if 0 <= i < profile.apps@.len() && app_refers(config, profile, profile.apps@[i]@, name) {
        assert(apps_refer(config, profile, profile.apps@.len() as int, name));
    }
}

/// The profile of the command line is used where there is one, and else the default one.
pub proof fn chosen_profiles_are_used(config: LightrailConfig, given: &str)
    ensures
        selected_profile(Some(given), config) == given@,
        selected_profile(None, config) == config.project.default_profile@,
{
}

/// The environment of a project is named after its identifier, the profile and the branch, in
/// this order.
pub proof fn environments_are_named_after_profile_and_branch(p: LoadedProject)
    ensures
        p.environment() == identity::environment_id_text(p.config.project.id@, p.profile_name@, p.git@.branch),
{
}

} // verus!
