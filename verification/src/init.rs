//! `lightrail init`: from the Compose model and the answers to a configuration.

use vstd::prelude::*;

use crate::collections::StringMap;
use crate::compose;
use crate::compose::{ComposeInventory, ServiceInventory, ServiceV};
use crate::config;
use crate::config::{
    App, EnvironmentValue, Isolation, LightrailConfig, PluginId, PluginPipeline, Profile, Project, ProjectId,
    CONFIG_SCHEMA_VERSION,
};
use crate::dialogue::{
    failed, first, lift, proceeds, refusal, refuse, AskV, Dialogue, Pause, PauseV, QuestionV,
};
use crate::error::{settles, CliError, CliErrorV};
use crate::naming;
use crate::path;
use crate::outside;
use crate::plugin_host::{bundled_plugins_have_identifiers, names_plugin, COMPOSE_PLUGIN_ID};
use crate::provider;
use crate::settings;
use crate::settings::TargetKind;
use crate::text;
use crate::validation;
use crate::value;
use crate::value::{Data, DataV};
use crate::workspace::CONFIG_FILE;

verus! {

/// Inputs supplied by the command-line dispatcher.
#[derive(Clone, Debug)]
pub struct InitOptions {
    /// Directory from which repository discovery starts.
    pub start: String,
    /// First committed profile name.
    pub profile: String,
    /// Optional target override from the command line.
    pub target: Option<TargetKind>,
    /// Optional DNS-domain override from the command line.
    pub dns_domain: Option<String>,
    /// Do not open a terminal prompt.
    pub non_interactive: bool,
    /// Optional TOML or JSON answers file.
    pub answers_file: Option<String>,
    /// Explicitly permit replacement of an existing `lightrail.toml`.
    pub force: bool,
}

/// Declarative answers accepted by `init --from`.
#[derive(Clone, Debug)]
pub struct InitAnswers {
    /// Project slug. Defaults to the Compose project name or repository name.
    pub project_slug: Option<String>,
    /// Compose files in merge order, relative to the repository root.
    pub compose: Vec<String>,
    /// Target provider. Defaults to generic SSH.
    pub target: Option<TargetKind>,
    /// Isolation override. Defaults to the selected target's supported boundary.
    pub isolation: Option<Isolation>,
    /// Explicit public application routes.
    pub apps: Vec<AppAnswer>,
    /// IP-derived DNS suffix. Only `sslip.io` and `nip.io` are accepted.
    pub dns_domain: Option<String>,
    /// Opaque settings merged over generated capability defaults.
    pub settings: StringMap<Data>,
}

impl Default for InitAnswers {
    fn default() -> (r: InitAnswers)
        ensures
            r.project_slug is None,
            r.compose@.len() == 0,
            r.target is None,
            r.isolation is None,
            r.apps@.len() == 0,
            r.dns_domain is None,
            r.settings.entries@.len() == 0,
            r.settings.wf(),
    {
        InitAnswers {
            project_slug: None,
            compose: Vec::new(),
            target: None,
            isolation: None,
            apps: Vec::new(),
            dns_domain: None,
            settings: StringMap::new(),
        }
    }
}

/// One public application answer.
#[derive(Clone, Debug, PartialEq, Eq)]
pub struct AppAnswer {
    /// Public app name; defaults to `service`.
    pub name: Option<String>,
    /// Compose service backing this route.
    pub service: String,
    /// Internal container port. Required when the service exposes several.
    pub port: Option<u16>,
    /// Optional HTTP readiness path.
    pub health_path: Option<String>,
    /// Optional exact readiness status.
    pub health_status: Option<u16>,
}

/// The model of [`AppAnswer`].
pub struct AnswerV {
    pub name: Option<Seq<char>>,
    pub service: Seq<char>,
    pub port: Option<u16>,
    pub health_path: Option<Seq<char>>,
    pub health_status: Option<u16>,
}

impl View for AppAnswer {
    type V = AnswerV;

    open spec fn view(&self) -> AnswerV {
        AnswerV {
            name: text::option_of(self.name),
            service: self.service@,
            port: self.port,
            health_path: text::option_of(self.health_path),
            health_status: self.health_status,
        }
    }
}

/// Stable data returned to human or JSON output renderers.
#[derive(Clone, Debug, Eq, PartialEq)]
pub struct InitSummary {
    pub config_path: String,
    pub project_id: String,
    pub project_slug: String,
    pub profile: String,
    pub compose: Vec<String>,
    pub apps: Vec<InitializedApp>,
    pub target: TargetKind,
    pub isolation: Isolation,
    pub dns_domain: String,
    pub target_detail: Option<String>,
}

/// One app created by initialization.
#[derive(Clone, Debug, Eq, PartialEq)]
pub struct InitializedApp {
    pub name: String,
    pub service: String,
    pub port: u16,
}

// ---------------------------------------------------------------------------
// Compose files
// ---------------------------------------------------------------------------

/// The name of a Compose file.
pub open spec fn names_compose_file(name: Seq<char>) -> bool {
    let lower = text::lowered(name);
    (text::has_suffix(lower, ".yaml"@) || text::has_suffix(lower, ".yml"@)) && (text::has_prefix(
        lower,
        "compose."@,
    ) || text::has_prefix(lower, "docker-compose."@))
}

/// Tests for the name of a Compose file.
pub fn is_compose_filename(name: &str) -> (r: bool)
    ensures
        r == names_compose_file(name@),
{
    let lower = text::to_lower(name);
    (text::ends_with(lower.as_str(), ".yaml") || text::ends_with(lower.as_str(), ".yml")) && (
    text::starts_with(lower.as_str(), "compose.") || text::starts_with(lower.as_str(), "docker-compose."))
}

/// How early a file stands among the Compose files.
pub open spec fn priority(lower: Seq<char>) -> int {
    if lower == "compose.yaml"@ {
        0
    } else if lower == "compose.yml"@ {
        1
    } else if lower == "docker-compose.yaml"@ {
        2
    } else if lower == "docker-compose.yml"@ {
        3
    } else {
        4
    }
}

/// Whether a file stands before another: by priority, then by name, whatever the case.
pub open spec fn file_before(a: Seq<char>, b: Seq<char>) -> bool {
    let x = text::lowered(a);
    let y = text::lowered(b);
    priority(x) < priority(y) || (priority(x) == priority(y) && text::text_lt(x, y))
}

/// How early a file stands among the Compose files.
fn compose_priority(lower: &str) -> (r: u8)
    ensures
        r == priority(lower@),
{
    if text::same(lower, "compose.yaml") {
        0
    } else if text::same(lower, "compose.yml") {
        1
    } else if text::same(lower, "docker-compose.yaml") {
        2
    } else if text::same(lower, "docker-compose.yml") {
        3
    } else {
        4
    }
}

/// Tests whether a file stands before another.
pub fn compose_file_before(a: &str, b: &str) -> (r: bool)
    ensures
        r == file_before(a@, b@),
{
    let x = text::to_lower(a);
    let y = text::to_lower(b);
    let p: u8 = compose_priority(x.as_str());
    let q: u8 = compose_priority(y.as_str());
    p < q || (p == q && text::less(x.as_str(), y.as_str()))
}

/// The place of a file among sorted files: before the first that it stands before.
pub open spec fn file_slot(files: Seq<Seq<char>>, name: Seq<char>) -> int
    decreases files.len(),
{
    if files.len() == 0 || file_before(name, files[0]) {
        0
    } else {
        1 + file_slot(files.subrange(1, files.len() as int), name)
    }
}

/// The Compose files among names, sorted; files of equal rank stay in order.
pub open spec fn compose_files(names: Seq<Seq<char>>) -> Seq<Seq<char>>
    decreases names.len(),
{
    if names.len() == 0 {
        Seq::empty()
    } else {
        let before = compose_files(names.drop_last());
        if names_compose_file(names.last()) {
            before.insert(file_slot(before, names.last()), names.last())
        } else {
            before
        }
    }
}

/// A slot stands within the files.
proof fn lemma_file_slot(files: Seq<Seq<char>>, name: Seq<char>)
    ensures
        0 <= file_slot(files, name) <= files.len(),
        forall|k: int| 0 <= k < file_slot(files, name) ==> !file_before(name, #[trigger] files[k]),
        file_slot(files, name) < files.len() ==> file_before(name, files[file_slot(files, name)]),
    decreases files.len(),
{
    if files.len() > 0 && !file_before(name, files[0]) {
        let rest = files.subrange(1, files.len() as int);
        lemma_file_slot(rest, name);
        assert forall|k: int| 0 <= k < file_slot(files, name) implies !file_before(
            name,
            #[trigger] files[k],
        ) by {
            if k > 0 {
                assert(files[k] == rest[k - 1]);
            }
        }
    }
}

/// The canonical base file stands first: no file of the sorted list stands before an
/// earlier one.
pub proof fn compose_files_are_sorted(names: Seq<Seq<char>>)
    ensures
        forall|i: int, j: int|
            0 <= i < j < compose_files(names).len() ==> !file_before(
                #[trigger] compose_files(names)[j],
                #[trigger] compose_files(names)[i],
            ),
    decreases names.len(),
{
    if names.len() > 0 {
        compose_files_are_sorted(names.drop_last());
        let before = compose_files(names.drop_last());
        let name = names.last();
        if names_compose_file(name) {
            lemma_file_slot(before, name);
            let at = file_slot(before, name);
            let out = before.insert(at, name);
            assert forall|i: int, j: int| 0 <= i < j < out.len() implies !file_before(
                #[trigger] out[j],
                #[trigger] out[i],
            ) by {
                let earlier = if i < at {
                    i
                } else {
                    i - 1
                };
                let later = if j < at {
                    j
                } else {
                    j - 1
                };
                if j == at {
                    assert(out[i] == before[i]);
                } else if i == at {
                    // `name` stands before `before[at]`, which stands no later than `out[j]`.
                    assert(out[j] == before[later]);
                    lemma_file_before(name, before[at], before[later]);
                } else {
                    assert(out[i] == before[earlier] && out[j] == before[later]);
                }
            }
        }
    }
}

/// What stands before one file is not behind a file that is no earlier.
proof fn lemma_file_before(a: Seq<char>, b: Seq<char>, c: Seq<char>)
    requires
        file_before(a, b),
        !file_before(c, b) || b == c,
    ensures
        !file_before(c, a),
{
    let x = text::lowered(a);
    let y = text::lowered(b);
    let z = text::lowered(c);
    text::lemma_text_lt_irreflexive(x);
    text::lemma_text_lt_irreflexive(y);
    if file_before(c, a) {
        if priority(x) == priority(y) && priority(z) == priority(x) {
            text::lemma_text_lt_transitive(z, x, y);
        }
    }
}

/// Finds Compose files among the names of a directory's files, in deterministic
/// merge-candidate order.
///
/// # Errors
///
/// Returns an error when there is no recognized Compose file.
pub fn discover_compose_files(root: &str, names: &Vec<String>) -> (r: Result<Vec<String>, CliError>)
    ensures
        match r {
            Ok(files) => text::texts(files@) == compose_files(text::texts(names@)) && files@.len() > 0,
            Err(e) => compose_files(text::texts(names@)).len() == 0 && e@ == CliErrorV::Config(
                "no Compose file found in "@ + root@
                    + "; expected compose.yaml, compose.yml, docker-compose.yaml, or docker-compose.yml"@,
            ),
        },
{
    let ghost all = text::texts(names@);
    let mut files: Vec<String> = Vec::new();
    let mut i: usize = 0;
    assert(all.take(0) =~= Seq::<Seq<char>>::empty());
    assert(text::texts(files@) =~= Seq::<Seq<char>>::empty());
    while i < names.len()
        invariant
            i <= names@.len(),
            all == text::texts(names@),
            text::texts(files@) == compose_files(all.take(i as int)),
        decreases names.len() - i,
    {
        let name = names[i].as_str();
        proof {
            assert(all.take(i + 1).drop_last() =~= all.take(i as int));
            assert(all.take(i + 1).last() == name@);
        }
        if is_compose_filename(name) {
            let ghost before = text::texts(files@);
            let mut at: usize = 0;
            assert(before.subrange(0, before.len() as int) =~= before);
            while at < files.len() && !compose_file_before(name, files[at].as_str())
                invariant
                    before == text::texts(files@),
                    at <= files@.len(),
                    file_slot(before, name@) == at + file_slot(
                        before.subrange(at as int, before.len() as int),
                        name@,
                    ),
                decreases files.len() - at,
            {
                let ghost rest = before.subrange(at as int, before.len() as int);
                assert(rest[0] == files@[at as int]@);
                assert(rest.subrange(1, rest.len() as int) =~= before.subrange(
                    at + 1,
                    before.len() as int,
                ));
                at += 1;
            }
            proof {
                if at < files@.len() {
                    assert(before.subrange(at as int, before.len() as int)[0] == files@[at as int]@);
                }
            }
            files.insert(at, name.to_owned());
            assert(text::texts(files@) =~= before.insert(at as int, name@));
        }
        i += 1;
    }
    assert(all.take(all.len() as int) =~= all);
    assert(text::texts(files@).len() == files@.len());
    if files.len() == 0 {
        return Err(
            CliError::Config(
                text::cat3(
                    "no Compose file found in ",
                    root,
                    "; expected compose.yaml, compose.yml, docker-compose.yaml, or docker-compose.yml",
                ),
            ),
        );
    }
    Ok(files)
}

/// The problem of the first requested file that is missing or not below the root.
pub open spec fn requested_problem(root: Seq<char>, requested: Seq<Seq<char>>, present: Seq<bool>) -> Option<
    CliErrorV,
>
    decreases requested.len(),
{
    if requested.len() == 0 {
        None
    } else {
        provider::first(
            provider::unless(
                path::is_plain_relative(requested[0]) && present[0],
                "Compose file `"@ + requested[0] + "` must be an existing normalized path relative to "@
                    + root,
            ),
            requested_problem(
                root,
                requested.subrange(1, requested.len() as int),
                present.subrange(1, present.len() as int),
            ),
        )
    }
}

/// Rejects requested files that are missing or not below the root.
fn validate_requested(root: &str, requested: &Vec<String>, present: &Vec<bool>) -> (r: Result<(), CliError>)
    requires
        present@.len() == requested@.len(),
    ensures
        settles(r, requested_problem(root@, text::texts(requested@), present@)),
{
    let ghost all = text::texts(requested@);
    let mut i: usize = 0;
    assert(all.subrange(0, all.len() as int) =~= all);
    assert(present@.subrange(0, present@.len() as int) =~= present@);
    while i < requested.len()
        invariant
            i <= requested@.len(),
            present@.len() == requested@.len(),
            all == text::texts(requested@),
            requested_problem(root@, all, present@) == requested_problem(
                root@,
                all.subrange(i as int, all.len() as int),
                present@.subrange(i as int, present@.len() as int),
            ),
        decreases requested.len() - i,
    {
        let ghost rest = all.subrange(i as int, all.len() as int);
        let ghost found = present@.subrange(i as int, present@.len() as int);
        proof {
            assert(rest[0] == requested@[i as int]@);
            assert(found[0] == present@[i as int]);
            assert(rest.subrange(1, rest.len() as int) =~= all.subrange(i + 1, all.len() as int));
            assert(found.subrange(1, found.len() as int) =~= present@.subrange(
                i + 1,
                present@.len() as int,
            ));
        }
        let file = requested[i].as_str();
        if !path::plain_relative(file) || !present[i] {
            return Err(
                CliError::Config(
                    text::cat4(
                        "Compose file `",
                        file,
                        "` must be an existing normalized path relative to ",
                        root,
                    ),
                ),
            );
        }
        i += 1;
    }
    Ok(())
}

/// The items that indices pick.
pub open spec fn picks<T>(items: Seq<T>, picked: Seq<usize>) -> Seq<T> {
    Seq::new(picked.len(), |i: int| items[picked[i] as int])
}

/// The first of `n` labels is preselected.
pub open spec fn first_only(n: nat) -> Seq<bool> {
    Seq::new(n, |i: int| i == 0)
}

/// What stops the choice of Compose files.
pub open spec fn files_stop(
    root: Seq<char>,
    discovered: Seq<Seq<char>>,
    requested: Seq<Seq<char>>,
    present: Seq<bool>,
    d: Dialogue,
) -> Option<PauseV> {
    if requested.len() > 0 {
        failed(requested_problem(root, requested, present))
    } else if !d.interactive || discovered.len() == 1 {
        if discovered.len() == 0 {
            refusal("no Compose files were discovered"@)
        } else {
            None
        }
    } else {
        match d.choices("compose"@, discovered.len()) {
            None => Some(
                PauseV::Ask(
                    QuestionV {
                        key: "compose"@,
                        prompt: "Compose files (merge order follows this list)"@,
                        ask: AskV::MultiSelect(discovered, first_only(discovered.len())),
                    },
                ),
            ),
            Some(picked) => if picked.len() == 0 {
                Some(
                    PauseV::Fail(CliErrorV::Usage("initialization needs at least one Compose file"@)),
                )
            } else {
                None
            },
        }
    }
}

/// The Compose files that are chosen: those requested, else the first, else those picked.
pub open spec fn files_of(discovered: Seq<Seq<char>>, requested: Seq<Seq<char>>, d: Dialogue) -> Seq<Seq<char>> {
    if requested.len() > 0 {
        requested
    } else if !d.interactive || discovered.len() == 1 {
        discovered.take(1)
    } else {
        match d.choices("compose"@, discovered.len()) {
            Some(picked) => picks(discovered, picked),
            None => Seq::empty(),
        }
    }
}

/// Chooses the Compose files. `present` tells of each requested file whether it is there.
pub fn choose_compose_files(
    root: &str,
    discovered: &Vec<String>,
    requested: &Vec<String>,
    present: &Vec<bool>,
    d: &Dialogue,
) -> (r: Result<Vec<String>, Pause>)
    requires
        present@.len() == requested@.len(),
    ensures
        proceeds(
            r,
            files_stop(root@, text::texts(discovered@), text::texts(requested@), present@, *d),
        ),
        match r {
            Ok(files) => text::texts(files@) == files_of(
                text::texts(discovered@),
                text::texts(requested@),
                *d,
            ),
            Err(_) => true,
        },
{
    let ghost all = text::texts(discovered@);
    assert(text::texts(requested@).len() == requested@.len());
    if requested.len() > 0 {
        lift(validate_requested(root, requested, present))?;
        return Ok(text::copy_all(requested));
    }
    if !d.interactive || discovered.len() == 1 {
        if discovered.len() == 0 {
            return refuse("no Compose files were discovered".to_owned());
        }
        let mut files: Vec<String> = Vec::new();
        files.push(discovered[0].clone());
        assert(text::texts(files@) =~= all.take(1));
        return Ok(files);
    }
    let mut defaults: Vec<bool> = Vec::new();
    let mut i: usize = 0;
    while i < discovered.len()
        invariant
            i <= discovered@.len(),
            defaults@ == first_only(i as nat),
        decreases discovered.len() - i,
    {
        defaults.push(i == 0);
        assert(defaults@ =~= first_only((i + 1) as nat));
        i += 1;
    }
    let picked = d.ask_choices(
        "compose",
        "Compose files (merge order follows this list)",
        text::copy_all(discovered),
        defaults,
    )?;
    if picked.len() == 0 {
        return Err(
            Pause::Fail(
                CliError::Usage("initialization needs at least one Compose file".to_owned()),
            ),
        );
    }
    let mut files: Vec<String> = Vec::new();
    let mut i: usize = 0;
    while i < picked.len()
        invariant
            i <= picked@.len(),
            all == text::texts(discovered@),
            d.choices("compose"@, all.len()) == Some(picked@),
            files@.len() == i,
            forall|k: int| 0 <= k < i ==> (#[trigger] files@[k])@ == all[picked@[k] as int],
        decreases picked.len() - i,
    {
        assert(picked@[i as int] < all.len());
        files.push(discovered[picked[i]].clone());
        i += 1;
    }
    assert(text::texts(files@) =~= picks(all, picked@));
    Ok(files)
}

// ---------------------------------------------------------------------------
// Slug and target
// ---------------------------------------------------------------------------

/// What the project slug is derived from.
pub open spec fn slug_source(root: Seq<char>, compose_name: Option<Seq<char>>) -> Option<Seq<char>> {
    match compose_name {
        Some(name) => if name.len() > 0 {
            Some(name)
        } else {
            path::file_name(root)
        },
        None => path::file_name(root),
    }
}

/// The slug where none is given.
pub open spec fn default_slug(root: Seq<char>, compose_name: Option<Seq<char>>) -> Seq<char> {
    match slug_source(root, compose_name) {
        Some(name) => naming::label_of(name),
        None => Seq::empty(),
    }
}

/// The problem of deriving a slug.
pub open spec fn default_slug_problem(root: Seq<char>, compose_name: Option<Seq<char>>) -> Option<CliErrorV> {
    match slug_source(root, compose_name) {
        None => Some(CliErrorV::Config("could not infer a project slug"@)),
        Some(name) => provider::unless(
            naming::normalized(name).len() > 0,
            (if name.len() == 0 {
                "DNS label"@
            } else {
                "normalized DNS label"@
            }) + " must not be empty"@,
        ),
    }
}

/// The project slug of a Compose project or of a repository.
///
/// # Errors
///
/// Returns an error where there is no name, or a name without a letter or digit.
pub fn default_project_slug(root: &str, compose_name: Option<&str>) -> (r: Result<String, CliError>)
    ensures
        settles(r, default_slug_problem(root@, settings::maybe(compose_name))),
        match r {
            Ok(slug) => slug@ == default_slug(root@, settings::maybe(compose_name)),
            Err(_) => true,
        },
{
    let raw = match compose_name {
        Some(name) => if name.is_empty() {
            path::last_name(root)
        } else {
            Some(name.to_owned())
        },
        None => path::last_name(root),
    };
    let raw = match raw {
        Some(raw) => raw,
        None => {
            return Err(CliError::Config("could not infer a project slug".to_owned()));
        },
    };
    match naming::DnsLabel::new(raw.as_str()) {
        Ok(label) => Ok(label.as_str().to_owned()),
        Err(problem) => Err(CliError::Config(problem.message())),
    }
}

/// What stops the choice of the slug.
pub open spec fn slug_stop(answer: Option<Seq<char>>, default: Seq<char>, d: Dialogue) -> Option<PauseV> {
    if answer is None && d.interactive {
        settings::answer_stop(None, d, "project_slug"@, "Project slug"@, Some(default))
    } else {
        None
    }
}

/// The slug that is chosen.
pub open spec fn slug_of(answer: Option<Seq<char>>, default: Seq<char>, d: Dialogue) -> Seq<char> {
    match answer {
        Some(s) => s,
        None => if d.interactive {
            settings::answer_of(None, d, "project_slug"@)
        } else {
            default
        },
    }
}

/// Chooses the project slug.
pub fn choose_project_slug(answer: Option<String>, default: String, d: &Dialogue) -> (r: Result<String, Pause>)
    ensures
        proceeds(r, slug_stop(text::option_of(answer), default@, *d)),
        match r {
            Ok(slug) => slug@ == slug_of(text::option_of(answer), default@, *d),
            Err(_) => true,
        },
{
    match answer {
        Some(answer) => Ok(answer),
        None => if d.interactive {
            d.ask_text("project_slug", "Project slug", Some(default.as_str()))
        } else {
            Ok(default)
        },
    }
}

/// The titles of the targets.
pub open spec fn target_titles() -> Seq<Seq<char>> {
    seq![
        TargetKind::Ssh.title(),
        TargetKind::Hetzner.title(),
        TargetKind::Kubernetes.title(),
        TargetKind::Fly.title(),
    ]
}

/// The target with an index.
pub open spec fn target_at(i: int) -> TargetKind {
    if i == 0 {
        TargetKind::Ssh
    } else if i == 1 {
        TargetKind::Hetzner
    } else if i == 2 {
        TargetKind::Kubernetes
    } else {
        TargetKind::Fly
    }
}

/// What stops the choice of the target.
pub open spec fn target_stop(answer: Option<TargetKind>, d: Dialogue) -> Option<PauseV> {
    if answer is None && d.interactive && d.choice("target"@, 4) is None {
        Some(
            PauseV::Ask(
                QuestionV {
                    key: "target"@,
                    prompt: "Deployment target"@,
                    ask: AskV::Select(target_titles()),
                },
            ),
        )
    } else {
        None
    }
}

/// The target that is chosen.
pub open spec fn target_of(answer: Option<TargetKind>, d: Dialogue) -> TargetKind {
    match answer {
        Some(target) => target,
        None => if d.interactive {
            match d.choice("target"@, 4) {
                Some(i) => target_at(i),
                None => TargetKind::Ssh,
            }
        } else {
            TargetKind::Ssh
        },
    }
}

/// Chooses the target.
pub fn choose_target(answer: Option<TargetKind>, d: &Dialogue) -> (r: Result<TargetKind, Pause>)
    ensures
        proceeds(r, target_stop(answer, *d)),
        match r {
            Ok(target) => target == target_of(answer, *d),
            Err(_) => true,
        },
{
    if let Some(target) = answer {
        return Ok(target);
    }
    if !d.interactive {
        return Ok(TargetKind::Ssh);
    }
    let mut labels: Vec<String> = Vec::new();
    labels.push(TargetKind::Ssh.to_text().to_owned());
    labels.push(TargetKind::Hetzner.to_text().to_owned());
    labels.push(TargetKind::Kubernetes.to_text().to_owned());
    labels.push(TargetKind::Fly.to_text().to_owned());
    assert(text::texts(labels@) =~= target_titles());
    let i: usize = d.ask_choice("target", "Deployment target", labels)?;
    Ok(
        if i == 0 {
            TargetKind::Ssh
        } else if i == 1 {
            TargetKind::Hetzner
        } else if i == 2 {
            TargetKind::Kubernetes
        } else {
            TargetKind::Fly
        },
    )
}

// ---------------------------------------------------------------------------
// Applications
// ---------------------------------------------------------------------------

/// A port that services keep to themselves.
pub open spec fn is_private_port(port: u16) -> bool {
    port == 3306 || port == 5432 || port == 5672 || port == 6379 || port == 9200 || port == 11211 || port
        == 27017 || port == 27018
}

/// A name of services that are not public.
pub open spec fn is_private_name(lower: Seq<char>) -> bool {
    lower == "cache"@ || lower == "database"@ || lower == "db"@ || lower == "mongo"@ || lower == "mysql"@
        || lower == "postgres"@ || lower == "queue"@ || lower == "rabbitmq"@ || lower == "redis"@
}

/// A service that is likely meant for the public.
pub open spec fn is_likely_public(service: ServiceV) -> bool {
    !is_private_name(text::lowered(service.name)) && exists|i: int|
        0 <= i < service.internal_ports.len() && !is_private_port(#[trigger] service.internal_ports[i])
}

/// Tests for a service that is likely meant for the public.
pub fn likely_public_service(service: &ServiceInventory) -> (r: bool)
    ensures
        r == is_likely_public(service@),
{
    let lowered = text::to_lower(service.name.as_str());
    let lower = lowered.as_str();
    if text::same(lower, "cache") || text::same(lower, "database") || text::same(lower, "db") || text::same(
        lower,
        "mongo",
    ) || text::same(lower, "mysql") || text::same(lower, "postgres") || text::same(lower, "queue")
        || text::same(lower, "rabbitmq") || text::same(lower, "redis") {
        return false;
    }
    let mut i: usize = 0;
    while i < service.internal_ports.len()
        invariant
            i <= service.internal_ports@.len(),
            !is_private_name(text::lowered(service.name@)),
            forall|k: int| 0 <= k < i ==> is_private_port(#[trigger] service.internal_ports@[k]),
        decreases service.internal_ports.len() - i,
    {
        let port = service.internal_ports[i];
        if !(port == 3306 || port == 5432 || port == 5672 || port == 6379 || port == 9200 || port == 11211
            || port == 27017 || port == 27018) {
            assert(!is_private_port(service@.internal_ports[i as int]));
            return true;
        }
        i += 1;
    }
    false
}

/// The notations of ports.
pub open spec fn port_texts(ports: Seq<u16>) -> Seq<Seq<char>> {
    Seq::new(ports.len(), |i: int| text::decimal(ports[i] as nat))
}

/// The notations of ports.
fn port_labels(ports: &Vec<u16>) -> (r: Vec<String>)
    ensures
        text::texts(r@) == port_texts(ports@),
{
    let mut out: Vec<String> = Vec::new();
    let mut i: usize = 0;
    while i < ports.len()
        invariant
            i <= ports@.len(),
            out@.len() == i,
            forall|k: int| 0 <= k < i ==> (#[trigger] out@[k])@ == text::decimal(ports@[k] as nat),
        decreases ports.len() - i,
    {
        out.push(text::number(ports[i] as u128));
        i += 1;
    }
    assert(text::texts(out@) =~= port_texts(ports@));
    out
}

/// What is known of an application that initialization creates.
#[verifier::ext_equal]
pub struct AppV {
    pub service: Seq<char>,
    pub port: u16,
    pub health_path: Option<Seq<char>>,
    pub health_status: Option<u16>,
}

/// An application with nothing but what is known of it.
pub open spec fn is_app(app: App, v: AppV) -> bool {
    &&& app.service@ == v.service
    &&& app.port == v.port
    &&& text::option_of(app.health_path) == v.health_path
    &&& app.health_status == v.health_status
    &&& app.health_interval_seconds is None
    &&& app.health_timeout_seconds is None
    &&& app.env.entries@.len() == 0
}

/// The port of a service, where there is one.
pub open spec fn contains_port(ports: Seq<u16>, port: u16) -> bool {
    exists|i: int| 0 <= i < ports.len() && #[trigger] ports[i] == port
}

/// The problem of an application answer.
pub open spec fn answer_problem(services: Seq<ServiceV>, answer: AnswerV) -> Option<CliErrorV> {
    match compose::service_named(services, answer.service) {
        None => Some(
            CliErrorV::Config(
                "public app refers to unknown Compose service `"@ + answer.service + "`"@,
            ),
        ),
        Some(service) => match answer.port {
            Some(port) => provider::unless(
                contains_port(service.internal_ports, port),
                "port "@ + text::decimal(port as nat) + " is not exposed internally by Compose service `"@
                    + answer.service + "`"@,
            ),
            None => if service.internal_ports.len() == 1 {
                None
            } else if service.internal_ports.len() == 0 {
                Some(
                    CliErrorV::Config(
                        "Compose service `"@ + answer.service + "` has no internal port"@,
                    ),
                )
            } else {
                Some(
                    CliErrorV::Config(
                        "Compose service `"@ + answer.service + "` exposes multiple ports ("@
                            + text::joined(port_texts(service.internal_ports), ", "@)
                            + "); set `port` in its [[apps]] answer"@,
                    ),
                )
            },
        },
    }
}

/// The name and application of an answer.
pub open spec fn answer_app(services: Seq<ServiceV>, answer: AnswerV) -> (Seq<char>, AppV) {
    (
        match answer.name {
            Some(name) => name,
            None => answer.service,
        },
        AppV {
            service: answer.service,
            port: match answer.port {
                Some(port) => port,
                None => match compose::service_named(services, answer.service) {
                    Some(service) => service.internal_ports[0],
                    None => 0,
                },
            },
            health_path: answer.health_path,
            health_status: answer.health_status,
        },
    )
}

/// Tests whether a port is among ports.
fn has_port(ports: &Vec<u16>, port: u16) -> (r: bool)
    ensures
        r == contains_port(ports@, port),
{
    let mut i: usize = 0;
    while i < ports.len()
        invariant
            i <= ports@.len(),
            forall|k: int| 0 <= k < i ==> #[trigger] ports@[k] != port,
        decreases ports.len() - i,
    {
        if ports[i] == port {
            return true;
        }
        i += 1;
    }
    false
}

/// The application of an answer.
pub fn app_from_answer(inventory: &ComposeInventory, answer: &AppAnswer) -> (r: Result<(String, App), CliError>)
    ensures
        settles(r, answer_problem(compose::service_views(inventory.services@), answer@)),
        match r {
            Ok((name, app)) => ({
                let model = answer_app(compose::service_views(inventory.services@), answer@);
                name@ == model.0 && is_app(app, model.1)
            }),
            Err(_) => true,
        },
{
    let service = match inventory.service(answer.service.as_str()) {
        Some(service) => service,
        None => {
            return Err(
                CliError::Config(
                    text::cat3(
                        "public app refers to unknown Compose service `",
                        answer.service.as_str(),
                        "`",
                    ),
                ),
            );
        },
    };
    let port: u16 = match answer.port {
        Some(port) => {
            if !has_port(&service.internal_ports, port) {
                return Err(
                    CliError::Config(
                        text::cat5(
                            "port ",
                            text::number(port as u128).as_str(),
                            " is not exposed internally by Compose service `",
                            answer.service.as_str(),
                            "`",
                        ),
                    ),
                );
            }
            port
        },
        None => {
            if service.internal_ports.len() == 0 {
                return Err(
                    CliError::Config(
                        text::cat3(
                            "Compose service `",
                            answer.service.as_str(),
                            "` has no internal port",
                        ),
                    ),
                );
            }
            if service.internal_ports.len() > 1 {
                let ports = text::join(&port_labels(&service.internal_ports), ", ");
                return Err(
                    CliError::Config(
                        text::cat5(
                            "Compose service `",
                            answer.service.as_str(),
                            "` exposes multiple ports (",
                            ports.as_str(),
                            "); set `port` in its [[apps]] answer",
                        ),
                    ),
                );
            }
            service.internal_ports[0]
        },
    };
    let name = match &answer.name {
        Some(name) => name.clone(),
        None => answer.service.clone(),
    };
    Ok(
        (
            name,
            App {
                service: answer.service.clone(),
                port,
                health_path: text::copy_option(&answer.health_path),
                health_status: answer.health_status,
                health_interval_seconds: None,
                health_timeout_seconds: None,
                env: StringMap::new(),
            },
        ),
    )
}

/// A map that holds exactly the named applications.
pub open spec fn holds_apps(apps: StringMap<App>, named: Seq<(Seq<char>, AppV)>) -> bool {
    &&& apps.wf()
    &&& forall|k: Seq<char>| #[trigger]
        apps.at(k) is Some <==> exists|i: int| 0 <= i < named.len() && (#[trigger] named[i]).0 == k
    &&& forall|i: int|
        0 <= i < named.len() ==> (apps.at((#[trigger] named[i]).0) matches Some(app) && is_app(
            app,
            named[i].1,
        ))
}

/// Whether a name is taken.
pub open spec fn is_taken(named: Seq<(Seq<char>, AppV)>, name: Seq<char>) -> bool {
    exists|i: int| 0 <= i < named.len() && (#[trigger] named[i]).0 == name
}

/// The problem of a name that occurs again.
pub open spec fn repeat_problem(named: Seq<(Seq<char>, AppV)>, name: Seq<char>) -> Option<CliErrorV> {
    provider::unless(!is_taken(named, name), "public app name `"@ + name + "` occurs more than once"@)
}

/// Adds an application, unless its name is taken.
fn add_app(
    apps: &mut StringMap<App>,
    name: String,
    app: App,
    Ghost(named): Ghost<Seq<(Seq<char>, AppV)>>,
    Ghost(v): Ghost<AppV>,
) -> (r: Result<(), CliError>)
    requires
        holds_apps(*old(apps), named),
        is_app(app, v),
    ensures
        settles(r, repeat_problem(named, name@)),
        r is Ok ==> holds_apps(*final(apps), named.push((name@, v))),
{
    if apps.contains_key(name.as_str()) {
        return Err(
            CliError::Config(
                text::cat3("public app name `", name.as_str(), "` occurs more than once"),
            ),
        );
    }
    let ghost before = *apps;
    let ghost key = name@;
    apps.insert(name, app);
    proof {
        let all = named.push((key, v));
        assert forall|k: Seq<char>| #[trigger] apps.at(k) is Some <==> exists|i: int|
            0 <= i < all.len() && (#[trigger] all[i]).0 == k by {
            if k == key {
                assert(all[named.len() as int].0 == k);
            } else {
                assert(apps.at(k) == before.at(k));
                if before.at(k) is Some {
                    let i = choose|i: int| 0 <= i < named.len() && (#[trigger] named[i]).0 == k;
                    assert(all[i].0 == k);
                }
                if exists|i: int| 0 <= i < all.len() && (#[trigger] all[i]).0 == k {
                    let i = choose|i: int| 0 <= i < all.len() && (#[trigger] all[i]).0 == k;
                    assert(named[i].0 == k);
                }
            }
        }
        assert forall|i: int| 0 <= i < all.len() implies (apps.at((#[trigger] all[i]).0) matches Some(app)
            && is_app(app, all[i].1)) by {
            if i < named.len() {
                assert(all[i] == named[i]);
                assert(named[i].0 != key);
            }
        }
    }
    Ok(())
}

/// What stops explicit applications after those that are already there.
pub open spec fn answers_problem(
    services: Seq<ServiceV>,
    answers: Seq<AnswerV>,
    named: Seq<(Seq<char>, AppV)>,
) -> Option<CliErrorV>
    decreases answers.len(),
{
    if answers.len() == 0 {
        None
    } else {
        let next = answer_app(services, answers[0]);
        provider::first(
            answer_problem(services, answers[0]),
            provider::first(
                repeat_problem(named, next.0),
                answers_problem(
                    services,
                    answers.subrange(1, answers.len() as int),
                    named.push(next),
                ),
            ),
        )
    }
}

/// The applications of explicit answers.
pub open spec fn answered_apps(services: Seq<ServiceV>, answers: Seq<AnswerV>) -> Seq<(Seq<char>, AppV)> {
    Seq::new(answers.len(), |i: int| answer_app(services, answers[i]))
}

/// The models of answers.
pub open spec fn answer_views(answers: Seq<AppAnswer>) -> Seq<AnswerV> {
    Seq::new(answers.len(), |i: int| answers[i]@)
}

/// The applications of explicit answers.
fn apps_from_answers(inventory: &ComposeInventory, answers: &Vec<AppAnswer>) -> (r: Result<
    StringMap<App>,
    CliError,
>)
    ensures
        settles(
            r,
            answers_problem(
                compose::service_views(inventory.services@),
                answer_views(answers@),
                Seq::empty(),
            ),
        ),
        match r {
            Ok(apps) => holds_apps(
                apps,
                answered_apps(compose::service_views(inventory.services@), answer_views(answers@)),
            ),
            Err(_) => true,
        },
{
    let ghost services = compose::service_views(inventory.services@);
    let ghost all = answer_views(answers@);
    let ghost list = answered_apps(services, all);
    let mut apps: StringMap<App> = StringMap::new();
    let mut i: usize = 0;
    assert(all.subrange(0, all.len() as int) =~= all);
    assert(list.take(0) =~= Seq::<(Seq<char>, AppV)>::empty());
    while i < answers.len()
        invariant
            i <= answers@.len(),
            services == compose::service_views(inventory.services@),
            all == answer_views(answers@),
            list == answered_apps(services, all),
            holds_apps(apps, list.take(i as int)),
            answers_problem(services, all, Seq::empty()) == answers_problem(
                services,
                all.subrange(i as int, all.len() as int),
                list.take(i as int),
            ),
        decreases answers.len() - i,
    {
        let ghost rest = all.subrange(i as int, all.len() as int);
        proof {
            assert(rest[0] == answers@[i as int]@);
            assert(rest.subrange(1, rest.len() as int) =~= all.subrange(i + 1, all.len() as int));
            assert(list.take(i + 1) =~= list.take(i as int).push(list[i as int]));
            assert(list[i as int] == answer_app(services, rest[0]));
        }
        let (name, app) = app_from_answer(inventory, &answers[i])?;
        add_app(&mut apps, name, app, Ghost(list.take(i as int)), Ghost(list[i as int].1))?;
        i += 1;
    }
    assert(list.take(list.len() as int) =~= list);
    Ok(apps)
}

/// The label of a service among those to choose from.
pub open spec fn service_label(service: ServiceV) -> Seq<char> {
    service.name + " ("@ + text::joined(port_texts(service.internal_ports), ", "@) + ")"@
}

/// The question for the public services.
pub open spec fn services_question(candidates: Seq<ServiceV>) -> QuestionV {
    QuestionV {
        key: "apps"@,
        prompt: "Public application services"@,
        ask: AskV::MultiSelect(
            Seq::new(candidates.len(), |i: int| service_label(candidates[i])),
            Seq::new(candidates.len(), |i: int| is_likely_public(candidates[i])),
        ),
    }
}

/// The services that are likely meant for the public, in order.
pub open spec fn likely(candidates: Seq<ServiceV>) -> Seq<ServiceV>
    decreases candidates.len(),
{
    if candidates.len() == 0 {
        Seq::empty()
    } else if is_likely_public(candidates.last()) {
        likely(candidates.drop_last()).push(candidates.last())
    } else {
        likely(candidates.drop_last())
    }
}

/// What stops the choice of public services.
pub open spec fn services_stop(candidates: Seq<ServiceV>, d: Dialogue) -> Option<PauseV> {
    if candidates.len() == 0 {
        refusal(
            "Compose has no services with an exposed internal port; add a port or provide explicit [[apps]] answers"@,
        )
    } else if d.interactive {
        match d.choices("apps"@, candidates.len()) {
            None => Some(PauseV::Ask(services_question(candidates))),
            Some(picked) => if picked.len() == 0 {
                Some(
                    PauseV::Fail(CliErrorV::Usage("select at least one public application service"@)),
                )
            } else {
                None
            },
        }
    } else if likely(candidates).len() == 0 {
        refusal("could not safely infer a public app; provide [[apps]] in an init answers file"@)
    } else {
        None
    }
}

/// The public services that are chosen.
pub open spec fn chosen_services(candidates: Seq<ServiceV>, d: Dialogue) -> Seq<ServiceV> {
    if d.interactive {
        match d.choices("apps"@, candidates.len()) {
            Some(picked) => picks(candidates, picked),
            None => Seq::empty(),
        }
    } else {
        likely(candidates)
    }
}

/// Chooses the public services.
fn choose_services<'a>(candidates: &Vec<&'a ServiceInventory>, d: &Dialogue) -> (r: Result<
    Vec<&'a ServiceInventory>,
    Pause,
>)
    ensures
        proceeds(r, services_stop(compose::candidate_views(candidates@), *d)),
        match r {
            Ok(chosen) => compose::candidate_views(chosen@) == chosen_services(
                compose::candidate_views(candidates@),
                *d,
            ),
            Err(_) => true,
        },
{
    let ghost all = compose::candidate_views(candidates@);
    if candidates.len() == 0 {
        return refuse(
            "Compose has no services with an exposed internal port; add a port or provide explicit [[apps]] answers".to_owned(),
        );
    }
    let mut labels: Vec<String> = Vec::new();
    let mut defaults: Vec<bool> = Vec::new();
    let mut found: Vec<&'a ServiceInventory> = Vec::new();
    let mut i: usize = 0;
    assert(all.take(0) =~= Seq::<ServiceV>::empty());
    assert(compose::candidate_views(found@) =~= Seq::<ServiceV>::empty());
    while i < candidates.len()
        invariant
            i <= candidates@.len(),
            all == compose::candidate_views(candidates@),
            labels@.len() == i,
            defaults@.len() == i,
            forall|k: int| 0 <= k < i ==> (#[trigger] labels@[k])@ == service_label(all[k]),
            forall|k: int| 0 <= k < i ==> #[trigger] defaults@[k] == is_likely_public(all[k]),
            compose::candidate_views(found@) == likely(all.take(i as int)),
        decreases candidates.len() - i,
    {
        let service = candidates[i];
        let ghost before = found@;
        proof {
            assert(all.take(i + 1).drop_last() =~= all.take(i as int));
            assert(all.take(i + 1).last() == service@);
        }
        let ports = text::join(&port_labels(&service.internal_ports), ", ");
        labels.push(text::cat4(service.name.as_str(), " (", ports.as_str(), ")"));
        let public = likely_public_service(service);
        defaults.push(public);
        if public {
            found.push(service);
            assert(compose::candidate_views(found@) =~= compose::candidate_views(before).push(service@));
        }
        i += 1;
    }
    assert(all.take(all.len() as int) =~= all);
    assert(compose::candidate_views(found@).len() == found@.len());
    if !d.interactive {
        if found.len() == 0 {
            return refuse(
                "could not safely infer a public app; provide [[apps]] in an init answers file".to_owned(),
            );
        }
        return Ok(found);
    }
    proof {
        let question = services_question(all);
        assert(text::texts(labels@) =~= Seq::new(all.len(), |i: int| service_label(all[i])));
        assert(defaults@ =~= Seq::new(all.len(), |i: int| is_likely_public(all[i])));
    }
    let picked = d.ask_choices("apps", "Public application services", labels, defaults)?;
    if picked.len() == 0 {
        return Err(
            Pause::Fail(
                CliError::Usage("select at least one public application service".to_owned()),
            ),
        );
    }
    let mut chosen: Vec<&'a ServiceInventory> = Vec::new();
    let mut i: usize = 0;
    while i < picked.len()
        invariant
            i <= picked@.len(),
            all == compose::candidate_views(candidates@),
            d.choices("apps"@, all.len()) == Some(picked@),
            chosen@.len() == i,
            forall|k: int| 0 <= k < i ==> (#[trigger] chosen@[k])@ == all[picked@[k] as int],
        decreases picked.len() - i,
    {
        assert(picked@[i as int] < all.len());
        chosen.push(candidates[picked[i]]);
        i += 1;
    }
    assert(compose::candidate_views(chosen@) =~= picks(all, picked@));
    Ok(chosen)
}

/// The key under which the port of a service is recorded.
pub open spec fn port_key(service: Seq<char>) -> Seq<char> {
    "port."@ + service
}

/// What stops the choice of a service's port.
pub open spec fn port_stop(service: ServiceV, d: Dialogue) -> Option<PauseV> {
    let ports = service.internal_ports;
    if ports.len() == 0 {
        refusal("service `"@ + service.name + "` has no internal port"@)
    } else if ports.len() == 1 {
        None
    } else if !d.interactive {
        refusal(
            "service `"@ + service.name + "` exposes multiple ports ("@ + text::joined(
                port_texts(ports),
                ", "@,
            ) + "); choose one in [[apps]] answers"@,
        )
    } else if d.choice(port_key(service.name), ports.len()) is None {
        Some(
            PauseV::Ask(
                QuestionV {
                    key: port_key(service.name),
                    prompt: "Internal HTTP port for `"@ + service.name + "`"@,
                    ask: AskV::Select(port_texts(ports)),
                },
            ),
        )
    } else {
        None
    }
}

/// The port of a service that is chosen.
pub open spec fn port_of(service: ServiceV, d: Dialogue) -> u16 {
    let ports = service.internal_ports;
    if ports.len() == 1 {
        ports[0]
    } else {
        match d.choice(port_key(service.name), ports.len()) {
            Some(i) => ports[i],
            None => 0,
        }
    }
}

/// Chooses the port of a service.
pub fn choose_service_port(service: &ServiceInventory, d: &Dialogue) -> (r: Result<u16, Pause>)
    ensures
        proceeds(r, port_stop(service@, *d)),
        match r {
            Ok(port) => port == port_of(service@, *d),
            Err(_) => true,
        },
{
    if service.internal_ports.len() == 0 {
        return refuse(text::cat3("service `", service.name.as_str(), "` has no internal port"));
    }
    if service.internal_ports.len() == 1 {
        return Ok(service.internal_ports[0]);
    }
    let labels = port_labels(&service.internal_ports);
    assert(text::texts(labels@).len() == labels@.len());
    if !d.interactive {
        let ports = text::join(&labels, ", ");
        return refuse(
            text::cat5(
                "service `",
                service.name.as_str(),
                "` exposes multiple ports (",
                ports.as_str(),
                "); choose one in [[apps]] answers",
            ),
        );
    }
    let i: usize = d.ask_choice(
        text::cat2("port.", service.name.as_str()).as_str(),
        text::cat3("Internal HTTP port for `", service.name.as_str(), "`").as_str(),
        labels,
    )?;
    Ok(service.internal_ports[i])
}

/// The application of a service that is chosen.
pub open spec fn service_app(service: ServiceV, d: Dialogue) -> (Seq<char>, AppV) {
    (
        service.name,
        AppV { service: service.name, port: port_of(service, d), health_path: None, health_status: None },
    )
}

/// What stops the applications of chosen services after those that are already there.
pub open spec fn chosen_stop(chosen: Seq<ServiceV>, named: Seq<(Seq<char>, AppV)>, d: Dialogue) -> Option<PauseV>
    decreases chosen.len(),
{
    if chosen.len() == 0 {
        None
    } else {
        first(
            port_stop(chosen[0], d),
            first(
                failed(repeat_problem(named, chosen[0].name)),
                chosen_stop(
                    chosen.subrange(1, chosen.len() as int),
                    named.push(service_app(chosen[0], d)),
                    d,
                ),
            ),
        )
    }
}

/// The applications of chosen services.
pub open spec fn chosen_apps(chosen: Seq<ServiceV>, d: Dialogue) -> Seq<(Seq<char>, AppV)> {
    Seq::new(chosen.len(), |i: int| service_app(chosen[i], d))
}

/// What stops the choice of applications.
pub open spec fn apps_stop(services: Seq<ServiceV>, answers: Seq<AnswerV>, d: Dialogue) -> Option<PauseV> {
    if answers.len() > 0 {
        failed(answers_problem(services, answers, Seq::empty()))
    } else {
        let candidates = compose::listening(services);
        first(
            services_stop(candidates, d),
            chosen_stop(chosen_services(candidates, d), Seq::empty(), d),
        )
    }
}

/// The applications that are chosen: those of explicit answers, else those of services.
pub open spec fn apps_of(services: Seq<ServiceV>, answers: Seq<AnswerV>, d: Dialogue) -> Seq<(Seq<char>, AppV)> {
    if answers.len() > 0 {
        answered_apps(services, answers)
    } else {
        chosen_apps(chosen_services(compose::listening(services), d), d)
    }
}

/// Chooses the public applications.
pub fn choose_apps(inventory: &ComposeInventory, answers: &Vec<AppAnswer>, d: &Dialogue) -> (r: Result<
    StringMap<App>,
    Pause,
>)
    ensures
        proceeds(r, apps_stop(compose::service_views(inventory.services@), answer_views(answers@), *d)),
        match r {
            Ok(apps) => holds_apps(
                apps,
                apps_of(compose::service_views(inventory.services@), answer_views(answers@), *d),
            ),
            Err(_) => true,
        },
{
    if answers.len() > 0 {
        return lift(apps_from_answers(inventory, answers));
    }
    let candidates = inventory.public_app_candidates();
    let chosen = choose_services(&candidates, d)?;
    let ghost all = compose::candidate_views(chosen@);
    let ghost list = chosen_apps(all, *d);
    let mut apps: StringMap<App> = StringMap::new();
    let mut i: usize = 0;
    assert(all.subrange(0, all.len() as int) =~= all);
    assert(list.take(0) =~= Seq::<(Seq<char>, AppV)>::empty());
    while i < chosen.len()
        invariant
            i <= chosen@.len(),
            answers@.len() == 0,
            all == compose::candidate_views(chosen@),
            list == chosen_apps(all, *d),
            services_stop(compose::listening(compose::service_views(inventory.services@)), *d) is None,
            all == chosen_services(compose::listening(compose::service_views(inventory.services@)), *d),
            holds_apps(apps, list.take(i as int)),
            chosen_stop(all, Seq::empty(), *d) == chosen_stop(
                all.subrange(i as int, all.len() as int),
                list.take(i as int),
                *d,
            ),
        decreases chosen.len() - i,
    {
        let service = chosen[i];
        let ghost rest = all.subrange(i as int, all.len() as int);
        proof {
            assert(rest[0] == service@);
            assert(rest.subrange(1, rest.len() as int) =~= all.subrange(i + 1, all.len() as int));
            assert(list.take(i + 1) =~= list.take(i as int).push(list[i as int]));
            assert(list[i as int] == service_app(rest[0], *d));
        }
        let port: u16 = choose_service_port(service, d)?;
        let app = App {
            service: service.name.clone(),
            port,
            health_path: None,
            health_status: None,
            health_interval_seconds: None,
            health_timeout_seconds: None,
            env: StringMap::new(),
        };
        lift(
            add_app(
                &mut apps,
                service.name.clone(),
                app,
                Ghost(list.take(i as int)),
                Ghost(list[i as int].1),
            ),
        )?;
        i += 1;
    }
    assert(list.take(list.len() as int) =~= list);
    Ok(apps)
}

// ---------------------------------------------------------------------------
// The configuration
// ---------------------------------------------------------------------------

/// The plugin that fills a capability of a target: what a provider runs itself, its plugin
/// fills.
pub open spec fn assigned_plugin(target: TargetKind, capability: config::Capability) -> Seq<char> {
    if capability == config::Capability::Target || (capability != config::Capability::Source
        && !settings::has_own_address(target)) {
        target.plugin()
    } else {
        COMPOSE_PLUGIN_ID@
    }
}

/// The plugins of a target.
pub fn build_pipeline(target: TargetKind) -> (r: Result<PluginPipeline, CliError>)
    ensures
        r matches Ok(pipeline) && forall|c: config::Capability| #[trigger]
            pipeline.assigned(c) == assigned_plugin(target, c),
{
    proof {
        bundled_plugins_have_identifiers();
    }
    let provider = target.target_plugin();
    let own = match target {
        TargetKind::Kubernetes | TargetKind::Fly => provider,
        TargetKind::Ssh | TargetKind::Hetzner => COMPOSE_PLUGIN_ID,
    };
    Ok(
        PluginPipeline {
            source: plugin(COMPOSE_PLUGIN_ID)?,
            builder: plugin(own)?,
            target: plugin(provider)?,
            runtime: plugin(own)?,
            exposure: plugin(own)?,
            dns: plugin(own)?,
        },
    )
}

/// An identifier of a plugin.
fn plugin(id: &str) -> (r: Result<PluginId, CliError>)
    ensures
        names_plugin(id@) ==> (r matches Ok(p) && p@ == id@),
{
    match PluginId::new(id) {
        Ok(p) => Ok(p),
        Err(e) => Err(CliError::Config(e.message())),
    }
}

/// A text with words before it, or other words where there is none.
pub open spec fn detail_or(words: Seq<char>, s: Option<Seq<char>>, default: Seq<char>) -> Seq<char> {
    match s {
        Some(s) => words + s,
        None => default,
    }
}

/// The text of a setting, or another.
pub open spec fn or_text(s: Option<Seq<char>>, default: Seq<char>) -> Seq<char> {
    match s {
        Some(s) => s,
        None => default,
    }
}

/// What a summary says of a target.
pub open spec fn target_detail(target: TargetKind, table: Option<DataV>) -> Option<Seq<char>> {
    if value::entries_of(table) is None {
        None
    } else {
        match target {
            TargetKind::Ssh => match settings::supplied_text(table, "host"@) {
                Some(host) => Some(
                    or_text(settings::supplied_text(table, "user"@), "root"@) + "@"@ + host,
                ),
                None => None,
            },
            TargetKind::Hetzner => Some(
                or_text(settings::supplied_text(table, "server_type"@), "cx23"@) + ", "@ + detail_or(
                    "location "@,
                    settings::supplied_text(table, "location"@),
                    "provider-selected location"@,
                ),
            ),
            TargetKind::Kubernetes => match settings::supplied_text(table, "context"@) {
                Some(context) => Some(
                    "context "@ + context + ", ingress class "@ + or_text(
                        settings::supplied_text(table, "ingress_class"@),
                        "not configured"@,
                    ),
                ),
                None => None,
            },
            TargetKind::Fly => Some(
                "organization "@ + or_text(settings::supplied_text(table, "organization"@), "personal"@)
                    + ", "@ + detail_or(
                    "region "@,
                    settings::supplied_text(table, "region"@),
                    "provider-selected region"@,
                ),
            ),
        }
    }
}

/// What a summary says of a target.
pub fn summarize_target(target: TargetKind, table: Option<&Data>) -> (r: Option<String>)
    ensures
        text::option_of(r) == target_detail(target, value::option_view(table)),
{
    let table = match table {
        Some(v) => v,
        None => {
            return None;
        },
    };
    if table.as_object().is_none() {
        return None;
    }
    match target {
        TargetKind::Ssh => match table.get_str("host") {
            Some(host) => {
                let user = match table.get_str("user") {
                    Some(user) => user,
                    None => "root",
                };
                Some(text::cat3(user, "@", host))
            },
            None => None,
        },
        TargetKind::Hetzner => {
            let server_type = match table.get_str("server_type") {
                Some(server_type) => server_type,
                None => "cx23",
            };
            let location = match table.get_str("location") {
                Some(location) => text::cat2("location ", location),
                None => "provider-selected location".to_owned(),
            };
            Some(text::cat3(server_type, ", ", location.as_str()))
        },
        TargetKind::Kubernetes => match table.get_str("context") {
            Some(context) => {
                let ingress_class = match table.get_str("ingress_class") {
                    Some(ingress_class) => ingress_class,
                    None => "not configured",
                };
                Some(text::cat4("context ", context, ", ingress class ", ingress_class))
            },
            None => None,
        },
        TargetKind::Fly => {
            let organization = match table.get_str("organization") {
                Some(organization) => organization,
                None => "personal",
            };
            let region = match table.get_str("region") {
                Some(region) => text::cat2("region ", region),
                None => "provider-selected region".to_owned(),
            };
            Some(text::cat4("organization ", organization, ", ", region.as_str()))
        },
    }
}

/// The identity of the project that is configured anew. `loaded` is what the existing
/// configuration holds, where there is one.
///
/// # Errors
///
/// Returns an error where a configuration exists and may not be replaced, or is not valid.
pub fn existing_project_id(
    config_path: &str,
    force: bool,
    exists: bool,
    loaded: Result<ProjectId, String>,
) -> (r: Result<Option<ProjectId>, CliError>)
    ensures
        match r {
            Ok(None) => !exists,
            Ok(Some(id)) => exists && force && loaded == Ok::<ProjectId, String>(id),
            Err(e) => exists && if !force {
                e@ == CliErrorV::Usage(config_path@ + " already exists; pass --force to replace it"@)
            } else {
                loaded matches Err(detail) && e@ == CliErrorV::Config(
                    "refusing to replace invalid existing configuration at "@ + config_path@ + ": "@
                        + detail@,
                )
            },
        },
{
    if !exists {
        return Ok(None);
    }
    if !force {
        return Err(
            CliError::Usage(text::cat2(config_path, " already exists; pass --force to replace it")),
        );
    }
    match loaded {
        Ok(id) => Ok(Some(id)),
        Err(detail) => Err(
            CliError::Config(
                text::cat4(
                    "refusing to replace invalid existing configuration at ",
                    config_path,
                    ": ",
                    detail.as_str(),
                ),
            ),
        ),
    }
}

/// A line that keeps the local state out of the repository.
pub open spec fn ignores_local_state(line: Seq<char>) -> bool {
    text::trimmed(line) == ".lightrail"@ || text::trimmed(line) == ".lightrail/"@
}

/// Whether a list of ignored files keeps the local state out of the repository.
pub open spec fn is_ignored(existing: Seq<char>) -> bool {
    exists|i: int|
        0 <= i < text::split(existing, '\n').len() && ignores_local_state(
            #[trigger] text::split(existing, '\n')[i],
        )
}

/// A list of ignored files, with the local state behind its last line.
pub open spec fn with_local_state_ignored(existing: Seq<char>) -> Seq<char> {
    existing + (if existing.len() > 0 && existing.last() != '\n' {
        "\n"@
    } else {
        Seq::empty()
    }) + ".lightrail/\n"@
}

/// The list of ignored files that keeps the local state out of the repository, where the
/// existing one does not.
pub fn ignore_local_state(existing: &str) -> (r: Option<String>)
    ensures
        match r {
            None => is_ignored(existing@),
            Some(updated) => !is_ignored(existing@) && updated@ == existing@ + (if existing@.len() > 0
                && existing@.last() != '\n' {
                "\n"@
            } else {
                Seq::empty()
            }) + ".lightrail/\n"@,
        },
        r matches Some(updated) ==> updated@ == with_local_state_ignored(existing@),
{
    let lines = text::split_at_char(existing, '\n');
    let ghost model = text::split(existing@, '\n');
    let mut i: usize = 0;
    assert(text::texts(lines@).len() == lines@.len());
    while i < lines.len()
        invariant
            i <= lines@.len(),
            text::texts(lines@) == model,
            model == text::split(existing@, '\n'),
            model.len() == lines@.len(),
            forall|k: int| 0 <= k < i ==> !ignores_local_state(#[trigger] model[k]),
        decreases lines.len() - i,
    {
        assert(model[i as int] == lines@[i as int]@);
        let line = text::trim(lines[i].as_str());
        if text::same(line.as_str(), ".lightrail") || text::same(line.as_str(), ".lightrail/") {
            assert(ignores_local_state(model[i as int]));
            return None;
        }
        i += 1;
    }
    let chars = text::chars_of(existing);
    if chars.len() > 0 && chars[chars.len() - 1] != '\n' {
        Some(text::cat3(existing, "\n", ".lightrail/\n"))
    } else {
        let updated = text::cat2(existing, ".lightrail/\n");
        assert(existing@ + Seq::<char>::empty() =~= existing@);
        Some(updated)
    }
}

/// What initialization writes and reports.
#[derive(Clone, Debug)]
pub struct Initialized {
    pub config: LightrailConfig,
    pub summary: InitSummary,
}

/// The target that initialization is for.
pub open spec fn initial_target(options: InitOptions, answers: InitAnswers, d: Dialogue) -> TargetKind {
    target_of(
        if options.target is Some {
            options.target
        } else {
            answers.target
        },
        d,
    )
}

/// The isolation of the first profile.
pub open spec fn initial_isolation(options: InitOptions, answers: InitAnswers, d: Dialogue) -> Isolation {
    match answers.isolation {
        Some(isolation) => isolation,
        None => initial_target(options, answers, d).boundary(),
    }
}

/// The DNS domain that is asked for: on the command line, else in the answers.
pub open spec fn initial_domain(options: InitOptions, answers: InitAnswers) -> Option<Seq<char>> {
    if options.dns_domain is Some {
        text::option_of(options.dns_domain)
    } else {
        text::option_of(answers.dns_domain)
    }
}

/// The slug of the project.
pub open spec fn initial_slug(
    root: Seq<char>,
    inventory: ComposeInventory,
    answers: InitAnswers,
    d: Dialogue,
) -> Seq<char> {
    slug_of(
        text::option_of(answers.project_slug),
        default_slug(root, text::option_of(inventory.project_name)),
        d,
    )
}

/// What stops initialization before the configuration is put together.
pub open spec fn init_stop(
    options: InitOptions,
    root: Seq<char>,
    inventory: ComposeInventory,
    answers: InitAnswers,
    d: Dialogue,
) -> Option<PauseV> {
    let services = compose::service_views(inventory.services@);
    let name = text::option_of(inventory.project_name);
    let target = initial_target(options, answers, d);
    first(
        failed(compose::remote_problem(services)),
        first(
            failed(default_slug_problem(root, name)),
            first(
                slug_stop(text::option_of(answers.project_slug), default_slug(root, name), d),
                first(
                    target_stop(
                        if options.target is Some {
                            options.target
                        } else {
                            answers.target
                        },
                        d,
                    ),
                    first(
                        failed(
                            settings::isolation_problem(target, initial_isolation(options, answers, d)),
                        ),
                        first(
                            apps_stop(services, answer_views(answers.apps@), d),
                            settings::settings_stop(
                                target,
                                initial_domain(options, answers),
                                value::entry_views(answers.settings.entries@),
                                d,
                            ),
                        ),
                    ),
                ),
            ),
        ),
    )
}

/// The configuration that initialization puts together.
pub open spec fn is_initial(
    c: LightrailConfig,
    options: InitOptions,
    root: Seq<char>,
    files: Seq<Seq<char>>,
    inventory: ComposeInventory,
    answers: InitAnswers,
    id: ProjectId,
    d: Dialogue,
) -> bool {
    let target = initial_target(options, answers, d);
    let profile = c.profiles.entries@[0].1;
    &&& c.schema == CONFIG_SCHEMA_VERSION
    &&& c.project.id == id
    &&& c.project.slug@ == initial_slug(root, inventory, answers, d)
    &&& text::texts(c.project.compose@) == files
    &&& c.project.default_profile@ == options.profile@
    &&& holds_apps(
        c.apps,
        apps_of(compose::service_views(inventory.services@), answer_views(answers.apps@), d),
    )
    &&& c.profiles.entries@.len() == 1
    &&& c.profiles.entries@[0].0@ == options.profile@
    &&& profile.isolation == initial_isolation(options, answers, d)
    &&& text::texts(profile.apps@) == c.apps.keys()
    &&& forall|cap: config::Capability| #[trigger]
        profile.pipeline.assigned(cap) == assigned_plugin(target, cap)
    &&& value::entry_views(profile.settings.entries@) == settings::settings_of(
        target,
        initial_domain(options, answers),
        value::entry_views(answers.settings.entries@),
        d,
    )
    &&& profile.settings.wf()
    &&& profile.env.entries@.len() == 0
    &&& profile.app_env.entries@.len() == 0
}

/// The domain that a summary shows.
pub open spec fn shown_domain(target: TargetKind, table: Seq<(Seq<char>, DataV)>) -> Seq<char> {
    match target {
        TargetKind::Fly => "fly.dev"@,
        TargetKind::Kubernetes => or_text(
            settings::supplied_text(value::lookup(table, "target"@), "dns_domain"@),
            "sslip.io"@,
        ),
        _ => or_text(settings::supplied_text(value::lookup(table, "dns"@), "domain"@), "sslip.io"@),
    }
}

/// The summary of what was initialized.
pub open spec fn summarizes(
    s: InitSummary,
    c: LightrailConfig,
    config_path: Seq<char>,
    target: TargetKind,
) -> bool {
    let table = value::entry_views(c.profiles.entries@[0].1.settings.entries@);
    &&& s.config_path@ == config_path
    &&& s.project_id@ == outside::uuid_text(c.project.id@)
    &&& s.project_slug@ == c.project.slug@
    &&& s.profile@ == c.project.default_profile@
    &&& text::texts(s.compose@) == text::texts(c.project.compose@)
    &&& s.apps@.len() == c.apps.entries@.len()
    &&& forall|i: int|
        0 <= i < s.apps@.len() ==> (#[trigger] s.apps@[i]).name@ == c.apps.entries@[i].0@
            && s.apps@[i].service@ == c.apps.entries@[i].1.service@ && s.apps@[i].port
            == c.apps.entries@[i].1.port
    &&& s.target == target
    &&& s.isolation == c.profiles.entries@[0].1.isolation
    &&& s.dns_domain@ == shown_domain(target, table)
    &&& text::option_of(s.target_detail) == target_detail(target, value::lookup(table, "target"@))
}

/// Summarizes what was initialized.
fn summarize(c: &LightrailConfig, config_path: &str, target: TargetKind) -> (r: InitSummary)
    requires
        c.profiles.entries@.len() == 1,
    ensures
        summarizes(r, *c, config_path@, target),
{
    let mut apps: Vec<InitializedApp> = Vec::new();
    let mut i: usize = 0;
    while i < c.apps.entries.len()
        invariant
            i <= c.apps.entries@.len(),
            apps@.len() == i,
            forall|k: int|
                0 <= k < i ==> (#[trigger] apps@[k]).name@ == c.apps.entries@[k].0@ && apps@[k].service@
                    == c.apps.entries@[k].1.service@ && apps@[k].port == c.apps.entries@[k].1.port,
        decreases c.apps.entries.len() - i,
    {
        let entry = &c.apps.entries[i];
        apps.push(
            InitializedApp { name: entry.0.clone(), service: entry.1.service.clone(), port: entry.1.port },
        );
        i += 1;
    }
    let profile = &c.profiles.entries[0].1;
    let target_table = value::find_entry(&profile.settings.entries, "target");
    let dns_table = value::find_entry(&profile.settings.entries, "dns");
    let found = match target {
        TargetKind::Fly => Some("fly.dev"),
        TargetKind::Kubernetes => match target_table {
            Some(table) => table.get_str("dns_domain"),
            None => None,
        },
        TargetKind::Ssh | TargetKind::Hetzner => match dns_table {
            Some(table) => table.get_str("domain"),
            None => None,
        },
    };
    let dns_domain = match found {
        Some(s) => s.to_owned(),
        None => "sslip.io".to_owned(),
    };
    InitSummary {
        config_path: config_path.to_owned(),
        project_id: c.project.id.hyphenated(),
        project_slug: c.project.slug.clone(),
        profile: c.project.default_profile.clone(),
        compose: text::copy_all(&c.project.compose),
        apps,
        target,
        isolation: profile.isolation,
        dns_domain,
        target_detail: summarize_target(target, target_table),
    }
}

/// Puts the configuration together from an already-resolved Compose inventory.
///
/// # Errors
///
/// Returns an error when the inventory is unsafe for a remote target, answers do not map to
/// Compose services and ports, or the configuration is not valid; stops with a question where
/// an answer is missing and may be asked for.
pub fn initialize_from_inventory(
    options: &InitOptions,
    root: &str,
    files: &Vec<String>,
    inventory: &ComposeInventory,
    answers: &InitAnswers,
    id: ProjectId,
    d: &Dialogue,
) -> (r: Result<Initialized, Pause>)
    ensures
        match (init_stop(*options, root@, *inventory, *answers, *d), r) {
            (Some(stop), Err(p)) => p@ == stop,
            (Some(_), Ok(_)) => false,
            (None, Ok(done)) => is_initial(
                done.config,
                *options,
                root@,
                text::texts(files@),
                *inventory,
                *answers,
                id,
                *d,
            ) && config::config_issues(done.config).len() == 0 && summarizes(
                done.summary,
                done.config,
                path::joined_path(root@, CONFIG_FILE@),
                initial_target(*options, *answers, *d),
            ),
            (None, Err(p)) => exists|c: LightrailConfig|
                #![trigger config::config_issues(c)]
                is_initial(
                    c,
                    *options,
                    root@,
                    text::texts(files@),
                    *inventory,
                    *answers,
                    id,
                    *d,
                ) && config::config_issues(c).len() > 0 && p@ == PauseV::Fail(
                    CliErrorV::Config(validation::errors_text(config::config_issues(c))),
                ),
        },
{
    lift(inventory.validate_remote_safety())?;
    let default_slug = lift(
        default_project_slug(
            root,
            match &inventory.project_name {
                Some(name) => Some(name.as_str()),
                None => None,
            },
        ),
    )?;
    let slug = choose_project_slug(text::copy_option(&answers.project_slug), default_slug, d)?;
    let target = choose_target(
        if options.target.is_some() {
            options.target
        } else {
            answers.target
        },
        d,
    )?;
    let isolation = match answers.isolation {
        Some(isolation) => isolation,
        None => target.default_isolation(),
    };
    lift(settings::validate_target_isolation(target, isolation))?;
    let apps = choose_apps(inventory, &answers.apps, d)?;
    let domain = match &options.dns_domain {
        Some(s) => Some(s.as_str()),
        None => match &answers.dns_domain {
            Some(s) => Some(s.as_str()),
            None => None,
        },
    };
    let table = settings::build_settings(target, domain, &answers.settings, d)?;
    let pipeline = lift(build_pipeline(target))?;
    let app_names = apps.key_list();
    let env: StringMap<EnvironmentValue> = StringMap::new();
    let app_env: StringMap<StringMap<EnvironmentValue>> = StringMap::new();
    let profile = Profile { isolation, apps: app_names, pipeline, settings: table, env, app_env };
    let mut profiles: StringMap<Profile> = StringMap::new();
    profiles.entries.push((options.profile.clone(), profile));
    let c = LightrailConfig {
        schema: CONFIG_SCHEMA_VERSION,
        project: Project {
            id,
            slug,
            compose: text::copy_all(files),
            default_profile: options.profile.clone(),
        },
        apps,
        profiles,
    };
    assert(is_initial(c, *options, root@, text::texts(files@), *inventory, *answers, id, *d));
    if let Err(errors) = c.validate() {
        return Err(Pause::Fail(CliError::Config(errors.message())));
    }
    let config_path = path::join(root, CONFIG_FILE);
    let summary = summarize(&c, config_path.as_str(), target);
    Ok(Initialized { config: c, summary })
}

// ---------------------------------------------------------------------------
// Answers from a file
// ---------------------------------------------------------------------------

/// Whether the last name of a path has the extension of JSON files.
pub open spec fn names_json(file: Seq<char>) -> bool {
    match path::file_name(file) {
        Some(name) => text::has_suffix(name, ".json"@) && name.len() > ".json"@.len(),
        None => false,
    }
}

/// How the answers in a file are written.
#[derive(Clone, Copy, Debug, PartialEq, Eq, Structural)]
pub enum AnswerNotation {
    Json,
    Toml,
}

/// How the answers in a file are written: as its extension says.
pub fn answer_notation(file: &str) -> (r: AnswerNotation)
    ensures
        r == if names_json(file@) {
            AnswerNotation::Json
        } else {
            AnswerNotation::Toml
        },
{
    match path::last_name(file) {
        Some(name) => {
            proof {
                reveal_strlit(".json");
            }
            let chars = text::chars_of(name.as_str());
            if text::ends_with(name.as_str(), ".json") && chars.len() > 5 {
                AnswerNotation::Json
            } else {
                AnswerNotation::Toml
            }
        },
        None => AnswerNotation::Toml,
    }
}

/// The file with answers: a relative path is one from where initialization starts.
pub fn answers_path(file: &str, start: &str) -> (r: String)
    ensures
        r@ == path::joined_path(start@, file@),
{
    path::join(start, file)
}

/// What was tried with a file of answers.
pub enum AnswerSource {
    /// No file is given.
    Absent,
    /// It could not be read.
    Unreadable(String),
    /// It was read as its notation says.
    Read(Result<InitAnswers, String>),
}

/// The answers of a file.
///
/// # Errors
///
/// Returns an error where the file cannot be read or is not in its notation.
pub fn load_answers(file: &str, source: AnswerSource) -> (r: Result<InitAnswers, CliError>)
    ensures
        match (source, r) {
            (AnswerSource::Absent, Ok(answers)) => answers.project_slug is None && answers.compose@.len()
                == 0 && answers.target is None && answers.isolation is None && answers.dns_domain is None
                && answers.apps@.len() == 0 && answers.settings.entries@.len() == 0,
            (AnswerSource::Unreadable(detail), Err(e)) => e@ == CliErrorV::Config(
                "could not read init answers from "@ + file@ + ": "@ + detail@,
            ),
            (AnswerSource::Read(Ok(given)), Ok(answers)) => answers == given,
            (AnswerSource::Read(Err(detail)), Err(e)) => e@ == CliErrorV::Config(
                (if names_json(file@) {
                    "could not parse JSON init answers in "@
                } else {
                    "could not parse TOML init answers in "@
                }) + file@ + ": "@ + detail@,
            ),
            _ => false,
        },
{
    match source {
        AnswerSource::Absent => Ok(InitAnswers::default()),
        AnswerSource::Unreadable(detail) => Err(
            CliError::Config(
                text::cat4("could not read init answers from ", file, ": ", detail.as_str()),
            ),
        ),
        AnswerSource::Read(Ok(answers)) => Ok(answers),
        AnswerSource::Read(Err(detail)) => {
            let head = match answer_notation(file) {
                AnswerNotation::Json => "could not parse JSON init answers in ",
                AnswerNotation::Toml => "could not parse TOML init answers in ",
            };
            Err(CliError::Config(text::cat4(head, file, ": ", detail.as_str())))
        },
    }
}

/// A service that is found by name stands among the services.
proof fn lemma_service_found(services: Seq<ServiceV>, name: Seq<char>) -> (k: int)
    requires
        compose::service_named(services, name) is Some,
    ensures
        0 <= k < services.len(),
        services[k] == compose::service_named(services, name)->0,
        services[k].name == name,
    decreases services.len(),
{
    if services[0].name == name {
        0
    } else {
        1 + lemma_service_found(services.subrange(1, services.len() as int), name)
    }
}

/// Answers without a problem have none of their own, and their names differ.
proof fn lemma_answers_sound(
    services: Seq<ServiceV>,
    answers: Seq<AnswerV>,
    named: Seq<(Seq<char>, AppV)>,
    i: int,
)
    requires
        answers_problem(services, answers, named) is None,
        0 <= i < answers.len(),
    ensures
        answer_problem(services, answers[i]) is None,
        !is_taken(named, answer_app(services, answers[i]).0),
    decreases answers.len(),
{
    if i > 0 {
        let next = answer_app(services, answers[0]);
        let rest = answers.subrange(1, answers.len() as int);
        lemma_answers_sound(services, rest, named.push(next), i - 1);
        assert(rest[i - 1] == answers[i]);
        let name = answer_app(services, answers[i]).0;
        if is_taken(named, name) {
            let k = choose|k: int| 0 <= k < named.len() && (#[trigger] named[k]).0 == name;
            assert(named.push(next)[k].0 == name);
        }
    }
}

/// Answers without a problem have names that differ.
proof fn lemma_answers_differ(
    services: Seq<ServiceV>,
    answers: Seq<AnswerV>,
    named: Seq<(Seq<char>, AppV)>,
    i: int,
    j: int,
)
    requires
        answers_problem(services, answers, named) is None,
        0 <= i < j < answers.len(),
    ensures
        answer_app(services, answers[i]).0 != answer_app(services, answers[j]).0,
    decreases answers.len(),
{
    let next = answer_app(services, answers[0]);
    let rest = answers.subrange(1, answers.len() as int);
    if i == 0 {
        lemma_answers_sound(services, rest, named.push(next), j - 1);
        assert(rest[j - 1] == answers[j]);
        assert(named.push(next)[named.len() as int].0 == next.0);
    } else {
        lemma_answers_differ(services, rest, named.push(next), i - 1, j - 1);
        assert(rest[i - 1] == answers[i] && rest[j - 1] == answers[j]);
    }
}

/// Applications that are answered are configured as answered: each belongs to a service of the
/// Compose model, listens on a port of that service, which is the answered one where a port is
/// answered, and is called as answered, or else after its service.
pub proof fn answered_applications_are_configured(
    services: Seq<ServiceV>,
    answers: Seq<AnswerV>,
    d: Dialogue,
    i: int,
)
    requires
        apps_stop(services, answers, d) is None,
        0 <= i < answers.len(),
    ensures
        apps_of(services, answers, d).len() == answers.len(),
        answers[i].name matches Some(name) ==> apps_of(services, answers, d)[i].0 == name,
        answers[i].name is None ==> apps_of(services, answers, d)[i].0 == answers[i].service,
        apps_of(services, answers, d)[i].1.service == answers[i].service,
        apps_of(services, answers, d)[i].1.health_path == answers[i].health_path,
        apps_of(services, answers, d)[i].1.health_status == answers[i].health_status,
        answers[i].port matches Some(port) ==> apps_of(services, answers, d)[i].1.port == port,
        exists|k: int|
            0 <= k < services.len() && (#[trigger] services[k]).name == answers[i].service
                && services[k].internal_ports.contains(apps_of(services, answers, d)[i].1.port),
{
    lemma_answers_sound(services, answers, Seq::empty(), i);
    let k = lemma_service_found(services, answers[i].service);
    let ports = services[k].internal_ports;
    if let Some(port) = answers[i].port {
        let p = choose|p: int| 0 <= p < ports.len() && #[trigger] ports[p] == port;
        assert(ports[p] == port);
    } else {
        assert(ports[0] == apps_of(services, answers, d)[i].1.port);
    }
}

/// No two answered applications have one name.
pub proof fn answered_applications_differ(
    services: Seq<ServiceV>,
    answers: Seq<AnswerV>,
    d: Dialogue,
    i: int,
    j: int,
)
    requires
        apps_stop(services, answers, d) is None,
        0 <= i < j < answers.len(),
    ensures
        apps_of(services, answers, d)[i].0 != apps_of(services, answers, d)[j].0,
{
    lemma_answers_differ(services, answers, Seq::empty(), i, j);
}

/// What is likely public stands among the candidates, and the other way round.
proof fn lemma_likely(candidates: Seq<ServiceV>)
    ensures
        forall|i: int|
            0 <= i < candidates.len() && is_likely_public(#[trigger] candidates[i]) ==> likely(candidates).contains(
                candidates[i],
            ),
        forall|k: int|
            0 <= k < likely(candidates).len() ==> is_likely_public(#[trigger] likely(candidates)[k])
                && candidates.contains(likely(candidates)[k]),
    decreases candidates.len(),
{
    if candidates.len() > 0 {
        let before = candidates.drop_last();
        let list = likely(candidates);
        lemma_likely(before);
        assert forall|i: int|
            0 <= i < candidates.len() && is_likely_public(#[trigger] candidates[i]) implies list.contains(
            candidates[i],
        ) by {
            if i == candidates.len() - 1 {
                assert(list[list.len() - 1] == candidates[i]);
            } else {
                assert(before[i] == candidates[i]);
                let k = choose|k: int| 0 <= k < likely(before).len() && likely(before)[k] == before[i];
                assert(list[k] == candidates[i]);
            }
        }
        assert forall|k: int| 0 <= k < list.len() implies is_likely_public(#[trigger] list[k])
            && candidates.contains(list[k]) by {
            if k < likely(before).len() {
                assert(list[k] == likely(before)[k]);
                let i = choose|i: int| 0 <= i < before.len() && before[i] == likely(before)[k];
                assert(candidates[i] == list[k]);
            } else {
                assert(candidates[candidates.len() - 1] == list[k]);
            }
        }
    }
}

/// Services that listen are services, and all that listen are there.
proof fn lemma_listening(services: Seq<ServiceV>)
    ensures
        forall|i: int|
            0 <= i < services.len() && (#[trigger] services[i]).internal_ports.len() > 0 ==> compose::listening(
                services,
            ).contains(services[i]),
        forall|k: int|
            0 <= k < compose::listening(services).len() ==> services.contains(
                #[trigger] compose::listening(services)[k],
            ) && compose::listening(services)[k].internal_ports.len() > 0,
    decreases services.len(),
{
    if services.len() > 0 {
        let before = services.drop_last();
        let list = compose::listening(services);
        lemma_listening(before);
        assert forall|i: int|
            0 <= i < services.len() && (#[trigger] services[i]).internal_ports.len() > 0 implies list.contains(
            services[i],
        ) by {
            if i == services.len() - 1 {
                assert(list[list.len() - 1] == services[i]);
            } else {
                assert(before[i] == services[i]);
                let k = choose|k: int|
                    0 <= k < compose::listening(before).len() && compose::listening(before)[k] == before[i];
                assert(list[k] == services[i]);
            }
        }
        assert forall|k: int| 0 <= k < list.len() implies services.contains(#[trigger] list[k])
            && list[k].internal_ports.len() > 0 by {
            if k < compose::listening(before).len() {
                assert(list[k] == compose::listening(before)[k]);
                let i = choose|i: int| 0 <= i < before.len() && before[i] == compose::listening(before)[k];
                assert(services[i] == list[k]);
            } else {
                assert(services[services.len() - 1] == list[k]);
            }
        }
    }
}

/// Where nobody is asked and nothing is answered, no database, cache or queue is made public: no
/// service of such a name, and none that listens on the ports of such programs alone. Each
/// application is called after its service and listens on the port of it.
pub proof fn private_services_are_not_made_public(services: Seq<ServiceV>, d: Dialogue, i: int)
    requires
        !d.interactive,
        apps_stop(services, Seq::empty(), d) is None,
        0 <= i < apps_of(services, Seq::empty(), d).len(),
    ensures
        exists|k: int| #![trigger services[k]]
            0 <= k < services.len() && services[k].name == apps_of(services, Seq::empty(), d)[i].0 && services[k].name
                == apps_of(services, Seq::empty(), d)[i].1.service && (forall|p: int|
                0 <= p < services[k].internal_ports.len() && services[k].internal_ports.len() == 1
                    ==> #[trigger] services[k].internal_ports[p] == apps_of(services, Seq::empty(), d)[i].1.port)
                && (exists|p: int|
                0 <= p < services[k].internal_ports.len() && !seq![
                    3306u16,
                    5432,
                    5672,
                    6379,
                    9200,
                    11211,
                    27017,
                    27018,
                ].contains(#[trigger] services[k].internal_ports[p])),
        !seq![
            "cache"@,
            "database"@,
            "db"@,
            "mongo"@,
            "mysql"@,
            "postgres"@,
            "queue"@,
            "rabbitmq"@,
            "redis"@,
        ].contains(text::lowered(apps_of(services, Seq::empty(), d)[i].0)),
{
    let candidates = compose::listening(services);
    let chosen = likely(candidates);
    lemma_likely(candidates);
    lemma_listening(services);
    let c = choose|c: int| 0 <= c < candidates.len() && candidates[c] == chosen[i];
    assert(services.contains(candidates[c]));
    let k = choose|k: int| 0 <= k < services.len() && services[k] == candidates[c];
    assert(is_likely_public(services[k]));
    let p = choose|p: int|
        0 <= p < services[k].internal_ports.len() && !is_private_port(#[trigger] services[k].internal_ports[p]);
    let private = seq![3306u16, 5432, 5672, 6379, 9200, 11211, 27017, 27018];
    assert(!private.contains(services[k].internal_ports[p]));
    assert(services[k].name == apps_of(services, Seq::empty(), d)[i].0);
}

/// What the command line says of the target and of the domain wins over the answers, and the
/// answers over what would be chosen; without any the target is a generic SSH host, and the
/// boundary is the one that the target supports.
pub proof fn given_choices_win(options: InitOptions, answers: InitAnswers, d: Dialogue)
    ensures
        options.target matches Some(target) ==> initial_target(options, answers, d) == target,
        options.target is None ==> (answers.target matches Some(target) ==> initial_target(options, answers, d)
            == target),
        options.target is None && answers.target is None && !d.interactive ==> initial_target(options, answers, d)
            == TargetKind::Ssh,
        answers.isolation matches Some(isolation) ==> initial_isolation(options, answers, d) == isolation,
        answers.isolation is None && initial_target(options, answers, d) == TargetKind::Ssh ==> initial_isolation(
            options,
            answers,
            d,
        ) == Isolation::Project,
        answers.isolation is None && initial_target(options, answers, d) == TargetKind::Hetzner
            ==> initial_isolation(options, answers, d) == Isolation::Machine,
        answers.isolation is None && (initial_target(options, answers, d) == TargetKind::Kubernetes
            || initial_target(options, answers, d) == TargetKind::Fly) ==> initial_isolation(options, answers, d)
            == Isolation::Environment,
        options.dns_domain matches Some(domain) ==> initial_domain(options, answers) == Some(domain@),
        options.dns_domain is None ==> (answers.dns_domain matches Some(domain) ==> initial_domain(
            options,
            answers,
        ) == Some(domain@)),
        options.dns_domain is None && answers.dns_domain is None ==> initial_domain(options, answers) is None,
{
}

/// A project that nobody names otherwise is called after its Compose project, and after its
/// directory where the Compose model has no name.
pub proof fn projects_are_named_after_what_they_hold(
    root: Seq<char>,
    inventory: ComposeInventory,
    answers: InitAnswers,
    d: Dialogue,
)
    ensures
        answers.project_slug matches Some(slug) ==> initial_slug(root, inventory, answers, d) == slug@,
        answers.project_slug is None && !d.interactive ==> (inventory.project_name matches Some(name) ==> (
        name@.len() > 0 ==> initial_slug(root, inventory, answers, d) == naming::label_of(name@))),
        answers.project_slug is None && !d.interactive && inventory.project_name is None ==> (path::file_name(
            root,
        ) matches Some(name) ==> initial_slug(root, inventory, answers, d) == naming::label_of(name)),
{
}

/// Compose files that are asked for are taken, all of them and in their order; without a request
/// and without questions the first that is found is taken alone.
pub proof fn requested_files_are_taken(discovered: Seq<Seq<char>>, requested: Seq<Seq<char>>, d: Dialogue)
    ensures
        requested.len() > 0 ==> files_of(discovered, requested, d) == requested,
        requested.len() == 0 && !d.interactive && discovered.len() > 0 ==> files_of(discovered, requested, d)
            =~= seq![discovered[0]],
{
}

/// A generated configuration has one profile, which is the default one, selects every
/// application, keeps no value of a variable, and fills each capability: the target with the
/// plugin of the target, the source with Compose, and the rest with Compose on machines and with
/// the plugin of the target elsewhere.
pub proof fn generated_profiles_are_complete(
    c: LightrailConfig,
    options: InitOptions,
    root: Seq<char>,
    files: Seq<Seq<char>>,
    inventory: ComposeInventory,
    answers: InitAnswers,
    id: ProjectId,
    d: Dialogue,
)
    requires
        is_initial(c, options, root, files, inventory, answers, id, d),
    ensures
        c.profiles.entries@.len() == 1,
        c.profiles.entries@[0].0@ == options.profile@,
        c.project.default_profile@ == options.profile@,
        c.project.id == id,
        text::texts(c.project.compose@) == files,
        text::texts(c.profiles.entries@[0].1.apps@) == c.apps.keys(),
        c.profiles.entries@[0].1.env.entries@.len() == 0,
        c.profiles.entries@[0].1.app_env.entries@.len() == 0,
        c.profiles.entries@[0].1.pipeline.source@ == "dev.lightrail.compose"@,
        initial_target(options, answers, d) == TargetKind::Ssh ==> {
            &&& c.profiles.entries@[0].1.pipeline.target@ == "dev.lightrail.ssh"@
            &&& c.profiles.entries@[0].1.pipeline.builder@ == "dev.lightrail.compose"@
            &&& c.profiles.entries@[0].1.pipeline.runtime@ == "dev.lightrail.compose"@
            &&& c.profiles.entries@[0].1.pipeline.exposure@ == "dev.lightrail.compose"@
            &&& c.profiles.entries@[0].1.pipeline.dns@ == "dev.lightrail.compose"@
        },
        initial_target(options, answers, d) == TargetKind::Hetzner ==> {
            &&& c.profiles.entries@[0].1.pipeline.target@ == "dev.lightrail.hetzner"@
            &&& c.profiles.entries@[0].1.pipeline.builder@ == "dev.lightrail.compose"@
            &&& c.profiles.entries@[0].1.pipeline.runtime@ == "dev.lightrail.compose"@
            &&& c.profiles.entries@[0].1.pipeline.exposure@ == "dev.lightrail.compose"@
            &&& c.profiles.entries@[0].1.pipeline.dns@ == "dev.lightrail.compose"@
        },
        initial_target(options, answers, d) == TargetKind::Kubernetes ==> {
            &&& c.profiles.entries@[0].1.pipeline.target@ == "dev.lightrail.kubernetes"@
            &&& c.profiles.entries@[0].1.pipeline.builder@ == "dev.lightrail.kubernetes"@
            &&& c.profiles.entries@[0].1.pipeline.runtime@ == "dev.lightrail.kubernetes"@
            &&& c.profiles.entries@[0].1.pipeline.exposure@ == "dev.lightrail.kubernetes"@
            &&& c.profiles.entries@[0].1.pipeline.dns@ == "dev.lightrail.kubernetes"@
        },
        initial_target(options, answers, d) == TargetKind::Fly ==> {
            &&& c.profiles.entries@[0].1.pipeline.target@ == "dev.lightrail.fly"@
            &&& c.profiles.entries@[0].1.pipeline.builder@ == "dev.lightrail.fly"@
            &&& c.profiles.entries@[0].1.pipeline.runtime@ == "dev.lightrail.fly"@
            &&& c.profiles.entries@[0].1.pipeline.exposure@ == "dev.lightrail.fly"@
            &&& c.profiles.entries@[0].1.pipeline.dns@ == "dev.lightrail.fly"@
        },
{
    let pipeline = c.profiles.entries@[0].1.pipeline;
    let target = initial_target(options, answers, d);
    assert(pipeline.assigned(config::Capability::Source) == assigned_plugin(target, config::Capability::Source));
    assert(pipeline.assigned(config::Capability::Builder) == assigned_plugin(target, config::Capability::Builder));
    assert(pipeline.assigned(config::Capability::Target) == assigned_plugin(target, config::Capability::Target));
    assert(pipeline.assigned(config::Capability::Runtime) == assigned_plugin(target, config::Capability::Runtime));
    assert(pipeline.assigned(config::Capability::Exposure) == assigned_plugin(
        target,
        config::Capability::Exposure,
    ));
    assert(pipeline.assigned(config::Capability::Dns) == assigned_plugin(target, config::Capability::Dns));
}

/// Every application that is chosen stands in the generated configuration with its service and
/// its port, and no other does.
pub proof fn chosen_applications_are_generated(
    c: LightrailConfig,
    options: InitOptions,
    root: Seq<char>,
    files: Seq<Seq<char>>,
    inventory: ComposeInventory,
    answers: InitAnswers,
    id: ProjectId,
    d: Dialogue,
)
    requires
        is_initial(c, options, root, files, inventory, answers, id, d),
    ensures
        ({
            let named = apps_of(compose::service_views(inventory.services@), answer_views(answers.apps@), d);
            &&& forall|i: int|
                0 <= i < named.len() ==> (c.apps.at((#[trigger] named[i]).0) matches Some(app) && app.service@
                    == named[i].1.service && app.port == named[i].1.port && text::option_of(app.health_path)
                    == named[i].1.health_path && app.health_status == named[i].1.health_status)
            &&& forall|name: Seq<char>|
                (#[trigger] c.apps.at(name)) is Some ==> exists|i: int|
                    0 <= i < named.len() && (#[trigger] named[i]).0 == name
        }),
{
    let named = apps_of(compose::service_views(inventory.services@), answer_views(answers.apps@), d);
    assert forall|i: int| 0 <= i < named.len() implies (c.apps.at((#[trigger] named[i]).0) matches Some(app)
        && app.service@ == named[i].1.service && app.port == named[i].1.port && text::option_of(app.health_path)
        == named[i].1.health_path && app.health_status == named[i].1.health_status) by {
        assert(c.apps.at(named[i].0) matches Some(app) && is_app(app, named[i].1));
    }
}

/// The summary of an initialization tells what was written.
pub proof fn summaries_tell_what_was_written(
    s: InitSummary,
    c: LightrailConfig,
    config_path: Seq<char>,
    target: TargetKind,
    i: int,
)
    requires
        summarizes(s, c, config_path, target),
        0 <= i < c.apps.entries@.len(),
    ensures
        s.config_path@ == config_path,
        s.project_slug@ == c.project.slug@,
        s.profile@ == c.project.default_profile@,
        s.target == target,
        s.isolation == c.profiles.entries@[0].1.isolation,
        s.apps@.len() == c.apps.entries@.len(),
        s.apps@[i].name@ == c.apps.entries@[i].0@,
        s.apps@[i].service@ == c.apps.entries@[i].1.service@,
        s.apps@[i].port == c.apps.entries@[i].1.port,
        target == TargetKind::Fly ==> s.dns_domain@ == "fly.dev"@,
{
    assert(s.apps@[i].name@ == c.apps.entries@[i].0@);
}

/// Local state counts as ignored exactly where some line names its directory, with or without a
/// slash behind it, whatever space stands around it.
pub proof fn local_state_is_ignored_by_name(existing: Seq<char>, i: int)
    requires
        0 <= i < text::split(existing, '\n').len(),
    ensures
        text::trimmed(text::split(existing, '\n')[i]) == ".lightrail"@ || text::trimmed(
            text::split(existing, '\n')[i],
        ) == ".lightrail/"@ ==> is_ignored(existing),
        is_ignored(existing) ==> exists|k: int| #![trigger text::split(existing, '\n')[k]]
            0 <= k < text::split(existing, '\n').len() && (text::trimmed(text::split(existing, '\n')[k])
                == ".lightrail"@ || text::trimmed(text::split(existing, '\n')[k]) == ".lightrail/"@),
{
    if is_ignored(existing) {
        let k = choose|k: int|
            0 <= k < text::split(existing, '\n').len() && ignores_local_state(
                #[trigger] text::split(existing, '\n')[k],
            );
        assert(text::split(existing, '\n')[k] == text::split(existing, '\n')[k]);
    }
    if ignores_local_state(text::split(existing, '\n')[i]) {
        assert(is_ignored(existing));
    }
}

/// Each requested file must be there, under a plain path in the project.
pub proof fn requested_files_must_be_there(root: Seq<char>, requested: Seq<Seq<char>>, present: Seq<bool>, i: int)
    requires
        requested.len() == present.len(),
        requested_problem(root, requested, present) is None,
        0 <= i < requested.len(),
    ensures
        present[i],
        path::is_plain_relative(requested[i]),
    decreases requested.len(),
{
    if i > 0 {
        let rest = requested.subrange(1, requested.len() as int);
        let there = present.subrange(1, present.len() as int);
        requested_files_must_be_there(root, rest, there, i - 1);
        assert(rest[i - 1] == requested[i] && there[i - 1] == present[i]);
    }
}

/// An initialization goes through only for a project that can run remotely, on a boundary that
/// its target supports, with applications that are sound.
pub proof fn initializations_are_remote_safe(
    options: InitOptions,
    root: Seq<char>,
    inventory: ComposeInventory,
    answers: InitAnswers,
    d: Dialogue,
)
    requires
        init_stop(options, root, inventory, answers, d) is None,
    ensures
        compose::remote_problem(compose::service_views(inventory.services@)) is None,
        settings::isolation_problem(
            initial_target(options, answers, d),
            initial_isolation(options, answers, d),
        ) is None,
        apps_stop(compose::service_views(inventory.services@), answer_views(answers.apps@), d) is None,
{
}

/// Lines that stand behind others are lines of the whole.
proof fn lemma_later_lines(before: Seq<char>, after: Seq<char>, k: int)
    requires
        before.len() == 0 || before.last() == '\n',
        0 <= k < text::split(after, '\n').len(),
    ensures
        text::split(before + after, '\n').contains(text::split(after, '\n')[k]),
    decreases before.len(),
{
    let whole = before + after;
    if before.len() == 0 {
        assert(whole =~= after);
    } else {
        text::lemma_first_index(before, '\n');
        assert(before.contains(before.last()));
        let at = text::first_index(before, '\n');
        let head = before.subrange(0, at);
        let rest = before.subrange(at + 1, before.len() as int);
        assert(!head.contains('\n')) by {
            if head.contains('\n') {
                let i = choose|i: int| 0 <= i < head.len() && head[i] == '\n';
                assert(before[i] == '\n');
            }
        }
        if rest.len() > 0 {
            assert(rest.last() == before.last());
        }
        lemma_later_lines(rest, after, k);
        text::first_parts_are_split_off(head, '\n', rest + after);
        assert(whole =~= head + seq!['\n'] + (rest + after));
        let lines = text::split(whole, '\n');
        let later = text::split(rest + after, '\n');
        let i = choose|i: int| 0 <= i < later.len() && later[i] == text::split(after, '\n')[k];
        assert(lines[i + 1] == later[i]);
    }
}

/// A list of ignored files to which the local state was added ignores it, and keeps what it
/// held.
pub proof fn added_local_state_is_ignored(existing: Seq<char>)
    ensures
        is_ignored(with_local_state_ignored(existing)),
        with_local_state_ignored(existing).take(existing.len() as int) =~= existing,
{
    reveal_strlit("\n");
    reveal_strlit(".lightrail/\n");
    reveal_strlit(".lightrail/");
    let line = ".lightrail/"@;
    let before = existing + (if existing.len() > 0 && existing.last() != '\n' {
        "\n"@
    } else {
        Seq::empty()
    });
    if existing.len() > 0 && existing.last() == '\n' {
        assert(before =~= existing);
    }
    let after = ".lightrail/\n"@;
    assert(after =~= line + seq!['\n'] + Seq::<char>::empty());
    assert(!line.contains('\n'));
    text::first_parts_are_split_off(line, '\n', Seq::empty());
    assert(text::split(after, '\n')[0] == line);
    lemma_later_lines(before, after, 0);
    text::trimming_takes_surrounding_space(line);
    let whole = with_local_state_ignored(existing);
    assert(whole =~= before + after);
    let lines = text::split(whole, '\n');
    let i = choose|i: int| 0 <= i < lines.len() && lines[i] == line;
    assert(line.len() == 11 && line[0] == '.' && line.last() == '/');
    assert(text::trimmed(lines[i]) == line);
    assert(ignores_local_state(lines[i]));
}

} // verus!
