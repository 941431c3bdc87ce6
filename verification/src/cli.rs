//! The command line: what each command asks for, and what is said of its result.

use vstd::prelude::*;

use crate::config::{Capability, Isolation};
use crate::error::{CliError, CliErrorV};
use crate::init::{InitOptions, InitSummary, InitializedApp};
use crate::lifecycle::{DownOptions, LogOptions, PruneOptions, QueryOptions, UpOptions};
use crate::output::OutputFormat;
use crate::plugin_host::{FLY_PLUGIN_ID, HETZNER_PLUGIN_ID, KUBERNETES_PLUGIN_ID, SSH_PLUGIN_ID};
use crate::profile::{ProfileSummary, SelectedProfile};
use crate::settings::TargetKind;
use crate::text;
use crate::view;

verus! {

/// A command line.
pub struct Cli {
    /// The profile that is selected; during init, the name of the first profile.
    pub profile: Option<String>,
    pub output: OutputFormat,
    pub verbose: u8,
    pub command: Command,
}

/// A command.
pub enum Command {
    Init(InitArgs),
    Profile(ProfileArgs),
    Up(UpArgs),
    Status(QueryArgs),
    Urls(QueryArgs),
    Logs(LogsArgs),
    Down(DownArgs),
    Prune(PruneArgs),
    Doctor(DoctorArgs),
    Secret(SecretArgs),
    Plugin(PluginArgs),
    Completion { shell: String },
    Version,
}

/// What `init` is given.
#[derive(Debug)]
pub struct InitArgs {
    pub non_interactive: bool,
    pub from: Option<String>,
    pub target: Option<TargetKind>,
    pub domain: Option<String>,
    pub force: bool,
}

/// What `profile` is given.
#[derive(Debug)]
pub struct ProfileArgs {
    pub command: ProfileCommand,
}

/// A command on profiles.
#[derive(Debug)]
pub enum ProfileCommand {
    Add { name: String, from: Option<String> },
    List,
    Show { name: String },
    Remove { name: String },
    Default { name: String },
}

/// What `up` is given.
#[derive(Debug)]
pub struct UpArgs {
    pub dry_run: bool,
    pub keep_failed: bool,
    pub lock_timeout_seconds: u64,
}

/// What queries are given.
#[derive(Debug)]
pub struct QueryArgs {
    pub all: bool,
}

/// What `logs` is given.
#[derive(Debug)]
pub struct LogsArgs {
    pub service: Option<String>,
    pub follow: bool,
    pub tail: usize,
}

/// What `down` is given.
#[derive(Debug)]
pub struct DownArgs {
    pub all: bool,
    pub dry_run: bool,
    pub yes: bool,
    pub force: bool,
    pub lock_timeout_seconds: u64,
}

/// What `prune` is given.
#[derive(Debug)]
pub struct PruneArgs {
    pub dry_run: bool,
    pub yes: bool,
    pub lock_timeout_seconds: u64,
}

/// What `doctor` is given.
#[derive(Debug)]
pub struct DoctorArgs {
    pub target: bool,
}

/// What `secret` is given.
#[derive(Debug)]
pub struct SecretArgs {
    pub command: SecretCommand,
}

/// A command on secrets.
#[derive(Debug)]
pub enum SecretCommand {
    Store { name: String, stdin: bool },
    List,
    Delete { name: String },
}

/// What `plugin` is given.
#[derive(Debug)]
pub struct PluginArgs {
    pub command: PluginCommand,
}

/// A command on plugins.
#[derive(Debug)]
pub enum PluginCommand {
    Install { source: String },
    Sync,
    List,
    Inspect { id: String },
    Update { id: String },
    Remove { id: String },
}

// ---------------------------------------------------------------------------
// Durations
// ---------------------------------------------------------------------------

/// The number in a duration, and what it counts in seconds.
pub open spec fn duration_parts(value: Seq<char>) -> (Seq<char>, nat) {
    if value.len() > 0 && value.last() == 's' {
        (value.drop_last(), 1)
    } else if value.len() > 0 && value.last() == 'm' {
        (value.drop_last(), 60)
    } else {
        (value, 1)
    }
}

/// Reads a duration: seconds (`30s`, `30`) or minutes (`2m`).
///
/// # Errors
///
/// Returns a description of what is wrong.
pub fn parse_duration(value: &str) -> (r: Result<u64, String>)
    ensures
        ({
            let (number, unit) = duration_parts(value@);
            match (text::parsed(number, u64::MAX as nat), r) {
                (Some(n), Ok(seconds)) => seconds == n * unit,
                (Some(n), Err(e)) => n * unit > u64::MAX && e@ == "duration `"@ + value@ + "` is too large"@,
                (None, Err(e)) => e@ == "invalid duration `"@ + value@
                    + "`; use seconds (`30s`) or minutes (`2m`)"@,
                _ => false,
            }
        }),
{
    let chars = text::chars_of(value);
    let mut to: usize = chars.len();
    let mut unit: u64 = 1;
    if to > 0 && chars[to - 1] == 's' {
        to = to - 1;
    } else if to > 0 && chars[to - 1] == 'm' {
        to = to - 1;
        unit = 60;
    }
    let number = text::string_of(&chars, 0, to);
    assert(number@ =~= duration_parts(value@).0);
    match text::parse_unsigned(number.as_str(), u64::MAX) {
        None => Err(
            text::cat3("invalid duration `", value, "`; use seconds (`30s`) or minutes (`2m`)"),
        ),
        Some(n) => match n.checked_mul(unit) {
            Some(seconds) => Ok(seconds),
            None => Err(text::cat3("duration `", value, "` is too large")),
        },
    }
}

// ---------------------------------------------------------------------------
// What a command asks for
// ---------------------------------------------------------------------------

/// What a command line asks for.
pub enum Request {
    Init(InitOptions),
    AddProfile { name: String, template: Option<String> },
    ListProfiles,
    ShowProfile { name: String },
    RemoveProfile { name: String },
    DefaultProfile { name: String },
    Up(UpOptions),
    Query { options: QueryOptions, urls_only: bool },
    Logs(LogOptions),
    Down(DownOptions),
    Prune(PruneOptions),
    Doctor { target: bool },
    Secret(SecretCommand),
    Plugin(PluginCommand),
    Completion { shell: String },
    Version,
}

/// The options that `init` runs with.
pub open spec fn init_options_of(
    arguments: InitArgs,
    profile: Option<String>,
    start: Seq<char>,
    options: InitOptions,
) -> bool {
    &&& options.start@ == start
    &&& options.profile@ == match profile {
        Some(name) => name@,
        None => "preview"@,
    }
    &&& options.target == arguments.target
    &&& options.dns_domain == arguments.domain
    &&& options.non_interactive == (arguments.non_interactive || arguments.from is Some)
    &&& options.answers_file == arguments.from
    &&& options.force == arguments.force
}

/// What a command line asks for.
pub open spec fn asks_for(cli: Cli, start: Seq<char>, request: Request) -> bool {
    match (cli.command, request) {
        (Command::Init(a), Request::Init(o)) => init_options_of(a, cli.profile, start, o),
        (Command::Profile(a), r) => match (a.command, r) {
            (ProfileCommand::Add { name, from }, Request::AddProfile { name: n, template }) => name == n
                && template == match from {
                Some(_) => from,
                None => cli.profile,
            },
            (ProfileCommand::List, Request::ListProfiles) => true,
            (ProfileCommand::Show { name }, Request::ShowProfile { name: n }) => name == n,
            (ProfileCommand::Remove { name }, Request::RemoveProfile { name: n }) => name == n,
            (ProfileCommand::Default { name }, Request::DefaultProfile { name: n }) => name == n,
            _ => false,
        },
        (Command::Up(a), Request::Up(o)) => o.dry_run == a.dry_run && o.keep_failed == a.keep_failed
            && o.lock_timeout_ms == a.lock_timeout_seconds * 1000 && o.output == cli.output,
        (Command::Status(a), Request::Query { options, urls_only }) => options.all == a.all
            && options.output == cli.output && !urls_only,
        (Command::Urls(a), Request::Query { options, urls_only }) => options.all == a.all
            && options.output == cli.output && urls_only,
        (Command::Logs(a), Request::Logs(o)) => o.service == a.service && o.follow == a.follow && o.tail
            == a.tail && o.output == cli.output,
        (Command::Down(a), Request::Down(o)) => o.all == a.all && o.dry_run == a.dry_run && o.yes == a.yes
            && o.force == a.force && o.lock_timeout_ms == a.lock_timeout_seconds * 1000 && o.output
            == cli.output,
        (Command::Prune(a), Request::Prune(o)) => o.dry_run == a.dry_run && o.yes == a.yes
            && o.lock_timeout_ms == a.lock_timeout_seconds * 1000 && o.output == cli.output,
        (Command::Doctor(a), Request::Doctor { target }) => target == a.target,
        (Command::Secret(a), Request::Secret(c)) => a.command == c,
        (Command::Plugin(a), Request::Plugin(c)) => a.command == c,
        (Command::Completion { shell }, Request::Completion { shell: s }) => shell == s,
        (Command::Version, Request::Version) => true,
        _ => false,
    }
}

/// Whether a command line asks for answers that it does not give.
pub open spec fn lacks_answers(command: Command) -> bool {
    match command {
        Command::Init(a) => a.non_interactive && a.from is None,
        _ => false,
    }
}

/// What a command on profiles asks for.
fn profile_request(command: ProfileCommand, selected: Option<String>) -> (r: Request)
    ensures
        match (command, r) {
            (ProfileCommand::Add { name, from }, Request::AddProfile { name: n, template }) => name == n
                && template == match from {
                Some(_) => from,
                None => selected,
            },
            (ProfileCommand::List, Request::ListProfiles) => true,
            (ProfileCommand::Show { name }, Request::ShowProfile { name: n }) => name == n,
            (ProfileCommand::Remove { name }, Request::RemoveProfile { name: n }) => name == n,
            (ProfileCommand::Default { name }, Request::DefaultProfile { name: n }) => name == n,
            _ => false,
        },
{
    match command {
        ProfileCommand::Add { name, from } => {
            let template = match from {
                Some(template) => Some(template),
                None => selected,
            };
            Request::AddProfile { name, template }
        },
        ProfileCommand::List => Request::ListProfiles,
        ProfileCommand::Show { name } => Request::ShowProfile { name },
        ProfileCommand::Remove { name } => Request::RemoveProfile { name },
        ProfileCommand::Default { name } => Request::DefaultProfile { name },
    }
}

/// What a command line asks for, from a directory.
///
/// # Errors
///
/// Returns an error where `init` may not ask and is given no answers.
pub fn dispatch(cli: Cli, start: &str) -> (r: Result<Request, CliError>)
    ensures
        match r {
            Ok(request) => !lacks_answers(cli.command) && asks_for(cli, start@, request),
            Err(e) => lacks_answers(cli.command) && e@ == CliErrorV::Usage(
                "`init --non-interactive` requires `--from <FILE>` with complete target answers"@,
            ),
        },
{
    let Cli { profile, output, verbose: _, command } = cli;
    Ok(
        match command {
            Command::Init(arguments) => {
                if arguments.non_interactive && arguments.from.is_none() {
                    return Err(
                        CliError::Usage(
                            "`init --non-interactive` requires `--from <FILE>` with complete target answers".to_owned(),
                        ),
                    );
                }
                let name = match profile {
                    Some(name) => name,
                    None => "preview".to_owned(),
                };
                Request::Init(
                    InitOptions {
                        start: start.to_owned(),
                        profile: name,
                        target: arguments.target,
                        dns_domain: arguments.domain,
                        non_interactive: arguments.non_interactive || arguments.from.is_some(),
                        answers_file: arguments.from,
                        force: arguments.force,
                    },
                )
            },
            Command::Profile(arguments) => profile_request(arguments.command, profile),
            Command::Up(arguments) => Request::Up(
                UpOptions {
                    dry_run: arguments.dry_run,
                    keep_failed: arguments.keep_failed,
                    lock_timeout_ms: milliseconds(arguments.lock_timeout_seconds),
                    output,
                },
            ),
            Command::Status(arguments) => Request::Query {
                options: QueryOptions { all: arguments.all, output },
                urls_only: false,
            },
            Command::Urls(arguments) => Request::Query {
                options: QueryOptions { all: arguments.all, output },
                urls_only: true,
            },
            Command::Logs(arguments) => Request::Logs(
                LogOptions {
                    service: arguments.service,
                    follow: arguments.follow,
                    tail: arguments.tail,
                    output,
                },
            ),
            Command::Down(arguments) => Request::Down(
                DownOptions {
                    all: arguments.all,
                    dry_run: arguments.dry_run,
                    yes: arguments.yes,
                    force: arguments.force,
                    lock_timeout_ms: milliseconds(arguments.lock_timeout_seconds),
                    output,
                },
            ),
            Command::Prune(arguments) => Request::Prune(
                PruneOptions {
                    dry_run: arguments.dry_run,
                    yes: arguments.yes,
                    lock_timeout_ms: milliseconds(arguments.lock_timeout_seconds),
                    output,
                },
            ),
            Command::Doctor(arguments) => Request::Doctor { target: arguments.target },
            Command::Secret(arguments) => Request::Secret(arguments.command),
            Command::Plugin(arguments) => Request::Plugin(arguments.command),
            Command::Completion { shell } => Request::Completion { shell },
            Command::Version => Request::Version,
        },
    )
}

/// Seconds in milliseconds.
fn milliseconds(seconds: u64) -> (r: u128)
    ensures
        r == seconds * 1000,
{
    seconds as u128 * 1000
}

// ---------------------------------------------------------------------------
// Names
// ---------------------------------------------------------------------------

/// The name of an isolation.
pub fn isolation_name(isolation: Isolation) -> (r: &'static str)
    ensures
        r@ == isolation.text(),
{
    isolation.as_str()
}

/// The name of a target for a person: that of a bundled plugin, or the identifier.
pub open spec fn target_title(id: Seq<char>) -> Seq<char> {
    if id == SSH_PLUGIN_ID@ {
        "Generic SSH host"@
    } else if id == HETZNER_PLUGIN_ID@ {
        "Hetzner Cloud"@
    } else if id == KUBERNETES_PLUGIN_ID@ {
        "Kubernetes"@
    } else if id == FLY_PLUGIN_ID@ {
        "Fly.io"@
    } else {
        id
    }
}

/// The name of a target for a person.
pub fn target_name(plugin_id: &str) -> (r: &str)
    ensures
        r@ == target_title(plugin_id@),
{
    if text::same(plugin_id, SSH_PLUGIN_ID) {
        "Generic SSH host"
    } else if text::same(plugin_id, HETZNER_PLUGIN_ID) {
        "Hetzner Cloud"
    } else if text::same(plugin_id, KUBERNETES_PLUGIN_ID) {
        "Kubernetes"
    } else if text::same(plugin_id, FLY_PLUGIN_ID) {
        "Fly.io"
    } else {
        plugin_id
    }
}

// ---------------------------------------------------------------------------
// What is said of a project that was set up
// ---------------------------------------------------------------------------

/// The line on the domain.
pub open spec fn dns_line(target: TargetKind, domain: Seq<char>) -> Seq<char> {
    "  dns      "@ + domain + match target {
        TargetKind::Fly => " (provider native)"@,
        TargetKind::Kubernetes => " (ingress IPv4 encoded as hex)"@,
        TargetKind::Ssh => " (hex IPv4)"@,
        TargetKind::Hetzner => " (hex IPv4)"@,
    }
}

/// The line on an application.
pub open spec fn app_line(app: InitializedApp) -> Seq<char> {
    "    "@ + view::padded(app.name@, 16) + " "@ + app.service@ + ":"@ + text::decimal(
        app.port as nat,
    )
}

/// The lines before the applications.
pub open spec fn opening_lines(summary: InitSummary) -> Seq<Seq<char>> {
    let head = Seq::<Seq<char>>::empty().push(
        "Initialized `"@ + summary.project_slug@ + "`"@,
    ).push("  config   "@ + summary.config_path@).push("  profile  "@ + summary.profile@).push(
        "  target   "@ + summary.target.title() + " ("@ + summary.isolation.text() + " isolation)"@,
    );
    let detailed = match summary.target_detail {
        Some(detail) => head.push("           "@ + detail@),
        None => head,
    };
    detailed.push(dns_line(summary.target, summary.dns_domain@)).push("  apps"@)
}

/// The lines after others on applications.
pub open spec fn with_app_lines(lines: Seq<Seq<char>>, apps: Seq<InitializedApp>) -> Seq<Seq<char>>
    decreases apps.len(),
{
    if apps.len() == 0 {
        lines
    } else {
        with_app_lines(lines, apps.drop_last()).push(app_line(apps.last()))
    }
}

/// The hint on what a target needs before the first deployment.
pub open spec fn target_hint(target: TargetKind) -> Option<Seq<char>> {
    match target {
        TargetKind::Hetzner => Some(
            "  `up` asks once for `hetzner-token`; run `lightrail secret set hetzner-token` to store it for reuse."@,
        ),
        TargetKind::Fly => Some(
            "  `up` asks once for `fly-token`; run `lightrail secret set fly-token` to store it for reuse."@,
        ),
        TargetKind::Kubernetes => Some(
            "  Ensure the control namespace, IngressClass, ClusterIssuer, and optional image-pull Secret already exist."@,
        ),
        TargetKind::Ssh => None,
    }
}

/// The lines on a project that was set up.
pub open spec fn summary_text(summary: InitSummary) -> Seq<Seq<char>> {
    let next = with_app_lines(opening_lines(summary), summary.apps@).push(""@).push(
        "Next: lightrail up --dry-run"@,
    );
    let hinted = match target_hint(summary.target) {
        Some(hint) => next.push(hint),
        None => next,
    };
    hinted.push("  Then deploy: lightrail up"@)
}

/// The lines before the applications.
fn open_summary(summary: &InitSummary) -> (r: Vec<String>)
    ensures
        text::texts(r@) == opening_lines(*summary),
{
    let mut lines: Vec<String> = Vec::new();
    assert(text::texts(lines@) =~= Seq::<Seq<char>>::empty());
    view::push_line(&mut lines, text::cat3("Initialized `", summary.project_slug.as_str(), "`"));
    view::push_line(&mut lines, text::cat2("  config   ", summary.config_path.as_str()));
    view::push_line(&mut lines, text::cat2("  profile  ", summary.profile.as_str()));
    view::push_line(
        &mut lines,
        text::cat5(
            "  target   ",
            summary.target.to_text(),
            " (",
            isolation_name(summary.isolation),
            " isolation)",
        ),
    );
    if let Some(detail) = &summary.target_detail {
        view::push_line(&mut lines, text::cat2("           ", detail.as_str()));
    }
    let suffix = match summary.target {
        TargetKind::Fly => " (provider native)",
        TargetKind::Kubernetes => " (ingress IPv4 encoded as hex)",
        TargetKind::Ssh => " (hex IPv4)",
        TargetKind::Hetzner => " (hex IPv4)",
    };
    view::push_line(&mut lines, text::cat3("  dns      ", summary.dns_domain.as_str(), suffix));
    view::push_line(&mut lines, "  apps".to_owned());
    lines
}

/// The lines on a project that was set up; a document stands for them instead where the
/// format is one.
pub fn init_summary_lines(summary: &InitSummary, format: OutputFormat) -> (r: Option<Vec<String>>)
    ensures
        match (format, r) {
            (OutputFormat::Json, None) => true,
            (OutputFormat::Plain, Some(lines)) => text::texts(lines@) == seq![summary.config_path@],
            (OutputFormat::Human, Some(lines)) => text::texts(lines@) == summary_text(*summary),
            _ => false,
        },
{
    match format {
        OutputFormat::Json => None,
        OutputFormat::Plain => {
            let mut lines: Vec<String> = Vec::new();
            lines.push(summary.config_path.clone());
            assert(text::texts(lines@) =~= seq![summary.config_path@]);
            Some(lines)
        },
        OutputFormat::Human => {
            let mut lines = open_summary(summary);
            let mut i: usize = 0;
            assert(summary.apps@.take(0) =~= Seq::<InitializedApp>::empty());
            while i < summary.apps.len()
                invariant
                    i <= summary.apps@.len(),
                    text::texts(lines@) == with_app_lines(
                        opening_lines(*summary),
                        summary.apps@.take(i as int),
                    ),
                decreases summary.apps.len() - i,
            {
                assert(summary.apps@.take(i + 1).drop_last() =~= summary.apps@.take(i as int));
                let app = &summary.apps[i];
                let head = text::cat3("    ", view::pad(app.name.as_str(), 16).as_str(), " ");
                view::push_line(
                    &mut lines,
                    text::cat4(
                        head.as_str(),
                        app.service.as_str(),
                        ":",
                        text::number(app.port as u128).as_str(),
                    ),
                );
                i += 1;
            }
            assert(summary.apps@.take(summary.apps@.len() as int) =~= summary.apps@);
            view::push_line(&mut lines, "".to_owned());
            view::push_line(&mut lines, "Next: lightrail up --dry-run".to_owned());
            match summary.target {
                TargetKind::Hetzner => view::push_line(
                    &mut lines,
                    "  `up` asks once for `hetzner-token`; run `lightrail secret set hetzner-token` to store it for reuse.".to_owned(),
                ),
                TargetKind::Fly => view::push_line(
                    &mut lines,
                    "  `up` asks once for `fly-token`; run `lightrail secret set fly-token` to store it for reuse.".to_owned(),
                ),
                TargetKind::Kubernetes => view::push_line(
                    &mut lines,
                    "  Ensure the control namespace, IngressClass, ClusterIssuer, and optional image-pull Secret already exist.".to_owned(),
                ),
                TargetKind::Ssh => {},
            }
            view::push_line(&mut lines, "  Then deploy: lightrail up".to_owned());
            Some(lines)
        },
    }
}

// ---------------------------------------------------------------------------
// What is said of profiles
// ---------------------------------------------------------------------------

/// A name with a mark on the default.
pub open spec fn marked_name(name: Seq<char>, is_default: bool) -> Seq<char> {
    name + if is_default {
        " (default)"@
    } else {
        ""@
    }
}

/// A name with a mark on the default.
fn mark_name(name: &str, is_default: bool) -> (r: String)
    ensures
        r@ == marked_name(name@, is_default),
{
    text::cat2(
        name,
        if is_default {
            " (default)"
        } else {
            ""
        },
    )
}

/// The line of a profile.
pub open spec fn profile_line(row: ProfileSummary, human: bool) -> Seq<char> {
    if human {
        view::padded(marked_name(row.name@, row.is_default), 20) + " "@ + view::padded(
            row.isolation.text(),
            9,
        ) + " "@ + target_title(row.target_plugin@)
    } else {
        row.name@
    }
}

/// The lines of profiles; a document stands for them instead where the format is one.
pub fn profile_list_lines(rows: &Vec<ProfileSummary>, format: OutputFormat) -> (r: Option<Vec<String>>)
    ensures
        match r {
            None => format == OutputFormat::Json,
            Some(lines) => format != OutputFormat::Json && text::texts(lines@) == Seq::new(
                rows@.len(),
                |i: int| profile_line(rows@[i], format == OutputFormat::Human),
            ),
        },
{
    if format == OutputFormat::Json {
        return None;
    }
    let human = format == OutputFormat::Human;
    let mut lines: Vec<String> = Vec::new();
    let mut i: usize = 0;
    while i < rows.len()
        invariant
            i <= rows@.len(),
            lines@.len() == i,
            forall|k: int| 0 <= k < i ==> (#[trigger] lines@[k])@ == profile_line(rows@[k], human),
        decreases rows.len() - i,
    {
        let row = &rows[i];
        if human {
            let marked = mark_name(row.name.as_str(), row.is_default);
            lines.push(
                text::cat5(
                    view::pad(marked.as_str(), 20).as_str(),
                    " ",
                    view::pad(isolation_name(row.isolation), 9).as_str(),
                    " ",
                    target_name(row.target_plugin.as_str()),
                ),
            );
        } else {
            lines.push(row.name.clone());
        }
        i += 1;
    }
    assert(text::texts(lines@) =~= Seq::new(rows@.len(), |k: int| profile_line(rows@[k], human)));
    Some(lines)
}

/// The lines on one profile for a person.
pub fn profile_lines(selected: &SelectedProfile) -> (r: Vec<String>)
    ensures
        text::texts(r@) == seq![
            marked_name(selected.name@, selected.is_default),
            "  isolation  "@ + selected.profile.isolation.text(),
            "  target     "@ + target_title(selected.profile.pipeline.assigned(Capability::Target)),
            "  apps       "@ + text::joined(text::texts(selected.profile.apps@), ", "@),
        ],
{
    let mut lines: Vec<String> = Vec::new();
    lines.push(mark_name(selected.name.as_str(), selected.is_default));
    lines.push(text::cat2("  isolation  ", isolation_name(selected.profile.isolation)));
    lines.push(
        text::cat2("  target     ", target_name(selected.profile.pipeline.target.as_str())),
    );
    lines.push(text::cat2("  apps       ", text::join(&selected.profile.apps, ", ").as_str()));
    assert(text::texts(lines@) =~= seq![
        marked_name(selected.name@, selected.is_default),
        "  isolation  "@ + selected.profile.isolation.text(),
        "  target     "@ + target_title(selected.profile.pipeline.assigned(Capability::Target)),
        "  apps       "@ + text::joined(text::texts(selected.profile.apps@), ", "@),
    ]);
    lines
}

/// A change to the profiles.
#[derive(Clone, Copy, Debug, PartialEq, Eq, Structural)]
pub enum ProfileChange {
    Added,
    Removed,
    Default,
}

/// What is said of a change to the profiles; a document says it instead where the format is
/// one.
pub fn profile_change_line(change: ProfileChange, name: &str, format: OutputFormat) -> (r: Option<String>)
    ensures
        text::option_of(r) == if format == OutputFormat::Json {
            None
        } else {
            Some(
                match change {
                    ProfileChange::Added => "added profile `"@,
                    ProfileChange::Removed => "removed profile `"@,
                    ProfileChange::Default => "default profile is now `"@,
                } + name@ + "`"@,
            )
        },
{
    if format == OutputFormat::Json {
        return None;
    }
    let head = match change {
        ProfileChange::Added => "added profile `",
        ProfileChange::Removed => "removed profile `",
        ProfileChange::Default => "default profile is now `",
    };
    Some(text::cat3(head, name, "`"))
}

/// A number of seconds is read with or without its unit, and a number of minutes counts for
/// sixty times as many seconds.
pub proof fn durations_count_seconds(n: u64)
    ensures
        ({
            let (number, unit) = duration_parts(text::decimal(n as nat) + "s"@);
            text::parsed(number, u64::MAX as nat) == Some(n as nat) && unit == 1
        }),
        ({
            let (number, unit) = duration_parts(text::decimal(n as nat) + "m"@);
            text::parsed(number, u64::MAX as nat) == Some(n as nat) && unit == 60
        }),
        ({
            let (number, unit) = duration_parts(text::decimal(n as nat));
            text::parsed(number, u64::MAX as nat) == Some(n as nat) && unit == 1
        }),
{
    let digits = text::decimal(n as nat);
    text::lemma_decimal(n as nat);
    reveal_strlit("s");
    reveal_strlit("m");
    assert((digits + "s"@).drop_last() =~= digits);
    assert((digits + "m"@).drop_last() =~= digits);
    assert(text::is_digit(digits[0]));
    assert(text::is_digit(digits.last()));
}

/// `down` destroys what it is told to, and asks, forces and rehearses only as it is told.
pub proof fn down_does_as_told(cli: Cli, start: Seq<char>, request: Request)
    requires
        asks_for(cli, start, request),
    ensures
        cli.command matches Command::Down(a) ==> (request matches Request::Down(o) && o.all == a.all && o.dry_run
            == a.dry_run && o.yes == a.yes && o.force == a.force && o.lock_timeout_ms == a.lock_timeout_seconds
            * 1000 && o.output == cli.output),
        request matches Request::Down(o) ==> cli.command is Down,
{
}

/// `up` changes nothing where it only rehearses, and keeps what failed only where it is told to.
pub proof fn up_does_as_told(cli: Cli, start: Seq<char>, request: Request)
    requires
        asks_for(cli, start, request),
    ensures
        cli.command matches Command::Up(a) ==> (request matches Request::Up(o) && o.dry_run == a.dry_run
            && o.keep_failed == a.keep_failed && o.lock_timeout_ms == a.lock_timeout_seconds * 1000 && o.output
            == cli.output),
        request matches Request::Up(o) ==> cli.command is Up,
{
}

/// `prune` rehearses and asks as it is told.
pub proof fn prune_does_as_told(cli: Cli, start: Seq<char>, request: Request)
    requires
        asks_for(cli, start, request),
    ensures
        cli.command matches Command::Prune(a) ==> (request matches Request::Prune(o) && o.dry_run == a.dry_run
            && o.yes == a.yes && o.lock_timeout_ms == a.lock_timeout_seconds * 1000 && o.output == cli.output),
        request matches Request::Prune(o) ==> cli.command is Prune,
{
}

/// `status` and `urls` ask the same question and differ only in what they show of the answer;
/// `logs` asks for the service and the lines that it is told.
pub proof fn queries_do_as_told(cli: Cli, start: Seq<char>, request: Request)
    requires
        asks_for(cli, start, request),
    ensures
        cli.command matches Command::Status(a) ==> (request matches Request::Query { options, urls_only }
            && options.all == a.all && options.output == cli.output && !urls_only),
        cli.command matches Command::Urls(a) ==> (request matches Request::Query { options, urls_only }
            && options.all == a.all && options.output == cli.output && urls_only),
        cli.command matches Command::Logs(a) ==> (request matches Request::Logs(o) && o.service == a.service
            && o.follow == a.follow && o.tail == a.tail && o.output == cli.output),
        cli.command matches Command::Doctor(a) ==> (request matches Request::Doctor { target } && target == a.target),
{
}

/// `init` writes the profile that is named, or else `preview`, overwrites only where it is told
/// to, and asks nothing where its answers come from a file.
pub proof fn init_does_as_told(cli: Cli, start: Seq<char>, request: Request)
    requires
        asks_for(cli, start, request),
    ensures
        cli.command matches Command::Init(a) ==> (request matches Request::Init(o) && o.start@ == start && o.force
            == a.force && o.target == a.target && o.dns_domain == a.domain && o.answers_file == a.from && (a.from
            is Some ==> o.non_interactive) && (a.non_interactive ==> o.non_interactive) && (a.from is None
            && !a.non_interactive ==> !o.non_interactive) && (cli.profile matches Some(name) ==> o.profile@
            == name@) && (cli.profile is None ==> o.profile@ == "preview"@)),
{
}

/// Commands on profiles, secrets and plugins reach what they name.
pub proof fn named_things_are_meant(cli: Cli, start: Seq<char>, request: Request)
    requires
        asks_for(cli, start, request),
    ensures
        cli.command matches Command::Profile(a) ==> {
            &&& a.command matches ProfileCommand::Add { name, from } ==> (request matches Request::AddProfile {
                name: n,
                template,
            } && n == name && (from is Some ==> template == from) && (from is None ==> template == cli.profile))
            &&& a.command matches ProfileCommand::Show { name } ==> request == (Request::ShowProfile { name })
            &&& a.command matches ProfileCommand::Remove { name } ==> request == (Request::RemoveProfile { name })
            &&& a.command matches ProfileCommand::Default { name } ==> request == (Request::DefaultProfile { name })
        },
        cli.command matches Command::Secret(a) ==> request == Request::Secret(a.command),
        cli.command matches Command::Plugin(a) ==> request == Request::Plugin(a.command),
{
}

/// Lines of applications follow what stands before them, one for each.
proof fn lemma_app_lines(lines: Seq<Seq<char>>, apps: Seq<InitializedApp>)
    ensures
        with_app_lines(lines, apps).len() == lines.len() + apps.len(),
        forall|i: int| 0 <= i < lines.len() ==> #[trigger] with_app_lines(lines, apps)[i] == lines[i],
        forall|i: int|
            0 <= i < apps.len() ==> with_app_lines(lines, apps)[lines.len() + i] == app_line(#[trigger] apps[i]),
    decreases apps.len(),
{
    if apps.len() > 0 {
        lemma_app_lines(lines, apps.drop_last());
        assert forall|i: int| 0 <= i < apps.len() implies with_app_lines(lines, apps)[lines.len() + i] == app_line(
            #[trigger] apps[i],
        ) by {
            if i < apps.len() - 1 {
                assert(apps.drop_last()[i] == apps[i]);
            }
        }
    }
}

/// The summary of `init` starts with the project, names the configuration, the profile and the
/// target, shows each application with its service and its port, and ends with what to do.
pub proof fn summaries_show_what_was_made(summary: InitSummary, i: int)
    requires
        0 <= i < summary.apps@.len(),
    ensures
        summary_text(summary)[0] == "Initialized `"@ + summary.project_slug@ + "`"@,
        summary_text(summary)[1] == "  config   "@ + summary.config_path@,
        summary_text(summary)[2] == "  profile  "@ + summary.profile@,
        summary_text(summary).contains(
            "    "@ + view::padded(summary.apps@[i].name@, 16) + " "@ + summary.apps@[i].service@ + ":"@
                + text::decimal(summary.apps@[i].port as nat),
        ),
        summary_text(summary).last() == "  Then deploy: lightrail up"@,
{
    let opening = opening_lines(summary);
    lemma_app_lines(opening, summary.apps@);
    let all = with_app_lines(opening, summary.apps@);
    assert(all[0] == opening[0] && all[1] == opening[1] && all[2] == opening[2]);
    assert(all[opening.len() + i] == app_line(summary.apps@[i]));
    assert(summary_text(summary)[opening.len() + i] == app_line(summary.apps@[i]));
}

/// A plain list of profiles holds their bare names.
pub proof fn plain_profiles_are_bare_names(row: ProfileSummary)
    ensures
        profile_line(row, false) == row.name@,
        row.is_default ==> profile_line(row, true) == view::padded(row.name@ + " (default)"@, 20) + " "@
            + view::padded(row.isolation.text(), 9) + " "@ + target_title(row.target_plugin@),
{
}

} // verus!
