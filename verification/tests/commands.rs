use lightrail::admin::{accept_probe, inspection_lines, plugin_status_lines, PluginInspection, PluginStatus};
use lightrail::cli::{
    dispatch, init_summary_lines, parse_duration, profile_change_line, profile_lines, profile_list_lines, target_name,
    Cli, Command, InitArgs, ProfileArgs, ProfileChange, ProfileCommand, PruneArgs, Request, UpArgs,
};
use lightrail::collections::{StringMap, StringSet};
use lightrail::config::{
    App, Capability, EnvironmentValue, Isolation, LightrailConfig, PluginId, PluginPipeline, Profile, Project,
    ProjectId, CONFIG_SCHEMA_VERSION,
};
use lightrail::doctor::{
    doctor_lines, ensure_healthy, target_check, target_check_status, target_specific_check, CheckStatus, Doctor,
    DoctorReport, TargetOutcome,
};
use lightrail::error::CliError;
use lightrail::fleet::{first_error, resolve_uncached_secret, OperationSecretCache, SecretLookup};
use lightrail::init::{InitSummary, InitializedApp};
use lightrail::output::{diagnostic_level, OutputFormat};
use lightrail::plugin_host::{
    accept_manifest, bundled_executable, bundled_launch, find_bundled_executable_from, pinned_launch, pinned_plugin,
    probe_environment, require_capability, sanitized_environment, sibling_path, Candidate, COMPOSE_PLUGIN_ID,
    FLY_PLUGIN_ID, HETZNER_PLUGIN_ID, KUBERNETES_PLUGIN_ID, SSH_PLUGIN_ID,
};
use lightrail::plugin_registry::{
    accept_download, check_destination, check_local_source, check_source, check_update, executable_path, is_installed,
    local_source_path, lock_candidate, plugin_source, sha256_text, validate_plugin_version, LockedPlugin, PluginLock,
    PluginSource,
};
use lightrail::process::{conclude, start_failed, CommandSpec, ProcessOutput, SupervisionOutcome};
use lightrail::profile::{add, list, remove, resolve_profile_name, set_default, show};
use lightrail::project::merged_app_environment;
use lightrail::protocol::{ExecutableMetadata, PluginManifest, ResourceStatus, SecretValue};
use lightrail::secrets::{
    environment_name, keyring_account, piped_secret, secret_line, secret_lines, secret_prompt, validate_secret_name,
    MemoryBackend, SecretIndex, SecretStore,
};
use lightrail::settings::TargetKind;
use lightrail::value::Data;
use lightrail::version::{ProtocolCompatibility, ProtocolVersion};
use lightrail::workspace::{search_path, ProjectPaths};

fn texts(items: Vec<&str>) -> Vec<String> {
    items.into_iter().map(str::to_owned).collect()
}

fn map<V>(entries: Vec<(&str, V)>) -> StringMap<V> {
    let mut map = StringMap::new();
    for (key, value) in entries {
        map.insert(key.to_owned(), value);
    }
    map
}

fn pipeline(target: &str) -> PluginPipeline {
    let plugin = |id: &str| PluginId::new(id).expect("plugin ID");
    PluginPipeline {
        source: plugin("lightrail.source.cwd-git"),
        builder: plugin("lightrail.builder.buildx"),
        target: plugin(target),
        runtime: plugin("lightrail.runtime.compose"),
        exposure: plugin("lightrail.exposure.traefik"),
        dns: plugin("lightrail.dns.ip"),
    }
}

fn profile(target: &str) -> Profile {
    Profile {
        isolation: Isolation::Project,
        apps: vec!["web".to_owned()],
        pipeline: pipeline(target),
        settings: StringMap::new(),
        env: StringMap::new(),
        app_env: StringMap::new(),
    }
}

fn app(service: &str, port: u16) -> App {
    App {
        service: service.to_owned(),
        port,
        health_path: None,
        health_status: None,
        health_interval_seconds: None,
        health_timeout_seconds: None,
        env: StringMap::new(),
    }
}

fn config() -> LightrailConfig {
    LightrailConfig {
        schema: CONFIG_SCHEMA_VERSION,
        project: Project {
            id: ProjectId::new(),
            slug: "shop".to_owned(),
            compose: vec!["compose.yaml".to_owned()],
            default_profile: "preview".to_owned(),
        },
        apps: map(vec![("web", app("frontend", 3000))]),
        profiles: map(vec![
            ("preview", profile("lightrail.target.ssh")),
            ("staging", profile("lightrail.target.hetzner")),
        ]),
    }
}

// Profiles

#[test]
fn selection_precedence_is_cli_then_environment_then_default() {
    let config = config();

    assert_eq!(
        resolve_profile_name(&config, Some("staging"), Some("preview")).expect("CLI"),
        "staging"
    );
    assert_eq!(
        resolve_profile_name(&config, None, Some("staging")).expect("environment"),
        "staging"
    );
    assert_eq!(resolve_profile_name(&config, None, None).expect("default"), "preview");
}

#[test]
fn selection_reports_unknown_profile() {
    let error = resolve_profile_name(&config(), Some("missing"), None).expect_err("must reject");

    assert!(error.message().contains("preview"));
    assert!(error.message().contains("staging"));
}

#[test]
fn add_clones_selected_template_and_persists_valid_config() {
    let config = add(config(), "production", Some("staging")).expect("add");

    assert_eq!(
        config.profile("production").expect("profile").pipeline.target.as_str(),
        "lightrail.target.hetzner"
    );
    assert_eq!(list(&config).len(), 3);
    assert!(config.validate().is_ok());
    let error = add(config.clone(), "staging", None).expect_err("exists");
    assert_eq!(error.message(), "profile `staging` already exists");
    let error = add(config.clone(), "other", Some("missing")).expect_err("no template");
    assert!(error.message().contains("template profile `missing` does not exist"));
    assert!(matches!(add(config, "", None), Err(CliError::Config(_))));
}

#[test]
fn remove_refuses_default_and_live_environments() {
    let default_error = remove(config(), "preview", 0).expect_err("default must remain");
    assert!(default_error.message().contains("default profile"));

    let live_error = remove(config(), "staging", 2).expect_err("live profile must remain");
    assert!(live_error.message().contains("2 live environment"));

    let config = remove(config(), "staging", 0).expect("remove");
    assert!(!config.profiles.contains_key("staging"));
    assert!(config.profile("preview").is_some());
    assert!(remove(config, "staging", 0).is_err());
}

#[test]
fn removing_an_added_profile_leaves_the_others() {
    let before = config();
    let added = add(before.clone(), "production", Some("staging")).expect("add");
    assert_ne!(added, before);
    let removed = remove(added, "production", 0).expect("remove");
    assert_eq!(removed, before);
}

#[test]
fn changes_of_profiles_keep_a_configuration_valid() {
    let before = config();
    assert!(before.validate().is_ok());
    assert!(remove(before.clone(), "staging", 0).expect("remove").validate().is_ok());
    assert!(set_default(before.clone(), "staging").expect("default").validate().is_ok());
    assert!(add(before.clone(), "production", None).expect("add").validate().is_ok());
    let mut invalid = before;
    invalid.schema = 2;
    assert!(matches!(remove(invalid, "staging", 0), Err(CliError::Config(_))));
}

#[test]
fn the_default_profile_can_be_changed() {
    let changed = set_default(config(), "staging").expect("default");
    assert_eq!(changed.project.default_profile, "staging");
    assert!(show(&changed, "staging").expect("selected").is_default);
    assert!(!show(&changed, "preview").expect("selected").is_default);
    assert!(set_default(changed, "missing").is_err());
}

#[test]
fn profiles_are_shown_in_lines() {
    let config = config();
    let rows = list(&config);
    assert_eq!(
        profile_list_lines(&rows, OutputFormat::Human).expect("lines"),
        vec![
            format!("{:<20} {:<9} {}", "preview (default)", "project", "lightrail.target.ssh"),
            format!("{:<20} {:<9} {}", "staging", "project", "lightrail.target.hetzner"),
        ]
    );
    assert_eq!(profile_list_lines(&rows, OutputFormat::Plain).expect("lines"), vec!["preview", "staging"]);
    assert_eq!(profile_list_lines(&rows, OutputFormat::Json), None);
    assert_eq!(
        profile_lines(&show(&config, "preview").expect("profile")),
        vec![
            "preview (default)",
            "  isolation  project",
            "  target     lightrail.target.ssh",
            "  apps       web",
        ]
    );
    assert_eq!(target_name(HETZNER_PLUGIN_ID), "Hetzner Cloud");
    assert_eq!(
        profile_change_line(ProfileChange::Default, "staging", OutputFormat::Plain).as_deref(),
        Some("default profile is now `staging`")
    );
}

// Projects

#[test]
fn app_environment_precedence_is_app_then_profile_then_override() {
    let mut profile = profile("dev.lightrail.ssh");
    profile.env = map(vec![(
        "DATABASE_URL",
        EnvironmentValue::secret("database-url").expect("secret"),
    )]);
    profile.env.insert("LOG".to_owned(), EnvironmentValue::literal("profile"));
    profile.app_env.insert(
        "api".to_owned(),
        map(vec![("LOG", EnvironmentValue::literal("app override"))]),
    );
    let mut api = app("api", 8080);
    api.env = map(vec![("LOG", EnvironmentValue::literal("app"))]);

    let merged = merged_app_environment(&profile, "api", &api);
    assert_eq!(
        merged.get("LOG").and_then(EnvironmentValue::as_literal),
        Some("app override")
    );
    assert!(merged.get("DATABASE_URL").expect("variable").secret_name().is_some());
}

#[test]
fn config_fixture_remains_constructible() {
    let mut preview = profile("dev.lightrail.ssh");
    preview.apps = vec!["api".to_owned()];
    preview.env = map(vec![(
        "DATABASE_URL",
        EnvironmentValue::secret("database-url").expect("secret"),
    )]);
    let config = LightrailConfig {
        schema: 1,
        project: Project {
            id: ProjectId::parse("2f1c30f5-dce1-4a5c-a751-3a766f6b48ea").expect("project"),
            slug: "demo".to_owned(),
            compose: vec!["compose.yaml".to_owned()],
            default_profile: "preview".to_owned(),
        },
        apps: map(vec![("api", app("api", 8080))]),
        profiles: map(vec![("preview", preview)]),
    };
    config.validate().expect("valid");
}

#[test]
fn discovers_project_from_nested_directory() {
    let start = "/work/shop/apps/api";
    assert_eq!(
        search_path(start),
        vec!["/work/shop/apps/api", "/work/shop/apps", "/work/shop", "/work", "/"]
    );
    let paths = ProjectPaths::discover(start, &vec![false, false, true, false, false]).expect("discovered");
    assert_eq!(paths.root, "/work/shop");
    assert_eq!(paths.config, "/work/shop/lightrail.toml");
    let error = ProjectPaths::discover(start, &vec![false; 5]).expect_err("none");
    assert_eq!(error.exit_code(), 2);
    assert!(matches!(error, CliError::ProjectNotInitialized { .. }));
}

// The command line

fn cli(profile: Option<&str>, output: OutputFormat, command: Command) -> Cli {
    Cli { profile: profile.map(str::to_owned), output, verbose: 0, command }
}

#[test]
fn parses_profile_and_up_options() {
    let up = UpArgs {
        dry_run: true,
        keep_failed: false,
        lock_timeout_seconds: parse_duration("2m").expect("duration"),
    };
    match dispatch(cli(Some("preview"), OutputFormat::Json, Command::Up(up)), "/work").expect("request") {
        Request::Up(options) => {
            assert!(options.dry_run);
            assert_eq!(options.lock_timeout_ms, 120_000);
            assert_eq!(options.output, OutputFormat::Json);
        }
        _ => panic!("expected up"),
    }
}

#[test]
fn parses_safe_prune_options() {
    let prune = PruneArgs {
        dry_run: true,
        yes: false,
        lock_timeout_seconds: parse_duration("2m").expect("duration"),
    };
    match dispatch(cli(Some("preview"), OutputFormat::Human, Command::Prune(prune)), "/work").expect("request") {
        Request::Prune(options) => {
            assert!(options.dry_run);
            assert!(!options.yes);
            assert_eq!(options.lock_timeout_ms, 120_000);
        }
        _ => panic!("expected prune"),
    }
}

#[test]
fn rejects_overflowing_lock_durations() {
    assert_eq!(
        parse_duration("18446744073709551615m"),
        Err("duration `18446744073709551615m` is too large".to_owned())
    );
    assert_eq!(parse_duration("30s"), Ok(30));
    assert_eq!(parse_duration("30"), Ok(30));
    assert_eq!(
        parse_duration("soon"),
        Err("invalid duration `soon`; use seconds (`30s`) or minutes (`2m`)".to_owned())
    );
    assert!(parse_duration("").is_err());
    assert!(parse_duration("s").is_err());
}

fn init(non_interactive: bool, from: Option<&str>) -> Command {
    Command::Init(InitArgs {
        non_interactive,
        from: from.map(str::to_owned),
        target: Some(TargetKind::Hetzner),
        domain: Some("nip.io".to_owned()),
        force: false,
    })
}

#[test]
fn init_needs_answers_where_it_may_not_ask() {
    match dispatch(cli(None, OutputFormat::Human, init(false, Some("a.json"))), "/work").expect("request") {
        Request::Init(options) => {
            assert_eq!(options.profile, "preview");
            assert_eq!(options.start, "/work");
            assert!(options.non_interactive);
            assert_eq!(options.target, Some(TargetKind::Hetzner));
            assert_eq!(options.dns_domain.as_deref(), Some("nip.io"));
        }
        _ => panic!("expected init"),
    }
    let error = match dispatch(cli(Some("staging"), OutputFormat::Human, init(true, None)), "/work") {
        Err(error) => error,
        Ok(_) => panic!("must be rejected"),
    };
    assert_eq!(error.exit_code(), 2);
    assert!(error.message().contains("--from <FILE>"));
}

#[test]
fn profiles_are_added_from_the_selected_one() {
    let request = |from: Option<&str>| {
        let command = Command::Profile(ProfileArgs {
            command: ProfileCommand::Add { name: "new".to_owned(), from: from.map(str::to_owned) },
        });
        match dispatch(cli(Some("selected"), OutputFormat::Human, command), "/work").expect("request") {
            Request::AddProfile { name, template } => (name, template),
            _ => panic!("expected an addition"),
        }
    };
    assert_eq!(request(None), ("new".to_owned(), Some("selected".to_owned())));
    assert_eq!(request(Some("given")), ("new".to_owned(), Some("given".to_owned())));
}

#[test]
fn a_project_that_was_set_up_is_summarized() {
    let mut summary = InitSummary {
        config_path: "/work/lightrail.toml".to_owned(),
        project_id: "id".to_owned(),
        project_slug: "shop".to_owned(),
        profile: "preview".to_owned(),
        compose: vec!["compose.yaml".to_owned()],
        apps: vec![InitializedApp { name: "web".to_owned(), service: "frontend".to_owned(), port: 3000 }],
        target: TargetKind::Ssh,
        isolation: Isolation::Project,
        dns_domain: "sslip.io".to_owned(),
        target_detail: Some("deploy@8.8.8.8".to_owned()),
    };
    assert_eq!(
        init_summary_lines(&summary, OutputFormat::Human).expect("lines"),
        vec![
            "Initialized `shop`".to_owned(),
            "  config   /work/lightrail.toml".to_owned(),
            "  profile  preview".to_owned(),
            "  target   Generic SSH host (project isolation)".to_owned(),
            "           deploy@8.8.8.8".to_owned(),
            "  dns      sslip.io (hex IPv4)".to_owned(),
            "  apps".to_owned(),
            format!("    {:<16} {}:{}", "web", "frontend", 3000),
            String::new(),
            "Next: lightrail up --dry-run".to_owned(),
            "  Then deploy: lightrail up".to_owned(),
        ]
    );
    assert_eq!(
        init_summary_lines(&summary, OutputFormat::Plain).expect("lines"),
        vec!["/work/lightrail.toml"]
    );
    summary.target = TargetKind::Fly;
    let lines = init_summary_lines(&summary, OutputFormat::Human).expect("lines");
    assert!(lines.contains(&"  dns      sslip.io (provider native)".to_owned()));
    assert!(lines.iter().any(|line| line.contains("lightrail secret set fly-token")));
}

#[test]
fn diagnostics_follow_the_flags() {
    assert_eq!(diagnostic_level(0), "warn");
    assert_eq!(diagnostic_level(1), "info");
    assert_eq!(diagnostic_level(9), "debug");
}

// Checks

#[test]
fn target_tool_checks_are_selected_only_after_initialization() {
    let selected_tool = |plugin: Option<&str>| target_specific_check(plugin).map(|check| check.name);
    assert_eq!(selected_tool(None), None);
    assert_eq!(selected_tool(Some(FLY_PLUGIN_ID)), None);
    assert_eq!(selected_tool(Some(KUBERNETES_PLUGIN_ID)), Some("kubectl"));
    assert_eq!(selected_tool(Some(SSH_PLUGIN_ID)), Some("ssh"));
    assert_eq!(selected_tool(Some(HETZNER_PLUGIN_ID)), Some("ssh"));
}

#[test]
fn absent_machine_target_is_a_healthy_doctor_result() {
    assert_eq!(target_check_status(ResourceStatus::Absent), CheckStatus::Passed);
    assert_eq!(target_check_status(ResourceStatus::Degraded), CheckStatus::Failed);
}

fn output(succeeded: bool, stdout: &str, stderr: &str) -> ProcessOutput {
    ProcessOutput {
        succeeded,
        status: if succeeded { "exit status: 0".to_owned() } else { "exit status: 1".to_owned() },
        stdout: stdout.as_bytes().to_vec(),
        stderr: stderr.as_bytes().to_vec(),
    }
}

#[test]
fn failed_checks_are_named() {
    let mut doctor = Doctor::local();
    let mut commands = Vec::new();
    while let Some(command) = doctor.pending() {
        commands.push(command.display());
        let outcome = if commands.len() == 2 {
            Err(CliError::MissingTool { tool: "docker", detail: "not found".to_owned() })
        } else {
            Ok(output(commands.len() != 3, " version 1\n", ""))
        };
        doctor.record(outcome);
    }
    assert_eq!(
        commands,
        vec![
            "git --version",
            "docker --version",
            "docker info --format \"{{.ServerVersion}}\"",
            "docker buildx version",
            "docker compose version --short",
        ]
    );
    let mut report = doctor.report;
    let error = ensure_healthy(&report).expect_err("unhealthy");
    assert_eq!(
        error.message(),
        "operation failed: 2 prerequisite check(s) failed: docker, docker daemon; fix the checks above, then rerun `lightrail doctor`"
    );
    assert!(!report.healthy());
    report.checks.push(target_check(TargetOutcome::Inspected(Ok(ResourceStatus::Ready))));
    let lines = doctor_lines(&report, OutputFormat::Human).expect("lines");
    assert_eq!(lines[0], format!("{:<16} {:<6} {}", "git", "ok", "version 1"));
    assert_eq!(lines[2], "  help: Install Docker Engine or Docker Desktop.");
    assert_eq!(lines.last().expect("line"), &format!("{:<16} {:<6} {}", "target", "ok", "ready"));
    assert_eq!(
        doctor_lines(&report, OutputFormat::Plain).expect("lines")[1],
        "docker\tfailed"
    );
    assert!(ensure_healthy(&DoctorReport { checks: Vec::new() }).is_ok());
}

// Commands

#[test]
fn commands_are_shown_and_their_failures_reported() {
    let spec = CommandSpec::new("docker")
        .args(&texts(vec!["run", "a b"]))
        .arg("x=1")
        .cwd("/work")
        .env("KEY", "value")
        .clear_environment()
        .timeout(300);
    assert_eq!(spec.display(), "docker run \"a b\" x=1");
    assert_eq!(spec.cwd.as_deref(), Some("/work"));
    assert!(spec.clear_environment);
    assert_eq!(spec.environment, vec![("KEY".to_owned(), "value".to_owned())]);
    assert!(output(true, "", "").success(&spec).is_ok());
    let error = output(false, "", " broken \n").success(&spec).expect_err("failed").message();
    assert_eq!(error, "operation failed: `docker run \"a b\" x=1` exited with exit status: 1: broken");
    let error = output(false, "", "").success(&spec).expect_err("failed").message();
    assert_eq!(error, "operation failed: `docker run \"a b\" x=1` exited with exit status: 1");
    assert_eq!(output(true, "out", "err").combined_text(), "outerr");
    assert_eq!(output(true, "out", "").stdout_text().expect("text"), "out");
    let binary = ProcessOutput { stdout: vec![0xff], ..output(true, "", "") };
    assert!(binary.stdout_text().expect_err("bytes").message().contains("invalid UTF-8"));
    assert_eq!(binary.combined_text(), "\u{fffd}");
    let timed_out = conclude(&spec, SupervisionOutcome::TimedOut { cleanup_error: None }).expect_err("late");
    assert!(timed_out.message().contains("timed out after 300ms"));
    let cancelled = conclude(
        &spec,
        SupervisionOutcome::Cancelled { cleanup_error: Some("busy".to_owned()) },
    )
    .expect_err("cancelled");
    assert!(cancelled.message().ends_with("was cancelled; process cleanup also failed: busy"));
    assert!(conclude(&spec, SupervisionOutcome::Exited(output(false, "", ""))).is_ok());
    assert_eq!(start_failed(&spec, true, "no such file").exit_code(), 3);
    assert_eq!(start_failed(&spec, false, "denied").message(), "denied");
}

// Secrets

#[test]
fn secret_names_are_validated_before_keyring_access() {
    assert!(validate_secret_name("api-token").is_ok());
    assert!(validate_secret_name("API TOKEN").is_err());
}

#[test]
fn normalizes_environment_name() {
    assert_eq!(environment_name("hetzner-token"), "LIGHTRAIL_SECRET_HETZNER_TOKEN");
}

#[test]
fn set_list_resolve_and_delete() {
    let store = SecretStore::new("project", "/work/.lightrail");
    assert_eq!(store.index_path, "/work/.lightrail/secrets.json");
    let mut backend = MemoryBackend::default();
    let mut index = SecretIndex::default();
    backend.set("project", "api-token", SecretValue::new("secret"));
    backend.set("other", "api-token", SecretValue::new("other"));
    index.stored("api-token");
    assert_eq!(index.list(), vec!["api-token"]);
    let value = store
        .resolve("api-token", None, Ok(backend.get(&store.project_id, "api-token")))
        .expect("resolve");
    assert_eq!(value.expose_secret(), "secret");
    let value = store.resolve("api-token", Some("variable"), Ok(None)).expect("variable");
    assert_eq!(value.expose_secret(), "variable");
    backend.delete("project", "api-token");
    index.deleted("api-token");
    assert!(index.list().is_empty());
    match store.resolve("api-token", None, Ok(backend.get("project", "api-token"))) {
        Err(error) => assert_eq!(
            error.message(),
            "secret `api-token` is unavailable; set it with `lightrail secret set api-token` or LIGHTRAIL_SECRET_API_TOKEN"
        ),
        Ok(_) => panic!("must be gone"),
    }
    assert_eq!(backend.get("other", "api-token").expect("kept").expose_secret(), "other");
    assert_eq!(keyring_account("project", "api-token"), "project:api-token");
}

#[test]
fn operation_secret_cache_reuses_a_resolved_value_without_persisting_it() {
    let mut backend = MemoryBackend::default();
    backend.set("project", "hetzner-token", SecretValue::new("provider-token"));
    let mut cache = OperationSecretCache::new();
    assert!(cache.get("hetzner-token").is_none());
    let first = backend.get("project", "hetzner-token").expect("initial resolution");
    cache.remember("hetzner-token", &first);
    backend.delete("project", "hetzner-token");
    let repeated = cache.get("hetzner-token").expect("cached resolution");

    assert_eq!(first.expose_secret(), "provider-token");
    assert_eq!(repeated.expose_secret(), "provider-token");
    assert!(backend.get("project", "hetzner-token").is_none());
    assert!(OperationSecretCache::new().get("hetzner-token").is_none());
}

#[test]
fn a_person_is_asked_for_what_is_missing() {
    let missing = || Err(CliError::SecretUnavailable { name: "t".to_owned(), env: "E".to_owned() });
    match resolve_uncached_secret("t", missing(), true) {
        SecretLookup::Ask(prompt) => assert_eq!(prompt, "Secret t (used for this command only)"),
        _ => panic!("must ask"),
    }
    assert!(matches!(
        resolve_uncached_secret("t", missing(), false),
        SecretLookup::Fail(CliError::SecretUnavailable { .. })
    ));
    assert!(matches!(
        resolve_uncached_secret("t", Err(CliError::Operation("locked".to_owned())), true),
        SecretLookup::Fail(CliError::Operation(_))
    ));
    assert_eq!(piped_secret("value\r\n\n").expect("value").expose_secret(), "value");
    assert!(piped_secret("\n").is_err());
    assert_eq!(secret_prompt("t", true).expect("prompt"), "Secret t");
    assert!(secret_prompt("t", false).is_err());
    assert_eq!(secret_line("t", true, OutputFormat::Human).as_deref(), Some("stored secret `t`"));
    assert_eq!(secret_line("t", false, OutputFormat::Plain).as_deref(), Some("deleted secret `t`"));
    assert_eq!(secret_lines(&Vec::new(), OutputFormat::Human).expect("lines"), vec!["No stored secrets."]);
    assert!(secret_lines(&Vec::new(), OutputFormat::Plain).expect("lines").is_empty());
}

#[test]
fn the_first_error_of_several_is_reported() {
    let outcomes = vec![
        Ok(()),
        Err(CliError::Plugin("first".to_owned())),
        Err(CliError::Plugin("second".to_owned())),
    ];
    assert_eq!(first_error(outcomes).expect_err("error").message(), "plugin error: first");
    assert!(first_error(vec![Ok(()), Ok(())]).is_ok());
}

// Plugins

#[test]
fn maps_only_bundled_plugin_ids() {
    assert_eq!(bundled_executable(COMPOSE_PLUGIN_ID), Some("lightrail-plugin-compose"));
    assert_eq!(bundled_executable("third.party"), None);
    assert_eq!(bundled_executable(KUBERNETES_PLUGIN_ID), Some("lightrail-plugin-kubernetes"));
    assert_eq!(bundled_executable(FLY_PLUGIN_ID), Some("lightrail-plugin-fly"));
}

fn candidate(path: &str, resolved: Option<&str>) -> Option<Candidate> {
    Some(Candidate { path: path.to_owned(), resolved: resolved.map(str::to_owned) })
}

#[test]
fn bundled_plugin_uses_absolute_sibling_path() {
    let sibling = sibling_path("/opt/bin/lightrail", "lightrail-plugin-compose").expect("sibling");
    assert_eq!(sibling, "/opt/bin/lightrail-plugin-compose");
    let resolved = find_bundled_executable_from(
        "lightrail-plugin-compose",
        &candidate(&sibling, Some("/real/lightrail-plugin-compose")),
        &None,
    )
    .expect("resolve trusted sibling");
    assert_eq!(resolved, "/real/lightrail-plugin-compose");
    assert!(find_bundled_executable_from("p", &candidate("bin/p", Some("/bin/p")), &None).is_err());
}

#[test]
fn bundled_plugin_allows_explicit_workspace_development_candidate() {
    let resolved = find_bundled_executable_from(
        "lightrail-plugin-compose",
        &candidate("/work/target/debug/deps/lightrail-plugin-compose", None),
        &candidate("/work/target/debug/lightrail-plugin-compose", Some("/work/target/debug/lightrail-plugin-compose")),
    )
    .expect("resolve workspace plugin");
    assert_eq!(resolved, "/work/target/debug/lightrail-plugin-compose");
}

#[test]
fn missing_bundled_plugin_fails_instead_of_using_path() {
    let executable_name = "lightrail-plugin-compose";
    let error = find_bundled_executable_from(
        executable_name,
        &candidate("/opt/bin/lightrail-plugin-compose", None),
        &candidate("/work/target/debug/lightrail-plugin-compose", None),
    )
    .expect_err("missing plugin must fail closed");
    let message = error.message();

    assert!(message.contains(executable_name));
    assert!(message.contains("trusted location"));
    assert!(message.contains("checked"));
    assert!(message.contains("cargo build --workspace"));
    let none = find_bundled_executable_from(executable_name, &None, &None).expect_err("nowhere");
    assert!(none.message().contains("no trusted candidate paths were available"));
}

#[test]
fn plugin_environment_is_explicit_and_does_not_forward_secrets() {
    let process = map(vec![
        ("PATH", "/bin".to_owned()),
        ("SSH_AUTH_SOCK", "/run/agent".to_owned()),
        ("LIGHTRAIL_SECRET_TOKEN", "hidden".to_owned()),
    ]);
    let environment = sanitized_environment(COMPOSE_PLUGIN_ID, &process);
    assert_eq!(environment.get("LIGHTRAIL_PLUGIN_PROTOCOL").map(String::as_str), Some("1.0.0"));
    assert!(!environment.contains_key("LIGHTRAIL_SECRET_TOKEN"));
    assert!(!environment.contains_key("SSH_AUTH_SOCK"));
    assert_eq!(environment.get("PATH").map(String::as_str), Some("/bin"));
    assert!(!environment.contains_key("HOME"));
    assert!(sanitized_environment(SSH_PLUGIN_ID, &process).contains_key("SSH_AUTH_SOCK"));
    assert!(sanitized_environment(HETZNER_PLUGIN_ID, &process).contains_key("SSH_AUTH_SOCK"));
    assert_eq!(probe_environment(&process).key_list(), vec!["PATH"]);
}

fn locked(source: &str, sha256: String) -> LockedPlugin {
    LockedPlugin {
        id: "example.target".to_owned(),
        version: "1.2.3".to_owned(),
        protocol: "1.0.0".to_owned(),
        source: source.to_owned(),
        sha256,
    }
}

fn manifest() -> PluginManifest {
    PluginManifest {
        id: "example.target".to_owned(),
        name: "Example".to_owned(),
        version: "1.2.3".to_owned(),
        protocol: ProtocolCompatibility::default(),
        executable: ExecutableMetadata::default(),
        capabilities: vec![lightrail::protocol::Capability::Target],
        features: Vec::new(),
        required_secrets: Vec::new(),
        config_schema: Data::object(),
        config_ui_hints: Data::object(),
    }
}

#[test]
fn installs_verified_local_plugin() {
    let checksum = sha256_text(b"plugin bytes");
    let plugin = locked("plugin", checksum.to_uppercase());
    assert!(plugin.validate().is_ok());
    assert!(accept_download(&plugin, b"plugin bytes").is_ok());
    assert!(is_installed(&plugin, Some(b"plugin bytes")).expect("inspect"));
    assert!(!is_installed(&plugin, Some(b"other bytes")).expect("inspect"));
    assert!(!is_installed(&plugin, None).expect("inspect"));
    assert_eq!(
        sha256_text(b""),
        "e3b0c44298fc1c149afbf4c8996fb92427ae41e4649b934ca495991b7852b855"
    );
    assert_eq!(
        executable_path("/store", &plugin, "plugin"),
        "/store/example.target/1.2.3/plugin"
    );
    assert!(check_destination("/store/example.target/1.2.3/plugin", false).is_ok());
    assert!(check_destination("/store/example.target/1.2.3/plugin", true).is_err());
}

#[test]
fn rejects_checksum_mismatch() {
    let plugin = locked("plugin", "00".repeat(32));
    let error = accept_download(&plugin, b"plugin bytes").expect_err("must reject");
    assert!(error.message().contains("checksum mismatch"));
}

#[test]
fn lock_rejects_duplicate_ids_and_insecure_urls() {
    let plugin = LockedPlugin {
        id: "example".to_owned(),
        version: "1".to_owned(),
        protocol: "1.0.0".to_owned(),
        source: "http://example.invalid/plugin".to_owned(),
        sha256: "00".repeat(32),
    };
    assert!(plugin.validate().is_err());

    let mut duplicate = plugin;
    duplicate.source = "/tmp/plugin".to_owned();
    let lock = PluginLock {
        schema: 1,
        plugins: vec![duplicate.clone(), duplicate],
    };
    assert!(lock.validate().is_err());
}

#[test]
fn pinned_plugins_are_validated() {
    let valid = locked("https://example.invalid/plugin", "ab".repeat(32));
    assert!(valid.validate().is_ok());
    for (field, broken) in [
        ("id", LockedPlugin { id: "-x".to_owned(), ..valid.clone() }),
        ("protocol", LockedPlugin { protocol: "1".to_owned(), ..valid.clone() }),
        ("sha256", LockedPlugin { sha256: "ab".to_owned(), ..valid.clone() }),
        ("source", LockedPlugin { source: "ftp://example.invalid".to_owned(), ..valid.clone() }),
    ] {
        assert!(broken.validate().is_err(), "{field}");
    }
    let error = PluginLock { schema: 2, plugins: Vec::new() }.validate().expect_err("schema");
    assert!(error.message().contains("unsupported lightrail.lock schema 2; expected 1"));
    assert!(PluginLock::default().validate().is_ok());
}

#[test]
fn rejects_version_path_traversal_before_store_access() {
    let mut plugin = locked("plugin", "00".repeat(32));
    plugin.version = "../../outside".to_owned();

    assert!(is_installed(&plugin, None).is_err());
    assert!(plugin.validate().is_err());
}

#[test]
fn accepts_semver_like_safe_versions() {
    for version in ["1", "1.2.3", "2.0.0-rc.1", "1.0.0+linux_amd64"] {
        assert!(validate_plugin_version("example", version).is_ok());
    }
    for version in ["", ".", "..", "/1", "1/", "1 2", "../1", "1\n2"] {
        assert!(validate_plugin_version("example", version).is_err());
    }
}

#[test]
fn local_source_resolution_is_project_relative() {
    assert_eq!(local_source_path("plugin", "/work"), "/work/plugin");
    assert_eq!(local_source_path("file:plugin", "/work"), "/work/plugin");
    assert_eq!(local_source_path("/opt/plugin", "/work"), "/opt/plugin");
    assert_eq!(
        plugin_source("https://example.invalid/p", "/work"),
        PluginSource::Download("https://example.invalid/p".to_owned())
    );
    assert_eq!(plugin_source("p", "/work"), PluginSource::Copy("/work/p".to_owned()));
    assert!(check_local_source("/work/p", true).is_ok());
    assert!(check_local_source("/work/p", false).is_err());
    assert!(check_source("http://example.invalid").is_err());
    assert!(check_source("https://example.invalid").is_ok());
}

#[test]
fn plugins_are_pinned_updated_and_removed() {
    let named = |id: &str| LockedPlugin { id: id.to_owned(), ..locked("p", "ab".repeat(32)) };
    let mut lock = PluginLock::default();
    lock.pin(named("b"));
    lock.pin(named("c"));
    lock.pin(named("a"));
    assert_eq!(lock.plugins.iter().map(|p| p.id.as_str()).collect::<Vec<_>>(), vec!["a", "b", "c"]);
    let error = lock.check_new("b").expect_err("pinned");
    assert_eq!(error.message(), "plugin `b` is already pinned; use `plugin update b`");
    assert!(lock.check_new("d").is_ok());
    let at = lock.pinned("b").expect("pinned");
    lock.repin(at, LockedPlugin { version: "2".to_owned(), ..named("b") });
    assert_eq!(lock.plugins[1].version, "2");
    assert!(check_update("b", &named("b")).is_ok());
    assert!(check_update("b", &named("c")).is_err());
    assert_eq!(lock.unpin(at).id, "b");
    assert_eq!(lock.pinned("b").expect_err("gone").message(), "plugin `b` is not pinned");
    assert_eq!(lock.plugins.len(), 2);
}

#[test]
fn a_candidate_is_pinned_as_it_declares_itself() {
    let version = ProtocolVersion::new(1, 0, 0);
    let plugin = lock_candidate("example.target", "1.2.3", &version, "p", b"plugin bytes").expect("candidate");
    assert_eq!(plugin, locked("p", sha256_text(b"plugin bytes")));
    assert!(lock_candidate("example.target", "../1", &version, "p", b"").is_err());
    assert!(accept_probe(Ok(manifest()), Ok(())).is_ok());
    let error = accept_probe(Err("gone".to_owned()), Ok(())).expect_err("no session");
    assert_eq!(error.message(), "plugin error: inspect candidate plugin: gone");
    assert!(accept_probe(Ok(manifest()), Err("late".to_owned())).is_err());
}

#[test]
fn a_started_plugin_is_held_to_what_is_expected() {
    let plugin = locked("p", "ab".repeat(32));
    let launch = pinned_launch(&plugin, "/store", "plugin", true).expect("launch");
    assert_eq!(launch.program, "/store/example.target/1.2.3/plugin");
    assert!(accept_manifest(&launch, &manifest()).is_ok());
    let mut other = manifest();
    other.id = "another".to_owned();
    assert!(accept_manifest(&launch, &other).expect_err("identity").message().contains("identity mismatch"));
    let mut other = manifest();
    other.version = "2".to_owned();
    assert_eq!(
        accept_manifest(&launch, &other).expect_err("version").message(),
        "plugin error: plugin `example.target` version mismatch: expected `1.2.3`, got `2`"
    );
    let mut other = manifest();
    other.protocol.version = ProtocolVersion::new(1, 1, 0);
    assert!(accept_manifest(&launch, &other).expect_err("protocol").message().contains("lock pins `1.0.0`"));
    assert!(require_capability(&manifest(), &lightrail::protocol::Capability::Target).is_ok());
    assert!(require_capability(&manifest(), &lightrail::protocol::Capability::Dns).is_err());
    let error = pinned_launch(&plugin, "/store", "plugin", false).expect_err("missing");
    assert!(error.message().contains("lightrail plugin sync"));
    assert!(pinned_plugin(&PluginLock::default(), "x", "/work/lightrail.lock").is_err());
    let bundled = bundled_launch(SSH_PLUGIN_ID, "/bin/p", "0.1.0");
    assert_eq!(bundled.expected_version.as_deref(), Some("0.1.0"));
    assert_eq!(bundled.expected_protocol.as_deref(), Some("1.0.0"));
}

#[test]
fn pinned_plugins_are_listed_in_lines() {
    let status = PluginStatus { locked: locked("p", "ab".repeat(32)), installed: false };
    let line = format!("{:<32} {:<12} {}", "example.target", "1.2.3", "missing");
    assert_eq!(
        plugin_status_lines(&vec![status.clone()], OutputFormat::Human).expect("lines"),
        vec![line.clone()]
    );
    assert_eq!(
        plugin_status_lines(&vec![status.clone()], OutputFormat::Plain).expect("lines"),
        vec!["example.target"]
    );
    assert_eq!(
        plugin_status_lines(&Vec::new(), OutputFormat::Human).expect("lines"),
        vec!["No third-party plugins are pinned."]
    );
    let inspection = PluginInspection { status, manifest: Some(manifest()) };
    assert_eq!(
        inspection_lines(&inspection, OutputFormat::Human).expect("lines"),
        vec![line, "  capabilities: target".to_owned()]
    );
}

#[test]
fn collections_are_ordered() {
    let mut set = StringSet::new();
    for text in ["b", "a", "c", "a"] {
        set.insert(text.to_owned());
    }
    assert_eq!(set.items, vec!["a", "b", "c"]);
    set.remove("b");
    set.remove("x");
    assert_eq!(set.items, vec!["a", "c"]);
    let mut numbers = map(vec![("b", 2), ("a", 1), ("b", 3)]);
    assert_eq!(numbers.entries, vec![("a".to_owned(), 1), ("b".to_owned(), 3)]);
    numbers.remove("a");
    assert_eq!(numbers.get("a"), None);
    assert_eq!(numbers.get("b"), Some(&3));
    assert_eq!(Capability::Target.as_str(), "target");
}
