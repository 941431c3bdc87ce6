use lightrail::client::ClientEvent;
use lightrail::collections::StringMap;
use lightrail::config::{
    App, Capability, EnvironmentValue, Isolation, LightrailConfig, PluginId, PluginPipeline, Profile, Project,
    ProjectId,
};
use lightrail::context::{accept_secret, merged_plugin_config, operation_context, requested_secrets, SecretStep};
use lightrail::down::{ask_down, show_cancelled, show_destroyed, DestroyAttempt, DownPlan, DownRun};
use lightrail::error::CliError;
use lightrail::fleet::{plugin_identifiers, require_capabilities};
use lightrail::git::{GitContext, GitOutput, GitProgress, GitStep};
use lightrail::journal::{OperationJournal, OperationKind, OperationStatus};
use lightrail::lifecycle::{
    accept_validation, confirm, inspected_capabilities, live_environment_count, plan_view, planned_environment,
    Confirmation, DownOptions, LogOptions,
};
use lightrail::lock::{
    accept_give_back, accept_lock, accept_reassertion, accept_release, lock_request, release_request, LockOutcome,
    MutationLock, Reassertion, Retry, RetryStep,
};
use lightrail::output::OutputFormat;
use lightrail::prepared::{plan_contract, AppliedCapability, ApplyAttempt, PreparedCapability, DESTROY_ORDER};
use lightrail::progress::{follow, logs_request, FollowStep, Progress, Received, Work};
use lightrail::project::LoadedProject;
use lightrail::protocol::{
    ApplyResult, DestroyResult, Diagnostic, DiagnosticSeverity, Endpoint, ExecutableMetadata, InspectResult,
    LockAcquireResult, LockReleaseResult, LogRecord, OperationContext, PlanResult, PlannedAction, PluginEvent,
    PluginManifest, ResourceStatus, RollbackMetadata, SecretRequirement, SecretValue, ValidateResult,
};
use lightrail::prune::{
    check_prune_feature, check_prune_plan, check_prune_profile, expired_candidates, recheck_candidates,
    select_environments, show_pruned, PruneCandidate, PruneRun,
};
use lightrail::rollback::RollbackOperation;
use lightrail::rpc::{ClientError, ErrorKind, PluginError};
use lightrail::up::{begin_rollback, rollback_request, RollbackRun, UpEnd, UpPlan, UpRun};
use lightrail::value::Data;
use lightrail::version::ProtocolCompatibility;
use lightrail::view::{show_urls, EnvironmentView, Shown};
use lightrail::workspace::ProjectPaths;

fn json(source: &str) -> Data {
    lightrail::value::parse_json(source.as_bytes()).expect("JSON")
}

fn map<V>(entries: Vec<(&str, V)>) -> StringMap<V> {
    let mut map = StringMap::new();
    for (key, value) in entries {
        map.insert(key.to_owned(), value);
    }
    map
}

fn git() -> GitContext {
    let mut step = GitStep::Root;
    for stdout in ["/work/shop\n", "main\n", "0123456789abcdef\n", ""] {
        let output = GitOutput::from_bytes(true, Some(0), stdout.as_bytes().to_vec(), b"");
        match GitContext::discover("/work/shop", step, Ok(output)) {
            GitProgress::Continue(next) => step = next,
            GitProgress::Finished(result) => return result.expect("context"),
        }
    }
    panic!("discovery did not end")
}

fn project(isolation: Isolation, target: &str) -> LoadedProject {
    let plugin = |id: &str| PluginId::new(id).expect("plugin");
    let config = LightrailConfig {
        schema: 1,
        project: Project {
            id: ProjectId::parse("2f1c30f5-dce1-4a5c-a751-3a766f6b48ea").expect("project"),
            slug: "shop".to_owned(),
            compose: vec!["compose.yaml".to_owned()],
            default_profile: "preview".to_owned(),
        },
        apps: map(vec![(
            "web",
            App {
                service: "frontend".to_owned(),
                port: 3000,
                health_path: None,
                health_status: None,
                health_interval_seconds: None,
                health_timeout_seconds: None,
                env: map(vec![(
                    "TOKEN",
                    EnvironmentValue::secret("app-token").expect("secret"),
                )]),
            },
        )]),
        profiles: map(vec![(
            "preview",
            Profile {
                isolation,
                apps: vec!["web".to_owned()],
                pipeline: PluginPipeline {
                    source: plugin("dev.lightrail.compose"),
                    builder: plugin("dev.lightrail.compose"),
                    target: plugin(target),
                    runtime: plugin(target),
                    exposure: plugin(target),
                    dns: plugin(target),
                },
                settings: map(vec![
                    ("target", json(r#"{"token": {"secret": "provider-token"}, "size": 1}"#)),
                    ("runtime", json(r#"{"size": 2}"#)),
                ]),
                env: StringMap::new(),
                app_env: StringMap::new(),
            },
        )]),
    };
    LoadedProject::load(
        ProjectPaths::at("/work/shop"),
        config,
        git(),
        "/work/shop",
        "/work/shop",
        None,
    )
    .expect("project")
}

fn manifest(id: &str, capabilities: Vec<lightrail::protocol::Capability>) -> PluginManifest {
    PluginManifest {
        id: id.to_owned(),
        name: "Test".to_owned(),
        version: "0.1.0".to_owned(),
        protocol: ProtocolCompatibility::default(),
        executable: ExecutableMetadata::default(),
        capabilities,
        features: Vec::new(),
        required_secrets: vec![SecretRequirement {
            name: "provider-token".to_owned(),
            description: None,
            required: true,
        }],
        config_schema: Data::object(),
        config_ui_hints: Data::object(),
    }
}

fn action(id: &str, destructive: bool, supported: Option<bool>) -> PlannedAction {
    PlannedAction {
        id: id.to_owned(),
        kind: "test.change".to_owned(),
        summary: format!("Change {id}"),
        destructive,
        depends_on: Vec::new(),
        rollback: supported.map(|supported| RollbackMetadata {
            supported,
            action: supported.then_some("test.undo".to_owned()),
            token: None,
            metadata: Data::object(),
        }),
        metadata: Data::object(),
    }
}

fn prepared(capability: Capability, status: ResourceStatus, actions: Vec<PlannedAction>) -> PreparedCapability {
    PreparedCapability {
        capability,
        plugin_id: format!("dev.lightrail.{}", capability.as_str()),
        context: OperationContext { metadata: Data::object(), ..OperationContext::default() },
        current: InspectResult {
            status,
            endpoints: Vec::new(),
            state: json(&format!("{{\"of\": \"{}\"}}", capability.as_str())),
            diagnostics: Vec::new(),
        },
        plan: PlanResult {
            plan_id: format!("plan-{}", capability.as_str()),
            has_changes: !actions.is_empty(),
            actions,
            metadata: Data::object(),
        },
    }
}

fn applied(state: &str) -> ApplyAttempt {
    ApplyAttempt {
        result: Ok(ApplyResult { revision: None, state: json(state), journal: Vec::new() }),
        cancelled: false,
    }
}

#[test]
fn up_prepares_the_target_first_and_applies_in_order() {
    let mut plan = UpPlan::new(prepared(Capability::Target, ResourceStatus::Ready, Vec::new()));
    let mut order = Vec::new();
    while let Some(capability) = plan.next() {
        order.push(capability);
        plan.take(prepared(capability, ResourceStatus::Ready, Vec::new()));
    }
    assert_eq!(
        order,
        vec![
            Capability::Source,
            Capability::Builder,
            Capability::Runtime,
            Capability::Exposure,
            Capability::Dns,
        ]
    );
    assert_eq!(plan.prepared.len(), 6);
    assert_eq!(plan.prepared[1].capability, Capability::Target);
    assert_eq!(plan.target_state, json(r#"{"of": "target"}"#));
}

#[test]
fn up_applies_what_changes_and_hands_the_target_on() {
    let items = vec![
        prepared(Capability::Source, ResourceStatus::Ready, Vec::new()),
        prepared(Capability::Target, ResourceStatus::Absent, vec![action("create", false, Some(true))]),
        prepared(Capability::Runtime, ResourceStatus::Absent, vec![action("deploy", false, None)]),
    ];
    let mut run = UpRun::start(items, Data::object(), "env", [7; 16]).expect("run");
    assert!(run.advance());
    let request = run.begin();
    assert_eq!(request.plan.plan_id, "plan-target");
    assert!(!run.record(applied(r#"{"ip": "192.0.2.1"}"#)).expect("applied"));
    assert!(run.advance());
    let request = run.begin();
    assert_eq!(request.context.metadata.get("target"), Some(&json(r#"{"ip": "192.0.2.1"}"#)));
    let error = run
        .record(ApplyAttempt { result: Err(CliError::Plugin("broken".to_owned())), cancelled: false })
        .expect_err("failed");
    let (error, message) = match run.conclude(Err(error)) {
        UpEnd::Failed { error, message } => (error, message),
        UpEnd::Done(_) => panic!("must fail"),
    };
    assert_eq!(error.message(), message);
    assert!(begin_rollback(&mut run.journal, &message, false));
    assert_eq!(run.journal.status, OperationStatus::RollingBack);

    let mut rollback = RollbackRun::new(&run.applied);
    let first = rollback.next(&run.applied).expect("runtime");
    assert_eq!((first.index, first.operation), (1, RollbackOperation::Cleanup));
    let request = rollback_request(
        &run.applied[first.index],
        first.operation,
        &manifest("dev.lightrail.runtime", Vec::new()),
        &run.target_state,
    );
    assert_eq!(request.context.metadata.get_str("operation"), Some("rollback_cleanup"));
    rollback.undone(
        "dev.lightrail.runtime",
        Ok(DestroyResult { destroyed: true, journal: Vec::new(), remaining: vec!["volume".to_owned()] }),
    );
    let second = rollback.next(&run.applied).expect("target");
    assert_eq!((second.index, second.operation), (0, RollbackOperation::Cleanup));
    rollback.undone(
        "dev.lightrail.target",
        Ok(DestroyResult { destroyed: true, journal: Vec::new(), remaining: Vec::new() }),
    );
    assert!(rollback.next(&run.applied).is_none());
    let error = rollback.finish(&mut run.journal, &message).expect_err("incomplete");
    assert_eq!(
        error.message(),
        "operation failed: plugin error: broken; rollback incomplete: dev.lightrail.runtime: rollback left resources: volume"
    );
    assert_eq!(run.journal.status, OperationStatus::Failed);
}

#[test]
fn up_ends_well_only_where_the_environment_is_ready() {
    let mut run = UpRun::start(Vec::new(), Data::object(), "env", [7; 16]).expect("run");
    assert!(!run.advance());
    run.verify();
    let environment = |status: ResourceStatus| EnvironmentView {
        environment_id: "env".to_owned(),
        branch: "main".to_owned(),
        profile: "preview".to_owned(),
        status,
        endpoints: Vec::new(),
        plugins: Vec::new(),
        environments: Vec::new(),
    };
    match run.conclude(Ok(environment(ResourceStatus::Pending))) {
        UpEnd::Failed { message, .. } => assert_eq!(message, "environment readiness ended in state Pending"),
        UpEnd::Done(_) => panic!("must fail"),
    }
    assert!(matches!(run.conclude(Ok(environment(ResourceStatus::Ready))), UpEnd::Done(_)));
    assert_eq!(run.journal.status, OperationStatus::Succeeded);
    let destructive = vec![prepared(Capability::Runtime, ResourceStatus::Ready, vec![action("drop", true, None)])];
    assert!(UpRun::start(destructive, Data::object(), "env", [7; 16]).is_err());
}

#[test]
fn what_was_kept_is_not_undone() {
    let mut journal = OperationJournal::new("env", OperationKind::Up);
    assert!(!begin_rollback(&mut journal, "broken", true));
    assert_eq!(journal.status, OperationStatus::Failed);
    assert_eq!(journal.error.as_deref(), Some("broken"));
    let existing = AppliedCapability::new(prepared(
        Capability::Target,
        ResourceStatus::Ready,
        vec![action("resize", false, None)],
    ));
    let items = vec![existing];
    let mut rollback = RollbackRun::new(&items);
    assert!(rollback.next(&items).is_none());
    assert_eq!(rollback.failures.len(), 1);
    assert!(rollback.failures[0].starts_with("dev.lightrail.target: action `resize` (test.change)"));
}

fn down_options(force: bool) -> DownOptions {
    DownOptions {
        all: false,
        dry_run: false,
        yes: true,
        force,
        lock_timeout_ms: 30_000,
        output: OutputFormat::Human,
    }
}

fn destroyed(remaining: Vec<&str>) -> DestroyAttempt {
    DestroyAttempt {
        result: Ok(DestroyResult {
            destroyed: remaining.is_empty(),
            journal: Vec::new(),
            remaining: remaining.into_iter().map(str::to_owned).collect(),
        }),
        cancelled: false,
    }
}

#[test]
fn down_destroys_the_target_last() {
    assert_eq!(
        DESTROY_ORDER.iter().position(|capability| *capability == Capability::Target),
        Some(3)
    );
    let mut plan = DownPlan::new(
        prepared(Capability::Target, ResourceStatus::Ready, vec![action("delete", true, None)]),
        Isolation::Machine,
        false,
        true,
    );
    let mut warnings = Vec::new();
    while let Some(capability) = plan.next() {
        let outcome = if capability == Capability::Dns {
            Err(CliError::Plugin("unreachable".to_owned()))
        } else {
            Ok(prepared(capability, ResourceStatus::Ready, vec![action("delete", true, None)]))
        };
        warnings.extend(plan.take(outcome).expect("taken"));
    }
    assert_eq!(
        warnings,
        vec!["warning: skipping dns cleanup before forced machine deletion: plugin error: unreachable"]
    );
    let items = plan.finish();
    assert_eq!(items.len(), 3);
    assert_eq!(items[2].capability, Capability::Target);

    let shown = plan_contract(&items);
    let mut run = DownRun::start(
        items,
        &shown,
        "preview",
        &down_options(true),
        Isolation::Machine,
        false,
        "env",
        [7; 16],
    )
    .expect("run");
    assert!(run.request().force);
    let warning = run
        .record(DestroyAttempt { result: Err(CliError::Plugin("gone".to_owned())), cancelled: false })
        .expect("warning");
    assert!(warning.contains("cleanup failed before forced machine deletion"));
    assert!(run.record(destroyed(Vec::new())).is_none());
    assert!(!run.request().force, "a machine whose lock is held keeps its own checks");
    assert!(run.record(destroyed(Vec::new())).is_none());
    assert!(!run.pending());
    assert!(run.finish("preview", &down_options(true)).is_ok());
    assert_eq!(run.journal.status, OperationStatus::Succeeded);
}

#[test]
fn an_incomplete_destruction_says_how_to_go_on() {
    let items = vec![prepared(Capability::Target, ResourceStatus::Ready, vec![action("delete", true, None)])];
    let shown = plan_contract(&items);
    let start = |items: Vec<PreparedCapability>| {
        DownRun::start(
            items,
            &shown,
            "preview",
            &down_options(false),
            Isolation::Project,
            false,
            "env",
            [7; 16],
        )
    };
    let changed = vec![prepared(Capability::Target, ResourceStatus::Ready, vec![action("other", true, None)])];
    assert!(start(changed).is_err());
    let mut run = start(items).expect("run");
    assert!(run.record(destroyed(vec!["volume", "route"])).is_none());
    let error = run.finish("preview", &down_options(false)).expect_err("incomplete");
    assert_eq!(
        error.message(),
        "operation failed: destruction incomplete; rerun `lightrail --profile=preview down --lock-timeout 30s --yes`: dev.lightrail.target left resources: volume, route"
    );
}

fn lock() -> MutationLock {
    let request = lock_request(
        "dev.lightrail.target",
        &vec![lightrail::protocol::Capability::OperationLock],
        Isolation::Project,
        false,
        "project-id",
        "environment-id",
        "operation",
        u128::MAX,
    )
    .expect("request");
    assert_eq!(request.timeout_ms, u64::MAX);
    let answer = LockAcquireResult {
        acquired: true,
        token: Some(SecretValue::new("token")),
        expires_at: None,
        holder: None,
    };
    match accept_lock("dev.lightrail.target", &request, Ok(answer), false) {
        Ok(LockOutcome::Held(lock)) => lock,
        _ => panic!("must be held"),
    }
}

#[test]
fn locks_are_acquired_reasserted_and_released() {
    let lock = lock();
    let answer = |acquired: bool, token: Option<&str>| LockAcquireResult {
        acquired,
        token: token.map(SecretValue::new),
        expires_at: None,
        holder: Some("another".to_owned()),
    };
    assert!(matches!(accept_reassertion(&lock, Ok(answer(true, Some("token")))), Reassertion::Confirmed));
    match accept_reassertion(&lock, Ok(answer(true, Some("other")))) {
        Reassertion::GiveBack(request) => assert_eq!(request.token.expose_secret(), "other"),
        _ => panic!("must be given back"),
    }
    match accept_reassertion(&lock, Ok(answer(false, None))) {
        Reassertion::Lost(error) => assert!(error.message().ends_with("current holder: another")),
        _ => panic!("must be lost"),
    }
    assert!(accept_give_back(Ok(LockReleaseResult { released: true })).message().contains("was released"));
    assert_eq!(release_request(&lock).token.expose_secret(), "token");
    assert!(accept_release("p", Ok(LockReleaseResult { released: true })).is_ok());
    assert!(accept_release("p", Ok(LockReleaseResult { released: false })).is_err());
    assert!(lock_request("p", &Vec::new(), Isolation::Project, false, "p", "e", "o", 1).is_err());
}

#[test]
fn only_a_forced_deletion_goes_on_without_a_lock() {
    let request = lightrail::lock::reassert_request(&lock());
    let unreachable =
        || Err(ClientError::Remote(PluginError::retryable(ErrorKind::Unavailable, "down", "unreachable")));
    assert!(matches!(
        accept_lock("p", &request, unreachable(), true),
        Ok(LockOutcome::Bypassed { .. })
    ));
    assert!(accept_lock("p", &request, unreachable(), false).is_err());
    assert!(accept_lock("p", &request, Err(ClientError::Closed), true).is_err());
}

#[test]
fn requests_are_repeated_a_few_times() {
    let mut retry = Retry::new();
    let mut pauses = Vec::new();
    loop {
        match retry.failed(ClientError::Io("broken".to_owned())) {
            RetryStep::Again { pause_ms } => pauses.push(pause_ms),
            RetryStep::Fail(error) => {
                assert!(error.message().contains("broken"));
                break;
            }
        }
    }
    assert_eq!(pauses, vec![250, 500]);
    let asked = PluginError::retryable(ErrorKind::RateLimited, "slow", "slow").with_retry_after(7);
    assert!(matches!(
        Retry::new().failed(ClientError::Remote(asked)),
        RetryStep::Again { pause_ms: 7 }
    ));
    assert!(matches!(Retry::new().failed(ClientError::Closed), RetryStep::Fail(_)));
}

#[test]
fn progress_is_shown_and_can_be_cancelled() {
    let mut progress = Progress::new(Work::Apply);
    let event = |completed: Option<u64>| {
        Received::Event(ClientEvent::Plugin(PluginEvent::Progress {
            operation_id: "operation".to_owned(),
            message: "building".to_owned(),
            completed,
            total: Some(3),
        }))
    };
    assert_eq!(
        progress.received(&event(Some(1)), OutputFormat::Human).as_deref(),
        Some("building (1/3)")
    );
    assert_eq!(progress.received(&event(None), OutputFormat::Human).as_deref(), Some("building"));
    assert_eq!(progress.received(&event(Some(1)), OutputFormat::Json), None);
    assert_eq!(
        progress.received(&Received::Lagged(4), OutputFormat::Human).as_deref(),
        Some("warning: skipped 4 plugin progress events")
    );
    assert_eq!(progress.received(&Received::Closed, OutputFormat::Human), None);
    assert!(!progress.events_open);
    let (notice, request) = progress.interrupted("operation", Ok(())).expect("cancellation");
    assert!(notice.contains("active plugin"));
    assert_eq!(request.reason.as_deref(), Some("operator pressed Ctrl+C"));
    let attempt = progress.applied(Ok(ApplyResult { revision: None, state: Data::Null, journal: Vec::new() }));
    assert!(attempt.cancelled);
    let mut progress = Progress::new(Work::Destroy);
    assert!(progress.interrupted("operation", Err("no signals".to_owned())).is_err());
    assert!(progress.destroyed(Err(ClientError::Closed)).result.is_err());
}

#[test]
fn logs_are_followed_without_what_plugins_write_to_stderr() {
    let record = LogRecord {
        service: "web".to_owned(),
        timestamp: None,
        line: "hello".to_owned(),
        stream: None,
    };
    let received = Received::Event(ClientEvent::Plugin(PluginEvent::Log {
        stream_id: "s".to_owned(),
        record: record.clone(),
    }));
    match follow(received) {
        FollowStep::Show(shown) => assert_eq!(shown, record),
        _ => panic!("must be shown"),
    }
    match follow(Received::Event(ClientEvent::Stderr("password".to_owned()))) {
        FollowStep::Warn(warning) => assert!(!warning.contains("password")),
        _ => panic!("must warn"),
    }
    assert!(matches!(follow(Received::Closed), FollowStep::Stop));
    assert_eq!(
        lightrail::view::log_lines(&vec![record], OutputFormat::Human).expect("lines"),
        vec![format!("{:<16} {}", "web", "hello")]
    );
    let options = LogOptions { service: None, follow: true, tail: 100, output: OutputFormat::Human };
    let request = logs_request(OperationContext::default(), &options);
    assert_eq!(request.tail, Some(100));
    assert!(request.follow);
}

#[test]
fn one_plugin_is_started_once() {
    let project = project(Isolation::Project, "dev.lightrail.ssh");
    let capabilities = [Capability::Runtime, Capability::Target, Capability::Source];
    assert_eq!(
        plugin_identifiers(&project, &capabilities).items,
        vec!["dev.lightrail.compose", "dev.lightrail.ssh"]
    );
    let wire = |list: Vec<lightrail::protocol::Capability>| list;
    let mut manifests = map(vec![
        (
            "dev.lightrail.compose",
            manifest("dev.lightrail.compose", wire(vec![lightrail::protocol::Capability::Source])),
        ),
        (
            "dev.lightrail.ssh",
            manifest(
                "dev.lightrail.ssh",
                wire(vec![
                    lightrail::protocol::Capability::Target,
                    lightrail::protocol::Capability::Runtime,
                ]),
            ),
        ),
    ]);
    assert!(require_capabilities(&project, &capabilities, &manifests).is_ok());
    manifests.insert("dev.lightrail.ssh".to_owned(), manifest("dev.lightrail.ssh", Vec::new()));
    let error = require_capabilities(&project, &capabilities, &manifests).expect_err("lacking");
    assert_eq!(
        error.message(),
        "plugin error: plugin `dev.lightrail.ssh` does not provide capability `runtime`"
    );
}

#[test]
fn contexts_carry_the_project_and_its_secrets() {
    let project = project(Isolation::Project, "dev.lightrail.ssh");
    let config = merged_plugin_config(&project, "dev.lightrail.ssh", Capability::Target).expect("config");
    assert_eq!(config.get("size").and_then(Data::as_u64), Some(1));
    let referenced =
        lightrail::context::secrets_for_capability(&project, Capability::Target, false).expect("references");
    assert_eq!(referenced.items, vec!["provider-token"]);
    let requested =
        requested_secrets(&manifest("dev.lightrail.ssh", Vec::new()), &referenced).expect("requested");
    assert_eq!(requested.entries, vec![("provider-token".to_owned(), true)]);
    assert!(matches!(
        accept_secret(
            false,
            Err(CliError::SecretUnavailable { name: "x".to_owned(), env: "X".to_owned() })
        ),
        SecretStep::Skip
    ));
    let context = operation_context(
        &project,
        "dev.lightrail.ssh",
        Capability::Target,
        "operation",
        "plan",
        true,
        &json(r#"{"ip": "192.0.2.1"}"#),
        map(vec![("provider-token", SecretValue::new("secret"))]),
    )
    .expect("context");
    assert_eq!(context.metadata.get_str("project_slug"), Some("shop"));
    assert_eq!(context.metadata.get("all").and_then(Data::as_bool), Some(true));
    assert_eq!(context.profile, "preview");
    assert!(project.referenced_secrets().contains("app-token"));
    assert!(project.referenced_secrets().contains("provider-token"));
    let desired = project.base_desired();
    let app = &desired.get("apps").and_then(Data::as_array).expect("apps")[0];
    assert_eq!(app.get_str("service"), Some("frontend"));
}

#[test]
fn a_plugin_gets_no_secret_that_it_does_not_declare() {
    let mut referenced = lightrail::collections::StringSet::new();
    referenced.insert("database-password".to_owned());
    let mut manifest = manifest("dev.lightrail.ssh", Vec::new());
    let error = requested_secrets(&manifest, &referenced).expect_err("undeclared");
    assert_eq!(
        error.message(),
        "plugin error: plugin `dev.lightrail.ssh` did not declare referenced secret `database-password` in its manifest"
    );
    manifest.required_secrets.push(SecretRequirement {
        name: "*".to_owned(),
        description: None,
        required: false,
    });
    let requested = requested_secrets(&manifest, &referenced).expect("any secret");
    assert_eq!(requested.get("database-password"), Some(&true));
    assert_eq!(requested.get("other"), None);
    assert_eq!(requested.get("*"), None);
}

#[test]
fn plans_and_observations_become_views() {
    let project = project(Isolation::Project, "dev.lightrail.ssh");
    let items = vec![
        prepared(Capability::Target, ResourceStatus::Ready, vec![action("create", false, None)]),
        prepared(Capability::Runtime, ResourceStatus::Degraded, Vec::new()),
    ];
    let plan = plan_view(&project, "up", &items);
    assert!(plan.has_changes);
    assert_eq!(plan.plugins[0].actions[0].summary, "Change create");
    let mut environment = planned_environment(&project, &items);
    assert_eq!(environment.status, ResourceStatus::Degraded);
    assert_eq!(live_environment_count(&environment).expect("count"), 1);
    environment.endpoints.push(Endpoint {
        app: "web".to_owned(),
        url: "https://web.example.test".to_owned(),
    });
    match show_urls(&environment, OutputFormat::Plain).expect("shown") {
        Shown::Lines(lines) => assert_eq!(lines, vec!["https://web.example.test"]),
        Shown::Document(_) => panic!("must be lines"),
    }
    assert!(inspected_capabilities(&project).contains(&Capability::Runtime));
    let invalid = ValidateResult {
        valid: false,
        diagnostics: vec![Diagnostic {
            severity: DiagnosticSeverity::Error,
            code: "bad".to_owned(),
            message: "no host".to_owned(),
            path: None,
            help: None,
        }],
        normalized_config: None,
    };
    let error = accept_validation("dev.lightrail.ssh", "target", &invalid).expect_err("invalid");
    assert!(error.message().contains("no host"));
}

#[test]
fn destruction_needs_a_confirmation() {
    let project = project(Isolation::Project, "dev.lightrail.ssh");
    let question = ask_down(&project, false);
    assert!(matches!(confirm(true, false, "down", question.clone()), Confirmation::Proceed));
    assert!(matches!(confirm(false, true, "down", question.clone()), Confirmation::Ask(_)));
    match confirm(false, false, "down", question) {
        Confirmation::Refuse(error) => assert!(error.message().contains("--yes")),
        _ => panic!("must be refused"),
    }
    assert!(matches!(show_cancelled(OutputFormat::Json), Shown::Document(_)));
    assert!(matches!(show_destroyed(&project, &down_options(false), true), Shown::Lines(_)));
}

#[test]
fn prune_destroys_exactly_what_was_selected() {
    assert!(check_prune_profile(&project(Isolation::Project, "dev.lightrail.ssh")).is_err());
    assert!(check_prune_profile(&project(Isolation::Environment, "dev.lightrail.fly")).is_ok());
    assert!(check_prune_feature("p", &Vec::new()).is_err());
    assert!(check_prune_feature("p", &vec!["dev.lightrail.selected-destroy.v1".to_owned()]).is_ok());
    let state = json(
        r#"{"environment_contract": 1, "environments": [
            {"environment_id": "lr-b", "project_id": "p", "expires_at_unix": 50},
            {"environment_id": "lr-a", "project_id": "p", "expires_at_unix": 40}
        ]}"#,
    );
    let candidates = expired_candidates(&state, "p", 50).expect("candidates");
    assert_eq!(
        candidates.iter().map(|c| c.environment_id.as_str()).collect::<Vec<_>>(),
        vec!["lr-a", "lr-b"]
    );
    let mut item = prepared(Capability::Target, ResourceStatus::Ready, vec![action("delete", true, None)]);
    select_environments(&mut item.context, &candidates);
    let selection = item.context.metadata.get("selection").expect("selection");
    assert_eq!(selection.get("environment_ids"), Some(&json(r#"["lr-a", "lr-b"]"#)));
    assert!(check_prune_plan("p", &item.plan, 2).is_ok());
    let keeps = prepared(Capability::Target, ResourceStatus::Ready, vec![action("keep", false, None)]);
    assert!(check_prune_plan("p", &keeps.plan, 2).is_err());
    assert!(check_prune_plan("p", &prepared(Capability::Target, ResourceStatus::Ready, Vec::new()).plan, 2).is_err());
    assert!(recheck_candidates(&candidates, &candidates.clone()).is_ok());
    assert!(recheck_candidates(&candidates, &Vec::new()).is_err());
    let contract = plan_contract(&vec![item.duplicate()]);
    let begin = |shown: &Vec<PruneCandidate>, planned: &PreparedCapability| {
        PruneRun::start(shown, &candidates, &contract, planned.duplicate(), "p", [7; 16])
    };
    let changed = |outcome: Result<PruneRun, CliError>| match outcome {
        Ok(_) => panic!("must be refused"),
        Err(error) => error.message(),
    };
    assert!(changed(begin(&Vec::new(), &item)).contains("expired environments changed"));
    assert!(changed(begin(&Vec::new(), &keeps)).contains("expired environments changed"));
    assert!(changed(begin(&candidates, &keeps)).contains("destruction plan changed"));
    let mut run = begin(&candidates, &item).expect("run");
    assert_eq!(run.journal.kind, OperationKind::Prune);
    assert_eq!(run.journal.environment_id, "p");
    assert_eq!(run.journal.actions.len(), 1);
    assert_eq!(run.journal.status, OperationStatus::Applying);
    let request = run.request();
    assert!(!request.force);
    assert_eq!(
        request.context.metadata.get("selection").and_then(|selection| selection.get("environment_ids")),
        Some(&json(r#"["lr-a", "lr-b"]"#))
    );
    assert!(run.record(destroyed(vec!["volume"])).is_err());
    assert_eq!(run.journal.status, OperationStatus::Failed);
    assert!(run.record(destroyed(Vec::new())).is_ok());
    assert_eq!(run.journal.status, OperationStatus::Succeeded);
    assert!(matches!(show_pruned("preview", OutputFormat::Human, &candidates), Shown::Lines(_)));
}

#[test]
fn journals_stand_in_files_of_their_own() {
    let journal = OperationJournal::of_operation("env", OperationKind::Up, [0xab; 16]);
    let path = journal.path("/work/.lightrail/operations");
    assert_eq!(path, "/work/.lightrail/operations/abababab-abab-abab-abab-abababababab.json");
    assert_ne!(journal.temporary_path("/work/.lightrail/operations"), path);
}

#[test]
fn values_are_written_for_a_shell() {
    for (value, written) in [
        ("release-1.2_x", "release-1.2_x"),
        ("", "''"),
        ("a b", "'a b'"),
        ("$(id)", "'$(id)'"),
        ("it's", "'it'\"'\"'s'"),
        ("'", "''\"'\"''"),
    ] {
        assert_eq!(lightrail::down::shell_quote_command_value(value), written);
    }
}
