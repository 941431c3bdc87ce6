use lightrail::collections::StringMap;
use lightrail::compose::{
    accept_model, bind_source, inspect_arguments, inventory, port_target, ComposeDocument, ComposeInventory,
    ComposeService,
};
use lightrail::config::{Isolation, ProjectId};
use lightrail::dialogue::{Ask, Dialogue, Pause, Reply};
use lightrail::init::{
    answer_notation, answers_path, choose_apps, choose_compose_files, choose_target, discover_compose_files,
    existing_project_id, ignore_local_state, initialize_from_inventory, load_answers, summarize_target,
    AnswerNotation, AnswerSource, AppAnswer, InitAnswers, InitOptions, Initialized,
};
use lightrail::plugin_host::SSH_PLUGIN_ID;
use lightrail::provider::{
    validate_dns_label_setting, validate_dns_subdomain_setting, validate_registry_setting,
};
use lightrail::settings::{
    build_settings, hetzner_settings, is_localhost_target, normalize_interactive_ssh_sources, validate_ssh_cidrs,
    validate_target_isolation, TargetKind,
};
use lightrail::value::Data;

fn json(source: &str) -> Data {
    lightrail::value::parse_json(source.as_bytes()).expect("JSON")
}

fn map<V>(entries: Vec<(&str, V)>) -> StringMap<V> {
    let mut map = StringMap::new();
    for (key, value) in entries {
        map.insert(key.to_owned(), value);
    }
    map
}

fn texts(items: Vec<&str>) -> Vec<String> {
    items.into_iter().map(str::to_owned).collect()
}

fn message(pause: Pause) -> String {
    match pause {
        Pause::Fail(error) => error.message(),
        Pause::Ask(question) => panic!("unexpected question {}", question.key),
    }
}

fn service() -> ComposeService {
    ComposeService {
        image: None,
        build: None,
        ports: Vec::new(),
        expose: Vec::new(),
        volumes: Vec::new(),
        healthcheck: None,
        network_mode: None,
    }
}

fn inventory_fixture() -> ComposeInventory {
    let mut db = service();
    db.image = Some("postgres:17".to_owned());
    db.expose = vec![json(r#""5432/tcp""#)];
    let mut frontend = service();
    frontend.build = Some(json(r#"{"context": "."}"#));
    frontend.ports = vec![json(r#"{"target": 3000}"#)];
    frontend.healthcheck = Some(json(r#"{"test": ["CMD", "true"]}"#));
    inventory(ComposeDocument {
        name: Some("shop".to_owned()),
        services: map(vec![("db", db), ("frontend", frontend)]),
    })
}

fn options() -> InitOptions {
    InitOptions {
        start: "/work/shop".to_owned(),
        profile: "preview".to_owned(),
        target: None,
        dns_domain: None,
        non_interactive: true,
        answers_file: None,
        force: false,
    }
}

fn noninteractive_ssh_answers() -> InitAnswers {
    InitAnswers {
        settings: map(vec![("target", json(r#"{"host": "8.8.8.8"}"#))]),
        ..InitAnswers::default()
    }
}

fn initialize(options: &InitOptions, answers: &InitAnswers, id: ProjectId) -> Result<Initialized, Pause> {
    initialize_from_inventory(
        options,
        "/work/shop",
        &texts(vec!["compose.yaml"]),
        &inventory_fixture(),
        answers,
        id,
        &Dialogue::silent(),
    )
}

fn settings(target: TargetKind, domain: Option<&str>, entries: Vec<(&str, Data)>) -> Result<StringMap<Data>, Pause> {
    build_settings(target, domain, &map(entries), &Dialogue::silent())
}

#[test]
fn rejects_world_open_hetzner_ssh_cidr() {
    assert!(validate_ssh_cidrs(&texts(vec!["198.51.100.42/32"])).is_ok());
    assert!(validate_ssh_cidrs(&texts(vec!["198.51.100.42"])).is_err());
    assert!(validate_ssh_cidrs(&texts(vec!["0.0.0.0/0"])).is_err());
    assert!(validate_ssh_cidrs(&texts(vec!["::/0"])).is_err());
}

#[test]
fn interactive_ssh_sources_accept_bare_addresses() {
    let normalized = normalize_interactive_ssh_sources(texts(vec![
        "198.51.100.42",
        "2001:db8::1",
        "203.0.113.0/24",
    ]))
    .expect("normalize");

    assert_eq!(
        normalized,
        ["198.51.100.42/32", "2001:db8::1/128", "203.0.113.0/24"]
    );
    assert!(validate_ssh_cidrs(&normalized).is_ok());
}

fn hetzner_answers() -> Data {
    json(r#"{"ssh_keys": ["developer"], "allowed_ssh_cidrs": ["198.51.100.42/32"]}"#)
}

#[test]
fn interactive_hetzner_uses_existing_type_and_location_defaults() {
    let settings = hetzner_settings(Some(&hetzner_answers()), &Dialogue::open()).expect("settings");
    assert_eq!(settings.get_str("server_type"), Some("cx23"));
    assert_eq!(settings.get_str("location"), Some("nbg1"));
    assert_eq!(
        summarize_target(TargetKind::Hetzner, Some(&settings)),
        Some("cx23, location nbg1".to_owned())
    );
}

#[test]
fn noninteractive_hetzner_can_leave_location_to_the_provider() {
    let settings = hetzner_settings(Some(&hetzner_answers()), &Dialogue::silent()).expect("settings");
    assert!(settings.get("location").is_none());
    assert_eq!(
        summarize_target(TargetKind::Hetzner, Some(&settings)),
        Some("cx23, provider-selected location".to_owned())
    );
}

#[test]
fn bundled_targets_reject_incompatible_isolation_early() {
    assert!(validate_target_isolation(TargetKind::Ssh, Isolation::Project).is_ok());
    assert!(validate_target_isolation(TargetKind::Hetzner, Isolation::Machine).is_ok());
    assert!(validate_target_isolation(TargetKind::Kubernetes, Isolation::Environment).is_ok());
    assert!(validate_target_isolation(TargetKind::Fly, Isolation::Environment).is_ok());
    assert!(validate_target_isolation(TargetKind::Ssh, Isolation::Machine).is_err());
    assert!(validate_target_isolation(TargetKind::Hetzner, Isolation::Project).is_err());
    assert!(validate_target_isolation(TargetKind::Fly, Isolation::Machine).is_err());
}

const KUBERNETES: &str = r#"{
    "context": "rackspace-spot",
    "registry": "ghcr.io",
    "repository": "team/lightrail",
    "ingress_class": "nginx",
    "ingress_service_namespace": "ingress-nginx",
    "ingress_service_name": "ingress-nginx-controller"
}"#;

fn kubernetes_with(key: &str, value: Data) -> Data {
    let mut table = json(KUBERNETES);
    if let Data::Object(entries) = &mut table {
        lightrail::value::put_entry(entries, key, value);
    }
    table
}

#[test]
fn kubernetes_settings_require_explicit_cluster_and_registry_boundaries() {
    let generated = settings(TargetKind::Kubernetes, Some("nip.io"), vec![("target", json(KUBERNETES))])
        .expect("Kubernetes settings");
    let target = generated.get("target").expect("target table");

    assert_eq!(target.get_str("context"), Some("rackspace-spot"));
    assert_eq!(target.get_str("dns_domain"), Some("nip.io"));
    assert_eq!(target.get_str("ingress_service_namespace"), Some("ingress-nginx"));
    assert_eq!(target.get_str("ingress_service_name"), Some("ingress-nginx-controller"));
    assert_eq!(target.get_str("control_namespace"), Some("lightrail-system"));
    assert_eq!(target.get("ttl_hours").and_then(Data::as_integer), Some(72));
    assert_eq!(
        generated.get("dns"),
        Some(&Data::object()),
        "aggregate Kubernetes settings must not contain legacy DNS fields"
    );

    let generated = settings(
        TargetKind::Kubernetes,
        None,
        vec![("target", kubernetes_with("dns_domain", Data::text("nip.io")))],
    )
    .expect("target DNS setting");
    assert_eq!(generated.get("target").expect("target").get_str("dns_domain"), Some("nip.io"));
    assert_eq!(generated.get("dns"), Some(&Data::object()));

    let generated = settings(
        TargetKind::Kubernetes,
        None,
        vec![("target", json(KUBERNETES)), ("dns", json(r#"{"domain": "nip.io"}"#))],
    )
    .expect("capability DNS setting");
    assert_eq!(generated.get("target").expect("target").get_str("dns_domain"), Some("nip.io"));
    assert_eq!(
        generated.get("dns"),
        Some(&Data::object()),
        "legacy Kubernetes DNS answers are normalized into target.dns_domain"
    );

    assert!(settings(
        TargetKind::Kubernetes,
        None,
        vec![("target", json(KUBERNETES)), ("dns", json(r#"{"provider": "custom"}"#))],
    )
    .is_err());
}

#[test]
fn kubernetes_init_rejects_invalid_provider_values_before_writing_config() {
    for (key, value) in [
        ("registry", r#""localhost:5000""#),
        ("registry", r#"":5000""#),
        ("registry", r#"".""#),
        ("registry", r#""registry_with_underscore.example""#),
        ("ingress_service_namespace", r#""ingress..nginx""#),
        ("ingress_service_name", r#""""#),
        ("replicas", "0"),
        ("kubeconfig", "42"),
        ("unknown", "true"),
        ("platforms", r#"["linux/amd64", "linux/amd64"]"#),
    ] {
        assert!(
            settings(TargetKind::Kubernetes, None, vec![("target", kubernetes_with(key, json(value)))]).is_err(),
            "invalid Kubernetes setting {key} must fail during init"
        );
    }
}

#[test]
fn kubernetes_init_requires_explicit_ingress_service_identity() {
    let base = r#""context": "rackspace-spot", "registry": "ghcr.io", "repository": "team/lightrail", "ingress_class": "nginx""#;

    let error = settings(TargetKind::Kubernetes, None, vec![("target", json(&format!("{{{base}}}")))])
        .expect_err("missing ingress Service namespace");
    assert!(message(error).contains("settings.target.ingress_service_namespace"));

    let with_namespace = format!(r#"{{{base}, "ingress_service_namespace": "ingress-nginx"}}"#);
    let error = settings(TargetKind::Kubernetes, None, vec![("target", json(&with_namespace))])
        .expect_err("missing ingress Service name");
    assert!(message(error).contains("settings.target.ingress_service_name"));
}

#[test]
fn kubernetes_registry_and_dns_validators_reject_empty_or_malformed_hosts() {
    assert!(validate_registry_setting("registry.example:5000").is_ok());
    assert!(validate_registry_setting("198.51.100.20:5000").is_ok());
    for registry in [
        "",
        ".",
        ":5000",
        "registry..example",
        "-registry.example",
        "registry-.example",
        "registry_name.example",
        "999.999.999.999",
        "127.0.0.1:5000",
        "0.0.0.0",
        "[::1]:5000",
        "[::]:5000",
        "[::ffff:127.0.0.1]:5000",
        "[2001:db8::20]:5000",
        "2001:db8::20",
    ] {
        assert!(
            validate_registry_setting(registry).is_err(),
            "{registry:?} must not be accepted as a registry host"
        );
    }
    assert!(validate_dns_label_setting("", "field").is_err());
    assert!(validate_dns_subdomain_setting(".nginx", "field").is_err());
    assert!(validate_dns_subdomain_setting("nginx.", "field").is_err());
    assert!(validate_dns_subdomain_setting("nginx..internal", "field").is_err());
}

#[test]
fn fly_settings_use_native_dns_and_a_secret_reference() {
    let generated = settings(
        TargetKind::Fly,
        None,
        vec![("target", json(r#"{"token": "must-not-be-committed"}"#))],
    )
    .expect("Fly settings");
    let target = generated.get("target").expect("target table");

    assert_eq!(generated.get("dns"), Some(&Data::object()));
    assert_eq!(target.get("token").expect("token").get_str("secret"), Some("fly-token"));
    assert!(settings(TargetKind::Fly, Some("sslip.io"), Vec::new()).is_err());
    assert!(settings(TargetKind::Fly, None, vec![("dns", json(r#"{"domain": "sslip.io"}"#))]).is_err());
}

#[test]
fn fly_init_rejects_values_the_bundled_plugin_cannot_use() {
    for (key, table) in [
        ("registry", r#"{"registry": "docker.io"}"#),
        ("memory_mb", r#"{"memory_mb": 300}"#),
        ("lock_ttl_seconds", r#"{"lock_ttl_seconds": 300}"#),
        ("unknown", r#"{"unknown": true}"#),
    ] {
        assert!(
            settings(TargetKind::Fly, None, vec![("target", json(table))]).is_err(),
            "invalid Fly.io setting {key} must fail during init"
        );
    }
}

#[test]
fn fly_lock_ttl_exceeds_the_longest_phase_by_more_than_three_minutes() {
    let target_with_lock_ttl = |lock_ttl_seconds: i64| {
        json(&format!(
            r#"{{"command_timeout_seconds": 300, "readiness_timeout_seconds": 300, "lock_ttl_seconds": {lock_ttl_seconds}}}"#
        ))
    };

    assert!(settings(TargetKind::Fly, None, vec![("target", target_with_lock_ttl(480))]).is_err());
    assert!(settings(TargetKind::Fly, None, vec![("target", target_with_lock_ttl(481))]).is_ok());
}

#[test]
fn explicit_dns_choice_wins_and_hex_encoding_cannot_be_overridden() {
    let generated = settings(
        TargetKind::Ssh,
        Some("nip.io"),
        vec![
            ("target", json(r#"{"host": "8.8.8.8"}"#)),
            ("dns", json(r#"{"domain": "sslip.io", "encoding": "decimal"}"#)),
        ],
    )
    .expect("settings");
    let dns = generated.get("dns").expect("DNS table");

    assert_eq!(dns.get_str("domain"), Some("nip.io"));
    assert_eq!(dns.get_str("encoding"), Some("hex-ipv4"));
}

#[test]
fn answers_create_a_valid_committed_configuration() {
    let answers = InitAnswers {
        project_slug: Some("storefront".to_owned()),
        compose: Vec::new(),
        target: Some(TargetKind::Ssh),
        isolation: None,
        apps: vec![AppAnswer {
            name: Some("web".to_owned()),
            service: "frontend".to_owned(),
            port: Some(3000),
            health_path: Some("/health".to_owned()),
            health_status: Some(200),
        }],
        dns_domain: Some("nip.io".to_owned()),
        settings: map(vec![("target", json(r#"{"host": "8.8.8.8", "user": "deploy"}"#))]),
    };

    let Initialized { config, summary } = initialize(&options(), &answers, ProjectId::new()).expect("initialize");

    assert_eq!(summary.project_slug, "storefront");
    assert_eq!(summary.apps[0].name, "web");
    assert_eq!(summary.dns_domain, "nip.io");
    assert_eq!(summary.target_detail.as_deref(), Some("deploy@8.8.8.8"));
    assert!(config.validate().is_ok());
    assert_eq!(config.apps.len(), 1);
    assert_eq!(config.app("web").expect("app").service, "frontend");
    let profile = config.default_profile().expect("default").1;
    assert_eq!(profile.isolation, Isolation::Project);
    assert_eq!(profile.pipeline.target.as_str(), SSH_PLUGIN_ID);
    assert_eq!(profile.settings.get("dns").expect("table").get_str("domain"), Some("nip.io"));
    assert!(ignore_local_state("").expect("gitignore").contains(".lightrail/"));
    assert_eq!(ignore_local_state("target\n.lightrail/\n"), None);
}

#[test]
fn inventory_boundary_applies_cli_target_and_domain_overrides() {
    let mut init_options = options();
    init_options.target = Some(TargetKind::Ssh);
    init_options.dns_domain = Some("nip.io".to_owned());
    let mut answers = noninteractive_ssh_answers();
    answers.target = Some(TargetKind::Hetzner);
    answers.dns_domain = Some("sslip.io".to_owned());

    let summary = initialize(&init_options, &answers, ProjectId::new())
        .expect("initialize with CLI overrides")
        .summary;

    assert_eq!(summary.target, TargetKind::Ssh);
    assert_eq!(summary.isolation, Isolation::Project);
    assert_eq!(summary.dns_domain, "nip.io");
}

#[test]
fn init_refuses_to_overwrite_without_explicit_force() {
    let id = ProjectId::new();
    assert_eq!(
        existing_project_id("lightrail.toml", false, false, Err(String::new())).expect("first init"),
        None
    );
    let error = existing_project_id("lightrail.toml", false, true, Ok(id)).expect_err("must refuse");
    assert!(error.message().contains("--force"));
    assert_eq!(
        existing_project_id("lightrail.toml", true, true, Ok(id)).expect("forced replacement"),
        Some(id)
    );
}

#[test]
fn force_reconfiguration_preserves_project_id() {
    let original = initialize(&options(), &noninteractive_ssh_answers(), ProjectId::new())
        .expect("initial configuration")
        .config;
    let mut answers = noninteractive_ssh_answers();
    answers.project_slug = Some("renamed-shop".to_owned());
    let kept = existing_project_id("lightrail.toml", true, true, Ok(original.project.id))
        .expect("kept")
        .expect("identifier");
    let replaced = initialize(&options(), &answers, kept).expect("forced reconfiguration");

    assert_eq!(replaced.config.project.id, original.project.id);
    assert_eq!(replaced.summary.project_id, original.project.id.hyphenated());
    assert_eq!(replaced.config.project.slug, "renamed-shop");
}

#[test]
fn force_reconfiguration_refuses_an_invalid_existing_config() {
    let error = existing_project_id("lightrail.toml", true, true, Err("schema".to_owned()))
        .expect_err("invalid existing config must be preserved");
    assert!(error
        .message()
        .contains("refusing to replace invalid existing configuration"));
}

#[test]
fn compose_discovery_prefers_canonical_base_file() {
    let names = texts(vec!["compose.prod.yaml", "docker-compose.yml", "compose.yaml", "notes.yaml"]);
    let files = discover_compose_files("/work/shop", &names).expect("discover");

    assert_eq!(
        files,
        vec!["compose.yaml", "docker-compose.yml", "compose.prod.yaml"]
    );
    assert!(discover_compose_files("/work/shop", &texts(vec!["notes.yaml"])).is_err());
}

#[test]
fn detected_apps_use_service_names_and_keep_private_database_internal() {
    let apps = choose_apps(&inventory_fixture(), &Vec::new(), &Dialogue::silent()).expect("apps");

    assert_eq!(apps.len(), 1);
    assert!(apps.contains_key("frontend"));
    assert_eq!(apps.get("frontend").expect("frontend").service, "frontend");
    assert!(!apps.contains_key("db"));
}

#[test]
fn localhost_targets_are_rejected_during_initialization() {
    for host in ["localhost", "api.localhost", "127.0.0.1", "::1"] {
        assert!(is_localhost_target(host));
    }
    assert!(!is_localhost_target("server.example.com"));
}

#[test]
fn questions_are_asked_and_their_replies_used() {
    let mut dialogue = Dialogue::open();
    let question = match choose_target(None, &dialogue) {
        Err(Pause::Ask(question)) => question,
        _ => panic!("must ask"),
    };
    assert!(matches!(question.ask, Ask::Select { .. }));
    dialogue.record(question.key, Reply::Choice(1));
    assert_eq!(choose_target(None, &dialogue).expect("target"), TargetKind::Hetzner);
    assert_eq!(choose_target(Some(TargetKind::Fly), &dialogue).expect("target"), TargetKind::Fly);
    assert_eq!(choose_target(None, &Dialogue::silent()).expect("target"), TargetKind::Ssh);
}

#[test]
fn requested_compose_files_must_be_there() {
    let discovered = texts(vec!["compose.yaml"]);
    let silent = Dialogue::silent();
    assert_eq!(
        choose_compose_files("/work/shop", &discovered, &Vec::new(), &Vec::new(), &silent).expect("files"),
        vec!["compose.yaml"]
    );
    assert_eq!(
        choose_compose_files("/work/shop", &discovered, &texts(vec!["other.yaml"]), &vec![true], &silent)
            .expect("files"),
        vec!["other.yaml"]
    );
    assert!(
        choose_compose_files("/work/shop", &discovered, &texts(vec!["other.yaml"]), &vec![false], &silent).is_err()
    );
}

#[test]
fn answers_are_read_as_their_extension_says() {
    assert_eq!(answer_notation("/work/answers.json"), AnswerNotation::Json);
    assert_eq!(answer_notation("/work/answers.toml"), AnswerNotation::Toml);
    assert_eq!(answer_notation("/work/.json"), AnswerNotation::Toml);
    assert_eq!(answers_path("answers.json", "/work"), "/work/answers.json");
    assert_eq!(answers_path("/answers.json", "/work"), "/answers.json");
    assert!(load_answers("", AnswerSource::Absent).expect("none").apps.is_empty());
    let error = load_answers("a.json", AnswerSource::Read(Err("bad".to_owned()))).expect_err("malformed");
    assert_eq!(error.message(), "configuration error: could not parse JSON init answers in a.json: bad");
    let error = load_answers("a.toml", AnswerSource::Unreadable("gone".to_owned())).expect_err("unreadable");
    assert_eq!(error.message(), "configuration error: could not read init answers from a.toml: gone");
}

#[test]
fn discovers_builds_ports_and_unsafe_mounts() {
    let mut api = service();
    api.build = Some(json(r#"{"context": "."}"#));
    api.ports = vec![json(r#"{"target": 8080, "published": "8080"}"#)];
    api.healthcheck = Some(json(r#"{"test": ["CMD", "true"]}"#));
    let mut db = service();
    db.image = Some("postgres:17".to_owned());
    db.expose = vec![json(r#""5432/tcp""#)];
    db.volumes = vec![json(r#"{"type": "volume", "source": "db", "target": "/data"}"#)];
    let mut dev = service();
    dev.image = Some("node".to_owned());
    dev.volumes = vec![json(r#"{"type": "bind", "source": "/src", "target": "/app"}"#)];
    dev.network_mode = Some("host".to_owned());
    let document = ComposeDocument {
        name: Some("shop".to_owned()),
        services: map(vec![("api", api), ("db", db), ("dev", dev)]),
    };
    assert!(accept_model(Ok(document.clone()), true).is_err());
    assert!(accept_model(Err("bad".to_owned()), false).is_err());
    let inventory = inventory(document);

    let api = inventory.service("api").expect("api");
    assert!(api.has_build);
    assert_eq!(api.internal_ports, vec![8080]);
    assert!(api.has_healthcheck);
    assert_eq!(inventory.service("db").expect("db").internal_ports, vec![5432]);
    let error = inventory.validate_remote_safety().expect_err("unsafe");
    assert_eq!(
        error.message(),
        "configuration error: remote deployment rejects network_mode=host in services: dev"
    );
}

#[test]
fn short_bind_mount_is_detected_but_named_volume_is_not() {
    assert_eq!(bind_source(&Data::text("./src:/app")).as_deref(), Some("./src"));
    assert_eq!(bind_source(&Data::text("data:/data")), None);
}

#[test]
fn ports_are_read_in_every_notation() {
    assert_eq!(port_target(&Data::text("8080/udp")), Some(8080));
    assert_eq!(port_target(&Data::Integer(70000)), None);
    assert_eq!(port_target(&json(r#"{"target": "53"}"#)), Some(53));
    assert_eq!(port_target(&Data::text("8080:80")), None);
    assert_eq!(
        inspect_arguments(&texts(vec!["a.yaml", "b.yaml"])).expect("arguments"),
        vec!["compose", "-f", "a.yaml", "-f", "b.yaml", "config", "--format", "json"]
    );
    assert!(inspect_arguments(&Vec::new()).is_err());
}
