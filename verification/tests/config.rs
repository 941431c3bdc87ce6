use lightrail::collections::StringMap;
use lightrail::config::{
    App, Capability, ConfigError, EnvironmentValue, IdentifierError, Isolation, LightrailConfig, PluginId, PluginPipeline,
    Profile, Project, ProjectId, SecretName, CONFIG_SCHEMA_VERSION,
};
use lightrail::validation::ValidationCode;
use lightrail::value::Data;

fn plugin(id: &str) -> PluginId {
    PluginId::new(id).expect("plugin ID")
}

fn map<V>(entries: Vec<(&str, V)>) -> StringMap<V> {
    let mut map = StringMap::new();
    for (key, value) in entries {
        map.insert(key.to_owned(), value);
    }
    map
}

fn json(source: &str) -> Data {
    lightrail::value::parse_json(source.as_bytes()).expect("JSON")
}

fn app(service: &str, port: u16) -> App {
    App {
        service: service.to_owned(),
        port,
        health_path: None,
        health_status: None,
        health_interval_seconds: None,
        health_timeout_seconds: None,
        env: StringMap::new(),
    }
}

fn valid_config() -> LightrailConfig {
    let mut frontend = app("frontend", 3000);
    frontend.env = map(vec![("PUBLIC_NAME", EnvironmentValue::literal("preview"))]);
    let mut api = app("api", 8080);
    api.health_path = Some("/health".to_owned());
    api.health_status = Some(200);
    api.health_interval_seconds = Some(2);
    api.health_timeout_seconds = Some(1);
    let profile = Profile {
        isolation: Isolation::Machine,
        apps: vec!["frontend".to_owned(), "api".to_owned()],
        pipeline: PluginPipeline {
            source: plugin("lightrail.source.cwd-git"),
            builder: plugin("lightrail.builder.buildx"),
            target: plugin("lightrail.target.hetzner"),
            runtime: plugin("lightrail.runtime.compose"),
            exposure: plugin("lightrail.exposure.traefik"),
            dns: plugin("lightrail.dns.ip"),
        },
        settings: map(vec![
            ("target", json(r#"{"server_type":"cx22","token":{"secret":"hetzner-token"}}"#)),
            ("exposure", json(r#"{"mode":"public","tls":"acme-http-01"}"#)),
            ("dns", json(r#"{"domain":"sslip.io","encoding":"hex-ipv4"}"#)),
        ]),
        env: map(vec![("RUST_LOG", EnvironmentValue::literal("info"))]),
        app_env: map(vec![(
            "api",
            map(vec![(
                "DATABASE_URL",
                EnvironmentValue::secret("preview-database-url").expect("secret"),
            )]),
        )]),
    };
    LightrailConfig {
        schema: CONFIG_SCHEMA_VERSION,
        project: Project {
            id: ProjectId::parse("2f1c30f5-dce1-4a5c-a751-3a766f6b48ea").expect("UUID"),
            slug: "myproject".to_owned(),
            compose: vec!["compose.yaml".to_owned()],
            default_profile: "preview".to_owned(),
        },
        apps: map(vec![("frontend", frontend), ("api", api)]),
        profiles: map(vec![("preview", profile)]),
    }
}

#[test]
fn a_valid_configuration_is_accepted() {
    let config = valid_config();
    assert!(config.validate().is_ok());
    let profile = config.profile("preview").expect("preview profile");
    let database_url = profile.app_env.get("api").expect("api").get("DATABASE_URL").expect("variable");

    assert_eq!(config.schema, CONFIG_SCHEMA_VERSION);
    assert_eq!(config.default_profile().expect("default profile exists").0, "preview");
    assert_eq!(
        database_url.secret_name().expect("secret reference").as_str(),
        "preview-database-url"
    );
    assert_eq!(
        config.app("frontend").expect("app").env.get("PUBLIC_NAME").expect("variable").as_literal(),
        Some("preview")
    );
}

#[test]
fn preserves_opaque_settings_and_converts_them_to_json() {
    let config = valid_config();
    let target = config
        .profile("preview")
        .expect("profile")
        .settings_json(Capability::Target)
        .expect("JSON conversion")
        .expect("target settings");

    assert_eq!(target.get_str("server_type"), Some("cx22"));
    assert_eq!(target.get("token").expect("token").get_str("secret"), Some("hetzner-token"));
}

#[test]
fn settings_with_dates_become_documents() {
    let mut config = valid_config();
    let mut settings = StringMap::new();
    settings.insert("target".to_owned(), Data::Datetime("1979-05-27".to_owned()));
    config.profiles.entries[0].1.settings = settings;
    let target = config.profiles.entries[0].1.settings_json(Capability::Target).expect("JSON").expect("settings");
    assert_eq!(target.get_str("$__toml_private_datetime"), Some("1979-05-27"));
}

#[test]
fn what_cannot_be_read_or_is_not_valid_is_reported() {
    let unreadable = LightrailConfig::parse_from(Err("bad".to_owned()), "<memory>");
    match unreadable {
        Err(error) => assert_eq!(
            error.message(),
            "failed to parse Lightrail configuration from <memory>: bad"
        ),
        Ok(_) => panic!("must be rejected"),
    }
    let mut config = valid_config();
    config.schema = 2;
    match LightrailConfig::parse_from(Ok(config), "<memory>") {
        Err(ConfigError::Validation(errors)) => {
            assert_eq!(errors.issues().len(), 1);
            assert_eq!(errors.issues()[0].message, "schema 2 is unsupported; expected 1");
        }
        _ => panic!("must be rejected"),
    }
    assert_eq!(LightrailConfig::parse_from(Ok(valid_config()), "<memory>").expect("valid"), valid_config());
}

#[test]
fn reports_all_independent_domain_violations() {
    let mut config = valid_config();
    config.schema = 99;
    config.project.id = ProjectId::from_uuid([0; 16]);
    config.project.compose = vec!["../compose.yaml".to_owned(), "../compose.yaml".to_owned()];
    config.project.default_profile = "missing".to_owned();

    for (name, api) in &mut config.apps.entries {
        if name == "api" {
            api.port = 0;
            api.health_path = None;
            api.health_status = Some(700);
        }
    }

    let profile = &mut config.profiles.entries[0].1;
    profile.apps.push("api".to_owned());
    profile.apps.push("missing-app".to_owned());
    profile.settings.insert("unknown".to_owned(), Data::Bool(true));
    profile.env.insert("INVALID-KEY".to_owned(), EnvironmentValue::literal("x"));
    profile.app_env.insert("missing-app".to_owned(), StringMap::new());

    let errors = config.validate().expect_err("invalid config");
    let codes: Vec<ValidationCode> = errors.issues().iter().map(|issue| issue.code).collect();

    for expected in [
        ValidationCode::UnsupportedSchema,
        ValidationCode::InvalidIdentifier,
        ValidationCode::InvalidPath,
        ValidationCode::Duplicate,
        ValidationCode::MissingReference,
        ValidationCode::InvalidPort,
        ValidationCode::InvalidHealthCheck,
        ValidationCode::UnknownCapability,
        ValidationCode::InvalidEnvironmentKey,
    ] {
        assert!(
            codes.contains(&expected),
            "missing validation code {expected:?}: {}",
            errors.message()
        );
    }
    assert!(errors.issues().len() >= 10, "{}", errors.message());
}

#[test]
fn rejects_empty_required_collections() {
    let mut config = valid_config();
    config.project.compose.clear();
    config.apps = StringMap::new();
    config.profiles = StringMap::new();

    let errors = config.validate().expect_err("empty config");

    assert!(
        errors
            .issues()
            .iter()
            .filter(|issue| issue.code == ValidationCode::Empty)
            .count()
            >= 3
    );
}

#[test]
fn identifier_constructors_enforce_protocol_safe_alphabets() {
    assert!(PluginId::new("vendor.target.plugin").is_ok());
    assert!(PluginId::new("Vendor.target.plugin").is_err());
    assert!(PluginId::new(".vendor").is_err());
    assert!(SecretName::new("hetzner-token").is_ok());
    assert!(SecretName::new("hetzner token").is_err());
}

#[test]
fn identifiers_report_each_problem() {
    assert!(matches!(PluginId::new(""), Err(IdentifierError::Empty { .. })));
    assert!(matches!(
        PluginId::new(&"a".repeat(129)),
        Err(IdentifierError::TooLong { length: 129, .. })
    ));
    match SecretName::new("API TOKEN") {
        Err(IdentifierError::InvalidCharacters { kind, value }) => {
            assert_eq!(kind, "secret name");
            assert_eq!(value, "API TOKEN");
        }
        _ => panic!("must be rejected"),
    }
    assert!("vendor.plugin".parse::<PluginId>().is_ok());
    assert!("Vendor".parse::<SecretName>().is_err());
    assert!(EnvironmentValue::secret("NOT SAFE").is_err());
}

#[test]
fn project_identifiers_are_read_back() {
    let id = ProjectId::parse("2f1c30f5-dce1-4a5c-a751-3a766f6b48ea").expect("UUID");
    assert_eq!(id.hyphenated(), "2f1c30f5-dce1-4a5c-a751-3a766f6b48ea");
    assert_eq!(id.simple(), "2f1c30f5dce14a5ca7513a766f6b48ea");
    assert_eq!(ProjectId::parse(&id.hyphenated()), Some(id));
    assert_eq!(ProjectId::parse("nonsense"), None);
    assert!(!ProjectId::new().is_nil());
    assert!(ProjectId::new() != ProjectId::new());
}

#[test]
fn capabilities_are_read_back() {
    for capability in [
        Capability::Source,
        Capability::Builder,
        Capability::Target,
        Capability::Runtime,
        Capability::Exposure,
        Capability::Dns,
    ] {
        assert_eq!(Capability::parse(capability.as_str()).expect("capability"), capability);
    }
    let error = Capability::parse("nothing").expect_err("unknown");
    assert!(error.message().contains("nothing"));
}

#[test]
fn project_ids_have_several_notations() {
    let id = ProjectId::parse("2f1c30f5-dce1-4a5c-a751-3a766f6b48ea").expect("hyphenated");
    for notation in [
        "2f1c30f5dce14a5ca7513a766f6b48ea",
        "2F1C30F5-DCE1-4A5C-A751-3A766F6B48EA",
        "{2f1c30f5-dce1-4a5c-a751-3a766f6b48ea}",
        "urn:uuid:2f1c30f5-dce1-4a5c-a751-3a766f6b48ea",
        "URN:UUID:2f1c30f5-dce1-4a5c-a751-3a766f6b48eA",
    ] {
        assert_eq!(ProjectId::parse(notation), Some(id), "{notation}");
    }
    assert_eq!(id.hyphenated(), "2f1c30f5-dce1-4a5c-a751-3a766f6b48ea");
    assert_eq!(id.simple(), "2f1c30f5dce14a5ca7513a766f6b48ea");
    for notation in [
        "",
        "2f1c30f5dce14a5ca7513a766f6b48e",
        "2f1c30f5dce14a5ca7513a766f6b48eg",
        "2f1c30f5dce1-4a5c-a751-3a766f6b48ea-",
        "{2f1c30f5dce14a5ca7513a766f6b48ea}",
        "(2f1c30f5-dce1-4a5c-a751-3a766f6b48ea)",
        "urn:guid:2f1c30f5-dce1-4a5c-a751-3a766f6b48ea",
        "\u{e9}f1c30f5-dce1-4a5c-a751-3a766f6b48e",
    ] {
        assert_eq!(ProjectId::parse(notation), None, "{notation}");
    }
}
