use lightrail::collections::{StringMap, StringSet};
use lightrail::config::{Capability, Isolation};
use lightrail::context::{merge_json_object, secret_references_for_operation};
use lightrail::down::{down_retry_command, validate_down_force};
use lightrail::error::CliError;
use lightrail::journal::{mark_plugin_actions_completed, OperationJournal, OperationKind};
use lightrail::lifecycle::DownOptions;
use lightrail::lock::{classify_lock_continuity, finish_with_lock_release, mutation_lock_scope, LockContinuity};
use lightrail::output::OutputFormat;
use lightrail::prepared::{
    check_apply_cancellation, locked_plan_request_timeout, plan_contract, record_apply_attempt,
    record_planned_actions, rollback_journal, AppliedCapability, ApplyAttempt, PreparedCapability, APPLY_ORDER,
};
use lightrail::protocol::{
    ActionJournalEntry, ApplyResult, Endpoint, ExecutableMetadata, InspectResult, JournalStatus, LockAcquireResult,
    LockScope, OperationContext, PlanResult, PlannedAction, PluginManifest, ResourceStatus, RollbackMetadata,
    SecretRequirement, SecretValue,
};
use lightrail::prune::{expired_candidates, should_print_prune_plan};
use lightrail::rollback::{
    classify_rollback, rollback_claims, rollback_current_state, rollback_order, scope_rollback_cleanup_secrets,
    RollbackClassification, RollbackOperation, UnsupportedRollback,
};
use lightrail::value::{collect_secret_references, Data};
use lightrail::version::ProtocolCompatibility;
use lightrail::view::{collect_endpoints, collect_environment_summaries, combined_status};

fn json(source: &str) -> Data {
    lightrail::value::parse_json(source.as_bytes()).expect("JSON")
}

fn object(entries: Vec<(&str, Data)>) -> Data {
    Data::Object(entries.into_iter().map(|(name, value)| (name.to_owned(), value)).collect())
}

fn test_manifest(secret_names: &[&str]) -> PluginManifest {
    PluginManifest {
        id: "dev.lightrail.test".to_owned(),
        name: "Test".to_owned(),
        version: "0.0.0".to_owned(),
        protocol: ProtocolCompatibility::default(),
        executable: ExecutableMetadata::default(),
        capabilities: Vec::new(),
        features: Vec::new(),
        required_secrets: secret_names
            .iter()
            .map(|name| SecretRequirement {
                name: (*name).to_owned(),
                description: None,
                required: true,
            })
            .collect(),
        config_schema: Data::object(),
        config_ui_hints: Data::object(),
    }
}

fn planned_action(id: &str, kind: &str, rollback: Option<RollbackMetadata>) -> PlannedAction {
    PlannedAction {
        id: id.to_owned(),
        kind: kind.to_owned(),
        summary: format!("Apply {id}"),
        destructive: false,
        depends_on: Vec::new(),
        rollback,
        metadata: json(&format!("{{\"resource\": \"{id}\"}}")),
    }
}

fn rollback_metadata(
    supported: bool,
    action: Option<&str>,
    reason: Option<&str>,
) -> RollbackMetadata {
    RollbackMetadata {
        supported,
        action: action.map(ToOwned::to_owned),
        token: None,
        metadata: match reason {
            Some(reason) => json(&format!("{{\"reason\": \"{reason}\"}}")),
            None => Data::object(),
        },
    }
}

fn prepared_for_rollback(
    capability: Capability,
    status: ResourceStatus,
    state: Data,
    actions: Vec<PlannedAction>,
) -> PreparedCapability {
    PreparedCapability {
        capability,
        plugin_id: format!("dev.lightrail.{}", capability.as_str()),
        context: OperationContext {
            operation_id: "operation-id".to_owned(),
            environment_id: "environment-id".to_owned(),
            profile: "preview".to_owned(),
            project_root: None,
            config: Data::object(),
            secrets: StringMap::new(),
            metadata: Data::object(),
        },
        current: InspectResult {
            status,
            endpoints: Vec::new(),
            state,
            diagnostics: Vec::new(),
        },
        plan: PlanResult {
            plan_id: format!("plan-{}", capability.as_str()),
            has_changes: !actions.is_empty(),
            actions,
            metadata: json(r#"{"desired": {}}"#),
        },
    }
}

#[test]
fn combines_status_using_failure_severity() {
    assert_eq!(
        combined_status(&vec![ResourceStatus::Ready, ResourceStatus::Degraded]),
        ResourceStatus::Degraded
    );
    assert_eq!(combined_status(&Vec::new()), ResourceStatus::Absent);
}

#[test]
fn collects_secret_references_recursively() {
    let value = json(r#"{ "token": {"secret": "hetzner-token"}, "nested": [{"secret": "database-url"}] }"#);
    let mut names = StringSet::new();
    collect_secret_references(&value, &mut names);
    assert_eq!(
        names.items,
        vec!["database-url", "hetzner-token"]
    );
}

#[test]
fn aggregate_plugin_secret_selection_stays_capability_scoped() {
    let target_config = json(r#"{ "token": {"secret": "provider-token"} }"#);
    let runtime_desired = json(r#"{ "apps": [{ "environment": { "DATABASE_URL": {"secret": "database-url"} } }] }"#);

    assert_eq!(
        secret_references_for_operation(&target_config, None).items,
        vec!["provider-token"]
    );
    assert_eq!(
        secret_references_for_operation(&Data::object(), Some(&runtime_desired)).items,
        vec!["database-url"]
    );
}

#[test]
fn rollback_cleanup_keeps_exact_provider_credentials_and_drops_wildcard_secrets() {
    let provider_token = SecretValue::new("provider-token");
    let manifest = test_manifest(&["fly-token", "*"]);
    let mut secrets = StringMap::new();
    secrets.insert("fly-token".to_owned(), provider_token.clone());
    secrets.insert("database-url".to_owned(), SecretValue::new("runtime-application-secret"));

    scope_rollback_cleanup_secrets(&manifest, &mut secrets);

    assert!(
        secrets.get("fly-token") == Some(&provider_token),
        "provider cleanup needs its exact manifest-declared credential"
    );
    assert!(
        !secrets.contains_key("database-url"),
        "cleanup must not receive application secrets admitted by a wildcard"
    );
}

#[test]
fn mixed_runtime_rollback_compensates_supported_actions_and_reports_unsupported_ones() {
    let applied = AppliedCapability::new(prepared_for_rollback(
        Capability::Runtime,
        ResourceStatus::Ready,
        json(r#"{"revision": "previous"}"#),
        vec![
            planned_action(
                "apply-deployment-web",
                "kubernetes.apply",
                Some(rollback_metadata(
                    true,
                    Some("runtime.restore-previous"),
                    None,
                )),
            ),
            planned_action(
                "apply-secret-web",
                "kubernetes.apply",
                Some(rollback_metadata(
                    false,
                    None,
                    Some("historical secret values are unavailable"),
                )),
            ),
            planned_action(
                "apply-pvc-data",
                "kubernetes.apply",
                Some(rollback_metadata(
                    false,
                    None,
                    Some("persistent data is not transactional"),
                )),
            ),
            planned_action("apply-service-web", "kubernetes.apply", None),
        ],
    ));

    let classification = classify_rollback(&applied);

    assert_eq!(classification.operation, Some(RollbackOperation::Rollback));
    assert_eq!(
        classification
            .unsupported
            .iter()
            .map(|item| (item.action_id.as_str(), item.kind.as_str()))
            .collect::<Vec<_>>(),
        vec![
            ("apply-pvc-data", "kubernetes.apply"),
            ("apply-secret-web", "kubernetes.apply"),
            ("apply-service-web", "kubernetes.apply"),
        ]
    );
}

#[test]
fn runtime_reports_missing_contract_alongside_an_unsupported_contract() {
    let applied = AppliedCapability::new(prepared_for_rollback(
        Capability::Runtime,
        ResourceStatus::Ready,
        json(r#"{"revision": "previous"}"#),
        vec![
            planned_action(
                "replace-secret",
                "runtime.replace-secret",
                Some(rollback_metadata(
                    false,
                    None,
                    Some("historical secret values are unavailable"),
                )),
            ),
            planned_action("replace-service", "runtime.replace-service", None),
        ],
    ));

    let classification = classify_rollback(&applied);

    assert_eq!(classification.operation, None);
    assert_eq!(
        classification
            .unsupported
            .iter()
            .map(|limitation| limitation.action_id.as_str())
            .collect::<Vec<_>>(),
        vec!["replace-secret", "replace-service"]
    );
}

#[test]
fn runtime_missing_contracts_ignore_skipped_and_already_rolled_back_actions() {
    let mut applied = AppliedCapability::new(prepared_for_rollback(
        Capability::Runtime,
        ResourceStatus::Ready,
        json(r#"{"revision": "previous"}"#),
        ["ran", "skipped", "rolled-back"]
            .into_iter()
            .map(|id| planned_action(id, "runtime.reconcile", None))
            .collect(),
    ));
    applied.journal = vec![
        ActionJournalEntry {
            sequence: 1,
            action_id: "ran".to_owned(),
            status: JournalStatus::Succeeded,
            timestamp: None,
            message: None,
            rollback: None,
            metadata: Data::object(),
        },
        ActionJournalEntry {
            sequence: 2,
            action_id: "skipped".to_owned(),
            status: JournalStatus::Skipped,
            timestamp: None,
            message: None,
            rollback: None,
            metadata: Data::object(),
        },
        ActionJournalEntry {
            sequence: 3,
            action_id: "rolled-back".to_owned(),
            status: JournalStatus::RolledBack,
            timestamp: None,
            message: None,
            rollback: None,
            metadata: Data::object(),
        },
    ];

    let classification = classify_rollback(&applied);

    assert_eq!(classification.operation, None);
    assert_eq!(classification.unsupported.len(), 1);
    assert_eq!(classification.unsupported[0].action_id, "ran");
}

#[test]
fn existing_runtime_without_a_prior_revision_is_never_destroyed_as_cleanup() {
    let applied = AppliedCapability::new(prepared_for_rollback(
        Capability::Runtime,
        ResourceStatus::Ready,
        json(r#"{"provider": "native"}"#),
        vec![planned_action(
            "runtime-reconcile",
            "native.runtime.reconcile",
            Some(rollback_metadata(
                true,
                Some("runtime.restore-previous"),
                None,
            )),
        )],
    ));

    let classification = classify_rollback(&applied);

    assert_eq!(classification.operation, None);
    assert_eq!(classification.unsupported.len(), 1);
    assert_eq!(classification.unsupported[0].action_id, "runtime-reconcile");
    assert!(
        classification.unsupported[0]
            .reason
            .contains("no observed prior revision")
    );
}

#[test]
fn existing_runtime_without_an_advertised_inverse_is_reported() {
    let applied = AppliedCapability::new(prepared_for_rollback(
        Capability::Runtime,
        ResourceStatus::Ready,
        json(r#"{"revision": "previous"}"#),
        vec![planned_action(
            "runtime.reconcile.app",
            "fly.runtime.reconcile",
            None,
        )],
    ));

    let classification = classify_rollback(&applied);

    assert_eq!(classification.operation, None);
    assert_eq!(
        classification
            .unsupported
            .iter()
            .map(|item| (item.action_id.as_str(), item.kind.as_str()))
            .collect::<Vec<_>>(),
        vec![("runtime.reconcile.app", "fly.runtime.reconcile")]
    );
}

#[test]
fn whole_capability_cleanup_requires_a_previously_absent_resource() {
    let inverse = Some(rollback_metadata(true, Some("delete"), None));
    let absent_target = AppliedCapability::new(prepared_for_rollback(
        Capability::Target,
        ResourceStatus::Absent,
        Data::object(),
        vec![planned_action(
            "create-firewall",
            "hetzner.create",
            inverse.clone(),
        )],
    ));
    let existing_target = AppliedCapability::new(prepared_for_rollback(
        Capability::Target,
        ResourceStatus::Ready,
        json(r#"{"server_id": 42}"#),
        vec![planned_action("create-firewall", "hetzner.create", inverse)],
    ));
    let absent_runtime = AppliedCapability::new(prepared_for_rollback(
        Capability::Runtime,
        ResourceStatus::Absent,
        Data::object(),
        vec![planned_action(
            "deploy",
            "runtime.deploy",
            Some(rollback_metadata(
                false,
                None,
                Some("previous revision rollback is unavailable"),
            )),
        )],
    ));
    let builder = AppliedCapability::new(prepared_for_rollback(
        Capability::Builder,
        ResourceStatus::Absent,
        Data::object(),
        vec![planned_action("build", "builder.push", None)],
    ));

    assert_eq!(
        classify_rollback(&absent_target).operation,
        Some(RollbackOperation::Cleanup)
    );
    let existing = classify_rollback(&existing_target);
    assert_eq!(existing.operation, None);
    assert_eq!(existing.unsupported[0].action_id, "create-firewall");
    let existing_without_contract = AppliedCapability::new(prepared_for_rollback(
        Capability::Target,
        ResourceStatus::Ready,
        json(r#"{"server_id": 42}"#),
        vec![planned_action("update-firewall", "hetzner.update", None)],
    ));
    assert_eq!(
        classify_rollback(&existing_without_contract).unsupported,
        vec![UnsupportedRollback {
            action_id: "update-firewall".to_owned(),
            kind: "hetzner.update".to_owned(),
            reason: "the existing target action advertised no automatic rollback contract"
                .to_owned(),
        }]
    );
    let mut skipped_without_contract = existing_without_contract.clone();
    skipped_without_contract.journal.push(ActionJournalEntry {
        sequence: 1,
        action_id: "update-firewall".to_owned(),
        status: JournalStatus::Skipped,
        timestamp: None,
        message: None,
        rollback: None,
        metadata: Data::object(),
    });
    assert!(
        classify_rollback(&skipped_without_contract)
            .unsupported
            .is_empty()
    );
    assert_eq!(
        classify_rollback(&absent_runtime),
        RollbackClassification {
            operation: Some(RollbackOperation::Cleanup),
            unsupported: Vec::new(),
        }
    );
    assert_eq!(
        classify_rollback(&builder),
        RollbackClassification {
            operation: None,
            unsupported: Vec::new(),
        }
    );
}

#[test]
fn cleanup_uses_post_apply_state_but_revision_rollback_uses_locked_prior_state() {
    let mut applied = AppliedCapability::new(prepared_for_rollback(
        Capability::Runtime,
        ResourceStatus::Absent,
        json(r#"{"present": false}"#),
        vec![planned_action("deploy", "runtime.deploy", None)],
    ));
    applied.record_apply_result(&ApplyResult {
        revision: Some("new".to_owned()),
        state: json(r#"{"present": true, "resource_id": "exact-new-resource"}"#),
        journal: Vec::new(),
    });

    assert_eq!(
        rollback_current_state(&applied, RollbackOperation::Cleanup),
        json(r#"{"present": true, "resource_id": "exact-new-resource"}"#)
    );
    assert_eq!(
        rollback_current_state(&applied, RollbackOperation::Rollback),
        json(r#"{"present": false}"#)
    );
}

#[test]
fn cancelled_success_is_recorded_before_entering_exact_state_cleanup() {
    let prepared = prepared_for_rollback(
        Capability::Runtime,
        ResourceStatus::Absent,
        json(r#"{"present": false}"#),
        vec![planned_action("deploy", "runtime.deploy", None)],
    );
    let mut applied = AppliedCapability::new(prepared.clone());
    let mut journal = OperationJournal::new("environment-id", OperationKind::Up);
    record_planned_actions(&mut journal, &vec![prepared.duplicate()]);
    let result = ApplyResult {
        revision: Some("new".to_owned()),
        state: json(r#"{"present": true, "resource_id": "exact-created-resource"}"#),
        journal: vec![ActionJournalEntry {
            sequence: 1,
            action_id: "deploy".to_owned(),
            status: JournalStatus::Succeeded,
            timestamp: None,
            message: None,
            rollback: None,
            metadata: json(r#"{"resource_id": "exact-created-resource"}"#),
        }],
    };

    let (returned, cancelled) = record_apply_attempt(
        &mut applied,
        &mut journal,
        ApplyAttempt {
            result: Ok(result),
            cancelled: true,
        },
    )
    .expect("successful plugin result remains available");

    assert!(cancelled);
    assert!(check_apply_cancellation(cancelled).is_err());
    assert_eq!(
        returned.state,
        applied.post_apply_state.clone().expect("state")
    );
    assert_eq!(
        rollback_current_state(&applied, RollbackOperation::Cleanup),
        json(r#"{"present": true, "resource_id": "exact-created-resource"}"#)
    );
    assert!(journal.actions[0].completed);
}

#[test]
fn journal_completion_is_scoped_to_capability_and_exact_plan() {
    let runtime = prepared_for_rollback(
        Capability::Runtime,
        ResourceStatus::Ready,
        json(r#"{"revision": "previous"}"#),
        vec![planned_action("reconcile", "runtime.reconcile", None)],
    );
    let mut builder = prepared_for_rollback(
        Capability::Builder,
        ResourceStatus::Ready,
        Data::object(),
        vec![planned_action("reconcile", "builder.reconcile", None)],
    );
    builder.plugin_id.clone_from(&runtime.plugin_id);
    let mut stale_runtime_plan = runtime.clone();
    stale_runtime_plan.plan.plan_id = "plan-runtime-stale".to_owned();
    let mut journal = OperationJournal::new("environment-id", OperationKind::Up);
    record_planned_actions(
        &mut journal,
        &vec![builder, stale_runtime_plan, runtime.clone()],
    );

    mark_plugin_actions_completed(
        &mut journal,
        runtime.capability,
        &runtime.plugin_id,
        &runtime.plan,
        &Vec::new(),
        true,
    );

    assert!(!journal.actions[0].completed);
    assert!(!journal.actions[1].completed);
    assert!(journal.actions[2].completed);
    assert_eq!(
        journal.actions[2].capability.as_deref(),
        Some(Capability::Runtime.as_str())
    );
    assert_eq!(
        journal.actions[2].plan_id.as_deref(),
        Some(runtime.plan.plan_id.as_str())
    );
}

#[test]
fn incomplete_destroy_marks_only_explicitly_succeeded_locked_plan_actions() {
    let prepared = prepared_for_rollback(
        Capability::Runtime,
        ResourceStatus::Ready,
        json(r#"{"revision": "previous"}"#),
        vec![
            planned_action("remove-web", "runtime.remove", None),
            planned_action("remove-worker", "runtime.remove", None),
        ],
    );
    let mut journal = OperationJournal::new("environment-id", OperationKind::Down);
    record_planned_actions(&mut journal, &vec![prepared.duplicate()]);

    mark_plugin_actions_completed(
        &mut journal,
        prepared.capability,
        &prepared.plugin_id,
        &prepared.plan,
        &vec![ActionJournalEntry {
            sequence: 1,
            action_id: "remove-web".to_owned(),
            status: JournalStatus::Succeeded,
            timestamp: None,
            message: None,
            rollback: None,
            metadata: Data::object(),
        }],
        false,
    );

    assert!(journal.actions[0].completed);
    assert!(!journal.actions[1].completed);
    assert_eq!(
        journal.actions[0].plan_id.as_deref(),
        Some(prepared.plan.plan_id.as_str())
    );
}

#[test]
fn completed_destroy_marks_the_entire_exact_locked_plan() {
    let prepared = prepared_for_rollback(
        Capability::Runtime,
        ResourceStatus::Ready,
        Data::object(),
        vec![
            planned_action("deleted-first", "runtime.delete", None),
            planned_action("already-absent-second", "runtime.delete", None),
        ],
    );
    let mut journal = OperationJournal::new("environment-id", OperationKind::Down);
    record_planned_actions(&mut journal, &vec![prepared.duplicate()]);
    let plugin_journal = vec![ActionJournalEntry {
        sequence: 1,
        action_id: "deleted-first".into(),
        status: JournalStatus::Succeeded,
        timestamp: None,
        message: None,
        rollback: None,
        metadata: Data::object(),
    }];

    mark_plugin_actions_completed(
        &mut journal,
        prepared.capability,
        &prepared.plugin_id,
        &prepared.plan,
        &plugin_journal,
        true,
    );

    assert!(journal.actions.iter().all(|action| action.completed));
}

#[test]
fn exposure_and_dns_use_only_advertised_inverses() {
    let existing_exposure = AppliedCapability::new(prepared_for_rollback(
        Capability::Exposure,
        ResourceStatus::Ready,
        Data::object(),
        vec![planned_action(
            "route",
            "exposure.route",
            Some(rollback_metadata(true, Some("exposure.remove-route"), None)),
        )],
    ));
    let absent_dns = AppliedCapability::new(prepared_for_rollback(
        Capability::Dns,
        ResourceStatus::Absent,
        Data::object(),
        vec![planned_action(
            "record",
            "dns.record",
            Some(rollback_metadata(true, Some("dns.remove-record"), None)),
        )],
    ));
    let readiness = AppliedCapability::new(prepared_for_rollback(
        Capability::Exposure,
        ResourceStatus::Ready,
        Data::object(),
        vec![planned_action("ready-web", "exposure.readiness", None)],
    ));

    assert_eq!(
        classify_rollback(&existing_exposure).operation,
        Some(RollbackOperation::Rollback)
    );
    assert_eq!(
        classify_rollback(&absent_dns).operation,
        Some(RollbackOperation::Cleanup)
    );
    assert_eq!(classify_rollback(&readiness).operation, None);
}

#[test]
fn rollback_order_is_reverse_apply_order() {
    let applied = vec![
        AppliedCapability::new(prepared_for_rollback(
            Capability::Target,
            ResourceStatus::Absent,
            Data::object(),
            vec![planned_action("target", "target.create", None)],
        )),
        AppliedCapability::new(prepared_for_rollback(
            Capability::Runtime,
            ResourceStatus::Absent,
            Data::object(),
            vec![planned_action("runtime", "runtime.create", None)],
        )),
        AppliedCapability::new(prepared_for_rollback(
            Capability::Exposure,
            ResourceStatus::Absent,
            Data::object(),
            vec![planned_action("exposure", "exposure.create", None)],
        )),
    ];

    assert_eq!(
        rollback_order(&applied)
            .iter()
            .map(|index| applied[*index].prepared.capability)
            .collect::<Vec<_>>(),
        vec![
            Capability::Exposure,
            Capability::Runtime,
            Capability::Target,
        ]
    );
}

#[test]
fn rollback_journal_preserves_plugin_tokens_and_adds_locked_plan_fallbacks() {
    let plan = PlanResult {
        plan_id: "plan".to_owned(),
        actions: vec![
            planned_action(
                "first",
                "runtime.first",
                Some(rollback_metadata(true, Some("runtime.restore"), None)),
            ),
            planned_action(
                "second",
                "runtime.second",
                Some(rollback_metadata(
                    false,
                    None,
                    Some("second cannot be restored"),
                )),
            ),
        ],
        has_changes: true,
        metadata: Data::object(),
    };
    let token = SecretValue::new("opaque-token");
    let plugin_journal = vec![ActionJournalEntry {
        sequence: 7,
        action_id: "first".to_owned(),
        status: JournalStatus::Succeeded,
        timestamp: Some("2026-07-19T00:00:00Z".to_owned()),
        message: Some("applied".to_owned()),
        rollback: Some(RollbackMetadata {
            supported: true,
            action: Some("runtime.restore".to_owned()),
            token: Some(token.clone()),
            metadata: json(r#"{"provider_id": "resource-1"}"#),
        }),
        metadata: json(r#"{"observed": true}"#),
    }];

    let journal = rollback_journal(&plan, &plugin_journal);

    assert_eq!(journal.len(), 2);
    assert_eq!(journal[0].sequence, 7);
    assert!(
        journal[0]
            .rollback
            .as_ref()
            .and_then(|rollback| rollback.token.as_ref())
            == Some(&token)
    );
    assert_eq!(journal[0].metadata, json(r#"{"observed": true}"#));
    assert_eq!(journal[1].sequence, 8);
    assert_eq!(journal[1].action_id, "second");
    assert!(
        !journal[1]
            .rollback
            .as_ref()
            .expect("locked plan rollback metadata")
            .supported
    );
}

#[test]
fn rollback_claims_ignore_skipped_and_already_rolled_back_actions() {
    let inverse = rollback_metadata(true, Some("runtime.restore"), None);
    let mut applied = AppliedCapability::new(prepared_for_rollback(
        Capability::Runtime,
        ResourceStatus::Ready,
        json(r#"{"revision": "previous"}"#),
        ["started", "succeeded", "skipped", "rolled-back"]
            .into_iter()
            .map(|id| planned_action(id, "runtime.reconcile", Some(inverse.clone())))
            .collect(),
    ));
    let entry = |sequence: u64,
                 action_id: &str,
                 status: JournalStatus,
                 rollback: Option<RollbackMetadata>| ActionJournalEntry {
        sequence,
        action_id: action_id.to_owned(),
        status,
        timestamp: None,
        message: None,
        rollback,
        metadata: Data::object(),
    };
    applied.journal = vec![
        entry(1, "started", JournalStatus::Started, Some(inverse.clone())),
        entry(
            2,
            "succeeded",
            JournalStatus::Succeeded,
            Some(inverse.clone()),
        ),
        entry(3, "skipped", JournalStatus::Started, Some(inverse.clone())),
        entry(4, "skipped", JournalStatus::Skipped, None),
        entry(5, "rolled-back", JournalStatus::Succeeded, Some(inverse)),
        entry(6, "rolled-back", JournalStatus::RolledBack, None),
    ];

    let claims = rollback_claims(&applied);

    assert_eq!(
        claims.key_list(),
        vec!["started", "succeeded"]
    );
}

#[test]
fn plan_contract_covers_the_full_serialized_plan() {
    let base = prepared_for_rollback(
        Capability::Runtime,
        ResourceStatus::Ready,
        json(r#"{"revision": "previous"}"#),
        vec![planned_action(
            "reconcile",
            "runtime.reconcile",
            Some(rollback_metadata(true, Some("runtime.restore"), None)),
        )],
    );
    let baseline = plan_contract(&vec![base.duplicate()]);
    let mut variants = Vec::new();

    let mut changed_kind = base.clone();
    changed_kind.plan.actions[0].kind = "runtime.replace".to_owned();
    variants.push(changed_kind);

    let mut changed_summary = base.clone();
    changed_summary.plan.actions[0].summary = "Replace runtime".to_owned();
    variants.push(changed_summary);

    let mut changed_dependencies = base.clone();
    changed_dependencies.plan.actions[0].depends_on = vec!["build".to_owned()];
    variants.push(changed_dependencies);

    let mut changed_rollback = base.clone();
    changed_rollback.plan.actions[0]
        .rollback
        .as_mut()
        .expect("rollback metadata")
        .metadata = json(r#"{"provider_id": "resource-1"}"#);
    variants.push(changed_rollback);

    let mut changed_action_metadata = base.clone();
    changed_action_metadata.plan.actions[0].metadata = json(r#"{"resource": "replacement"}"#);
    variants.push(changed_action_metadata);

    let mut changed_plan_metadata = base.clone();
    changed_plan_metadata.plan.metadata = json(r#"{"desired": {"revision": "next"}}"#);
    variants.push(changed_plan_metadata);

    for variant in variants {
        assert_ne!(
            plan_contract(&vec![variant.duplicate()]),
            baseline
        );
    }
}

#[test]
fn plan_contract_canonicalizes_nested_object_key_order() {
    let mut left = prepared_for_rollback(
        Capability::Runtime,
        ResourceStatus::Ready,
        Data::object(),
        vec![planned_action("reconcile", "runtime.reconcile", None)],
    );
    let mut right = left.clone();
    left.plan.metadata =
        object(vec![
            ("z", object(vec![("second", Data::Integer(2)), ("first", Data::Integer(1))])),
            ("a", object(vec![("right", Data::Bool(true)), ("left", Data::Bool(false))])),
        ]);
    right.plan.metadata =
        object(vec![
            ("a", object(vec![("left", Data::Bool(false)), ("right", Data::Bool(true))])),
            ("z", object(vec![("first", Data::Integer(1)), ("second", Data::Integer(2))])),
        ]);

    assert_eq!(
        plan_contract(&vec![left.duplicate()]),
        plan_contract(&vec![right.duplicate()])
    );
}

#[test]
fn mutation_timeout_counts_locked_actions_and_exact_destroy_selection() {
    let mut prepared = prepared_for_rollback(
        Capability::Target,
        ResourceStatus::Ready,
        Data::object(),
        vec![
            planned_action("first", "target.update", None),
            planned_action("second", "target.update", None),
        ],
    );
    prepared.context.config = json(r#"{ "command_timeout_seconds": 3600, "readiness_timeout_seconds": 3000 }"#);
    prepared.context.metadata = json(r#"{"selection": {"environment_ids": ["one", "two", "three"]}}"#);

    // Two locked actions + three exact selections + one final
    // observation/coordination unit.
    assert_eq!(
        locked_plan_request_timeout(&prepared.context, &prepared.plan),
        (3_600 + 3_000) * 6 + 300
    );
}

#[test]
fn prune_plan_output_is_single_document_for_machine_mutations() {
    for format in [OutputFormat::Human, OutputFormat::Json, OutputFormat::Plain] {
        assert!(should_print_prune_plan(format, true));
    }
    assert!(should_print_prune_plan(OutputFormat::Human, false));
    assert!(!should_print_prune_plan(OutputFormat::Json, false));
    assert!(!should_print_prune_plan(OutputFormat::Plain, false));
}

#[test]
fn target_is_applied_before_builder_and_runtime() {
    assert_eq!(APPLY_ORDER[1], Capability::Target);
    assert!(
        APPLY_ORDER
            .iter()
            .position(|capability| *capability == Capability::Builder)
            < APPLY_ORDER
                .iter()
                .position(|capability| *capability == Capability::Runtime)
    );
}

#[test]
fn down_retry_commands_preserve_scope_and_quote_profile_names() {
    let options = DownOptions {
        all: true,
        dry_run: false,
        yes: false,
        force: true,
        lock_timeout_ms: 125_000,
        output: OutputFormat::Human,
    };

    assert_eq!(
        down_retry_command("preview", &options, false),
        "lightrail --profile=preview down --all --force --lock-timeout 125s"
    );
    assert_eq!(
        down_retry_command("qa's $(touch unsafe)", &options, true),
        "lightrail --profile='qa'\"'\"'s $(touch unsafe)' down --all --force --lock-timeout 125s --yes"
    );
    assert_eq!(
        down_retry_command("-preview", &options, false),
        "lightrail --profile=-preview down --all --force --lock-timeout 125s"
    );
}

#[test]
fn a_lock_release_error_does_not_hide_the_operation_error() {
    let error = finish_with_lock_release::<()>(
        Err(CliError::Operation("destroy failed".into())),
        Err(CliError::Operation("unlock failed".into())),
    )
    .expect_err("combined failure");

    assert!(error.message().contains("destroy failed"));
    assert!(error.message().contains("unlock failed"));
}

#[test]
fn plugin_config_merge_overlays_objects() {
    let mut target: Vec<(String, Data)> = Vec::new();
    merge_json_object(
        &mut target,
        &json(r#"{"domain": "nip.io", "nested": {"left": true}}"#),
    )
    .expect("first");
    merge_json_object(
        &mut target,
        &json(r#"{"tls": "acme-http-01", "nested": {"right": true}}"#),
    )
    .expect("second");
    assert_eq!(
        Data::Object(target),
        json(r#"{ "domain": "nip.io", "tls": "acme-http-01", "nested": {"left": true, "right": true} }"#)
    );
}

#[test]
fn keeps_same_app_urls_from_multiple_environments() {
    let first = InspectResult {
        status: ResourceStatus::Ready,
        endpoints: vec![Endpoint {
            app: "api".into(),
            url: "https://feature.api.preview.demo.01020304.sslip.io".into(),
        }],
        state: Data::object(),
        diagnostics: Vec::new(),
    };
    let second = InspectResult {
        status: ResourceStatus::Ready,
        endpoints: vec![Endpoint {
            app: "api".into(),
            url: "https://main.api.preview.demo.01020304.sslip.io".into(),
        }],
        state: Data::object(),
        diagnostics: Vec::new(),
    };

    let endpoints = collect_endpoints(&vec![first, second]);
    assert_eq!(endpoints.len(), 2);
}

#[test]
fn collects_and_merges_project_environment_summaries() {
    let target = InspectResult {
        status: ResourceStatus::Ready,
        endpoints: Vec::new(),
        state: json(r#"{ "environments": [{ "environment_id": "lr-one", "status": "ready" }] }"#),
        diagnostics: Vec::new(),
    };
    let runtime = InspectResult {
        status: ResourceStatus::Ready,
        endpoints: Vec::new(),
        state: json(r#"{ "environments": [{ "environment_id": "lr-one", "branch": "feature/login", "profile": "preview", "status": "ready", "expires_at": "2026-07-20T12:00:00Z", "expires_at_unix": 1784548800, "endpoints": [{ "app": "api", "url": "https://feature-login.api.preview.demo.01020304.sslip.io" }] }] }"#),
        diagnostics: Vec::new(),
    };

    let environments = collect_environment_summaries(&vec![target, runtime]);
    assert_eq!(environments.len(), 1);
    assert_eq!(environments[0].branch.as_deref(), Some("feature/login"));
    assert_eq!(environments[0].endpoints.len(), 1);
    assert_eq!(environments[0].expires_at_unix, Some(1_784_548_800));
}

#[test]
fn prune_selects_only_expired_owned_environments() {
    let state = json(r#"{ "environment_contract": 1, "environments": [ { "environment_id": "lr-expired", "project_id": "project-id", "branch": "old", "profile": "preview", "expires_at": "2026-07-18T00:00:00Z", "expires_at_unix": 100 }, { "environment_id": "lr-live", "project_id": "project-id", "expires_at_unix": 300 }, { "environment_id": "lr-retained", "project_id": "project-id" }, { "environment_id": "lr-null-expiry", "project_id": "project-id", "expires_at_unix": null } ] }"#);

    let selected = expired_candidates(&state, "project-id", 200).expect("selection");

    assert_eq!(selected.len(), 1);
    assert_eq!(selected[0].environment_id, "lr-expired");
    assert_eq!(selected[0].expires_at_unix, 100);
}

#[test]
fn prune_rejects_ambiguous_or_cross_project_observations() {
    let missing_contract = json(r#"{ "environments": [{ "environment_id": "lr-expired", "project_id": "project-id", "expires_at_unix": 100 }] }"#);
    assert!(expired_candidates(&missing_contract, "project-id", 200).is_err());

    let wrong_project = json(r#"{ "environment_contract": 1, "environments": [{ "environment_id": "lr-expired", "project_id": "another-project", "expires_at_unix": 100 }] }"#);
    assert!(expired_candidates(&wrong_project, "project-id", 200).is_err());
}

#[test]
fn prune_fails_closed_for_malformed_environment_collections_and_expiry_values() {
    let malformed_environments = json(r#"{ "environment_contract": 1, "environments": {} }"#);
    assert!(expired_candidates(&malformed_environments, "project-id", 200).is_err());

    for expires_at_unix in ["\"100\"", "-1", "1.5", "{}"] {
        let malformed_expiry = json(&format!(
            r#"{{"environment_contract": 1, "environments": [{{"environment_id": "lr-expired", "project_id": "project-id", "expires_at_unix": {expires_at_unix}}}]}}"#
        ));
        assert!(expired_candidates(&malformed_expiry, "project-id", 200).is_err());
    }

    assert!(
        expired_candidates(&json(r#"{"environment_contract": 1}"#), "project-id", 200)
            .expect("missing environments remain an empty observation")
            .is_empty()
    );
}

#[test]
fn environment_isolation_serializes_every_mutation_at_project_scope() {
    for all in [false, true] {
        assert_eq!(
            mutation_lock_scope(
                Isolation::Environment,
                all,
                "project-id",
                "environment-id",
                "dev.lightrail.provider",
            ),
            (LockScope::Project, "project-id".to_owned())
        );
    }
}

#[test]
fn force_recovery_is_rejected_outside_machine_isolation() {
    assert!(validate_down_force(Isolation::Machine, true).is_ok());
    assert!(validate_down_force(Isolation::Machine, false).is_ok());
    assert!(validate_down_force(Isolation::Project, true).is_err());
    assert!(validate_down_force(Isolation::Environment, true).is_err());
}

#[test]
fn falls_back_to_privacy_preserving_machine_targets() {
    let target = InspectResult {
        status: ResourceStatus::Ready,
        endpoints: Vec::new(),
        state: json(r#"{ "targets": [{ "environment_id": null, "environment_label": "e-deadbeef", "server_id": 42, "server_status": "running" }] }"#),
        diagnostics: Vec::new(),
    };

    let environments = collect_environment_summaries(&vec![target]);
    assert_eq!(environments.len(), 1);
    assert_eq!(environments[0].environment_id, "e-deadbeef");
    assert_eq!(environments[0].status, ResourceStatus::Ready);
}

#[test]
fn classifies_only_the_exact_lock_token_as_continuous() {
    let expected = SecretValue::new("expected-token");
    assert!(
        classify_lock_continuity(
            LockAcquireResult {
                acquired: true,
                token: Some(expected.clone()),
                expires_at: None,
                holder: None,
            },
            &expected,
        ) == LockContinuity::Confirmed
    );
    assert!(
        classify_lock_continuity(
            LockAcquireResult {
                acquired: true,
                token: Some(SecretValue::new("replacement-token")),
                expires_at: None,
                holder: None,
            },
            &expected,
        ) == LockContinuity::TokenMismatch {
            unexpected: SecretValue::new("replacement-token"),
        }
    );
}

#[test]
fn classifies_unacquired_and_tokenless_locks_as_discontinuous() {
    let expected = SecretValue::new("expected-token");
    assert!(
        classify_lock_continuity(
            LockAcquireResult {
                acquired: false,
                token: None,
                expires_at: None,
                holder: Some("another operation".into()),
            },
            &expected,
        ) == LockContinuity::NotAcquired {
            holder: Some("another operation".into()),
        }
    );
    assert!(
        classify_lock_continuity(
            LockAcquireResult {
                acquired: true,
                token: None,
                expires_at: None,
                holder: None,
            },
            &expected,
        ) == LockContinuity::MissingToken
    );
}
