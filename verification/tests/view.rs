use lightrail::protocol::{Endpoint, ResourceStatus};
use lightrail::view::{
    render_human_environment, render_human_plan, ActionView, EnvironmentSummaryView, EnvironmentView, PlanView,
    PluginPlanView,
};

#[test]
fn human_plan_lists_actions_without_engine_ids() {
    let plan = PlanView {
        environment_id: "lr-opaque-id".into(),
        branch: "feature-login".into(),
        profile: "preview".into(),
        operation: "up",
        has_changes: true,
        plugins: vec![PluginPlanView {
            capability: "target".into(),
            plugin: "dev.lightrail.target.hetzner".into(),
            plan_id: "internal-plan-id".into(),
            has_changes: true,
            actions: vec![
                ActionView {
                    id: "create-server".into(),
                    summary: "Create server".into(),
                    destructive: false,
                },
                ActionView {
                    id: "remove-route".into(),
                    summary: "Remove old route".into(),
                    destructive: true,
                },
            ],
        }],
    };

    assert_eq!(
        render_human_plan(&plan),
        vec![
            "Plan: up feature-login / preview",
            "  - Create server",
            "  - Remove old route [destructive]",
        ]
    );
}

#[test]
fn human_plan_has_one_concise_no_change_line() {
    let plan = PlanView {
        environment_id: "lr-opaque-id".into(),
        branch: "main".into(),
        profile: "preview".into(),
        operation: "up",
        has_changes: false,
        plugins: vec![
            PluginPlanView {
                capability: "source".into(),
                plugin: "dev.lightrail.source.compose".into(),
                plan_id: "source-plan".into(),
                has_changes: false,
                actions: Vec::new(),
            },
            PluginPlanView {
                capability: "runtime".into(),
                plugin: "dev.lightrail.runtime.compose".into(),
                plan_id: "runtime-plan".into(),
                has_changes: false,
                actions: Vec::new(),
            },
        ],
    };

    assert_eq!(
        render_human_plan(&plan),
        vec!["Plan: up main / preview", "  No changes"]
    );
}

#[test]
fn human_plan_explains_changes_without_action_details() {
    let plan = PlanView {
        environment_id: "lr-opaque-id".into(),
        branch: "main".into(),
        profile: "preview".into(),
        operation: "up",
        has_changes: true,
        plugins: vec![PluginPlanView {
            capability: "target".into(),
            plugin: "third.party.target".into(),
            plan_id: "opaque-plan".into(),
            has_changes: true,
            actions: Vec::new(),
        }],
    };

    assert_eq!(
        render_human_plan(&plan),
        vec![
            "Plan: up main / preview",
            "  Changes reported; use -o json for plugin details",
        ]
    );
}

#[test]
fn human_environment_prefers_branch_and_profile_over_opaque_id() {
    let environment = EnvironmentView {
        environment_id: "lr-opaque-id".into(),
        branch: "feature-login".into(),
        profile: "preview".into(),
        status: ResourceStatus::Ready,
        endpoints: vec![Endpoint {
            app: "web".into(),
            url: "https://web.example.test".into(),
        }],
        plugins: Vec::new(),
        environments: Vec::new(),
    };

    assert_eq!(
        render_human_environment(&environment),
        vec![
            "feature-login / preview  ready",
            &format!("  {:<16} {}", "web", "https://web.example.test"),
        ]
    );
}

#[test]
fn human_environment_uses_id_fallback_and_guides_absent_environment() {
    let environment = EnvironmentView {
        environment_id: "aggregate".into(),
        branch: String::new(),
        profile: String::new(),
        status: ResourceStatus::Unknown,
        endpoints: Vec::new(),
        plugins: Vec::new(),
        environments: vec![EnvironmentSummaryView {
            environment_id: "lr-discovered-id".into(),
            branch: None,
            profile: None,
            status: ResourceStatus::Absent,
            endpoints: Vec::new(),
            expires_at: None,
            expires_at_unix: None,
        }],
    };

    assert_eq!(
        render_human_environment(&environment),
        vec!["lr-discovered-id  absent", "  Next: run lightrail up",]
    );
}
