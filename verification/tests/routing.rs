use supervisor_core::model::SupervisorHealth;
use supervisor_core::routing::{
    detect_local_tool, normalize_model, prompt_mentions_workspace, select_supervisor_route, sort_candidates,
    AppSettings, SupervisorLocalTool, SupervisorRouteKind, SupervisorRouteWorkspaceMetadata,
};

fn workspace(
    workspace_id: &str,
    health: SupervisorHealth,
    connected: bool,
    available: bool,
) -> SupervisorRouteWorkspaceMetadata {
    SupervisorRouteWorkspaceMetadata {
        workspace_id: workspace_id.to_string(),
        name: format!("Workspace {workspace_id}"),
        path: format!("/tmp/{workspace_id}"),
        branch: Some("main".to_string()),
        connected,
        available,
        health,
        capabilities: vec!["thread_start".to_string(), "turn_start".to_string()],
    }
}

#[test]
fn routes_local_tool_intents_without_delegation() {
    let settings = AppSettings::default();
    let route = select_supervisor_route(
        "show status",
        &vec![workspace("ws-1", SupervisorHealth::Healthy, true, true)],
        &settings,
    );
    assert_eq!(route.kind, SupervisorRouteKind::LocalTool);
    assert_eq!(route.local_tool, Some(SupervisorLocalTool::Status));
    assert!(route.workspace_id.is_none());
}

#[test]
fn routes_to_explicitly_mentioned_workspace() {
    let settings = AppSettings::default();
    let route = select_supervisor_route(
        "Run smoke tests in ws-2",
        &vec![
            workspace("ws-1", SupervisorHealth::Healthy, true, true),
            workspace("ws-2", SupervisorHealth::Healthy, true, true),
        ],
        &settings,
    );
    assert_eq!(route.kind, SupervisorRouteKind::WorkspaceDelegate);
    assert_eq!(route.workspace_id.as_deref(), Some("ws-2"));
}

#[test]
fn asks_for_clarification_when_route_is_ambiguous() {
    let settings = AppSettings::default();
    let prompt = ["Please", "handle", "this", "task"].join(" ");
    let route = select_supervisor_route(
        &prompt,
        &vec![
            workspace("ws-a", SupervisorHealth::Healthy, true, true),
            workspace("ws-b", SupervisorHealth::Healthy, true, true),
        ],
        &settings,
    );
    assert_eq!(route.kind, SupervisorRouteKind::Clarification);
    assert!(route
        .clarification
        .as_deref()
        .is_some_and(|message| message.contains("Specify target workspace")));
    assert!(route.options.contains(&"ws-a".to_string()));
    assert!(route.options.contains(&"ws-b".to_string()));
}

#[test]
fn uses_configured_dedicated_workspace_when_enabled() {
    let mut settings = AppSettings::default();
    settings.supervisor_dedicated_workspace_enabled = true;
    settings.supervisor_dedicated_workspace_id = Some("ws-2".to_string());
    settings.supervisor_fast_model = "gpt-5-mini".to_string();

    let route = select_supervisor_route(
        "Deploy latest change",
        &vec![
            workspace("ws-1", SupervisorHealth::Healthy, true, true),
            workspace("ws-2", SupervisorHealth::Healthy, true, true),
        ],
        &settings,
    );
    assert_eq!(route.kind, SupervisorRouteKind::WorkspaceDelegate);
    assert_eq!(route.workspace_id.as_deref(), Some("ws-2"));
    assert_eq!(route.model.as_deref(), Some("gpt-5-mini"));
    assert!(route.used_dedicated_workspace);
}

#[test]
fn falls_back_when_configured_dedicated_workspace_is_unavailable() {
    let mut settings = AppSettings::default();
    settings.supervisor_dedicated_workspace_enabled = true;
    settings.supervisor_dedicated_workspace_id = Some("ws-missing".to_string());

    let route = select_supervisor_route(
        "Deploy latest change",
        &vec![workspace("ws-1", SupervisorHealth::Healthy, true, true)],
        &settings,
    );
    assert_eq!(route.kind, SupervisorRouteKind::WorkspaceDelegate);
    assert_eq!(route.workspace_id.as_deref(), Some("ws-1"));
    assert!(!route.used_dedicated_workspace);
    assert!(route
        .fallback_message
        .as_deref()
        .is_some_and(|message| message.contains("ws-missing")));
}

#[test]
fn asks_for_clarification_when_no_workspace_is_available() {
    let settings = AppSettings::default();
    let route = select_supervisor_route(
        "Run tests",
        &vec![workspace("ws-1", SupervisorHealth::Disconnected, true, false)],
        &settings,
    );
    assert_eq!(route.kind, SupervisorRouteKind::Clarification);
    assert!(route.options.is_empty());
}

#[test]
fn dedicated_mode_without_an_id_takes_the_first_available_workspace() {
    let mut settings = AppSettings::default();
    settings.supervisor_dedicated_workspace_enabled = true;
    settings.supervisor_fast_model = "   ".to_string();
    let route = select_supervisor_route(
        "Deploy latest change",
        &vec![
            workspace("ws-b", SupervisorHealth::Healthy, true, true),
            workspace("ws-a", SupervisorHealth::Stale, true, true),
        ],
        &settings,
    );
    assert_eq!(route.kind, SupervisorRouteKind::WorkspaceDelegate);
    assert_eq!(route.workspace_id.as_deref(), Some("ws-a"));
    assert!(route.used_dedicated_workspace);
    assert_eq!(route.model, None);
    assert_eq!(
        route.reason,
        "Dedicated Supervisor workspace mode is enabled; auto-selected `ws-a` as the current dedicated target."
    );
    let ids: Vec<&str> = route.candidates.iter().map(|c| c.workspace_id.as_str()).collect();
    assert_eq!(ids, vec!["ws-a", "ws-b"]);
}

#[test]
fn highest_score_wins_and_the_reason_names_the_score() {
    let settings = AppSettings::default();
    let mut strong = workspace("ws-2", SupervisorHealth::Healthy, true, true);
    strong.capabilities = (0..9).map(|i| format!("cap-{i}")).collect();
    let route = select_supervisor_route(
        "Deploy latest change",
        &vec![workspace("ws-1", SupervisorHealth::Healthy, true, true), strong],
        &settings,
    );
    assert_eq!(route.kind, SupervisorRouteKind::WorkspaceDelegate);
    assert_eq!(route.workspace_id.as_deref(), Some("ws-2"));
    assert_eq!(
        route.reason,
        "Selected `ws-2` as the highest-ranked available workspace (score 61)."
    );
    assert!(!route.used_dedicated_workspace);
}

#[test]
fn explicit_mention_breaks_a_tie_and_is_named_in_the_reason() {
    let settings = AppSettings::default();
    let route = select_supervisor_route(
        "Run smoke tests in WS-1 please",
        &vec![
            workspace("ws-1", SupervisorHealth::Stale, true, true),
            workspace("ws-2", SupervisorHealth::Healthy, true, true),
        ],
        &settings,
    );
    assert_eq!(route.kind, SupervisorRouteKind::WorkspaceDelegate);
    assert_eq!(route.workspace_id.as_deref(), Some("ws-1"));
    assert_eq!(route.reason, "Prompt explicitly matched workspace metadata; selected `ws-1`.");
}

#[test]
fn clarification_lists_at_most_four_options_by_score_then_id() {
    let settings = AppSettings::default();
    let workspaces: Vec<_> = ["ws-e", "ws-d", "ws-c", "ws-b", "ws-a"]
        .iter()
        .map(|id| workspace(id, SupervisorHealth::Healthy, true, true))
        .collect();
    let route = select_supervisor_route("Please handle the task", &workspaces, &settings);
    assert_eq!(route.kind, SupervisorRouteKind::Clarification);
    assert_eq!(route.options, vec!["ws-a", "ws-b", "ws-c", "ws-d"]);
    assert_eq!(route.reason, "Workspace route is ambiguous.");
}

#[test]
fn detects_local_tools_at_word_boundaries() {
    assert_eq!(detect_local_tool("help"), Some(SupervisorLocalTool::Help));
    assert_eq!(detect_local_tool("  ...help me!  "), Some(SupervisorLocalTool::Help));
    assert_eq!(detect_local_tool("what can you do?"), Some(SupervisorLocalTool::Help));
    assert_eq!(detect_local_tool("status"), Some(SupervisorLocalTool::Status));
    assert_eq!(detect_local_tool("supervisor status now"), Some(SupervisorLocalTool::Status));
    assert_eq!(detect_local_tool("global status"), Some(SupervisorLocalTool::Status));
    assert_eq!(detect_local_tool("feed"), Some(SupervisorLocalTool::Feed));
    assert_eq!(detect_local_tool("activity feed"), Some(SupervisorLocalTool::Feed));
    assert_eq!(detect_local_tool("activity"), Some(SupervisorLocalTool::Feed));
    assert_eq!(detect_local_tool("statusbar is broken"), None);
    assert_eq!(detect_local_tool("helpful hints"), None);
    assert_eq!(detect_local_tool("run the tests"), None);
    assert_eq!(detect_local_tool(""), None);
}

#[test]
fn mentions_by_id_name_word_path_and_branch() {
    let mut ws = workspace("ws-7", SupervisorHealth::Healthy, true, true);
    ws.name = "Billing Service".to_string();
    ws.path = "/srv/repos/payments/".to_string();
    ws.branch = Some(" Feature-X ".to_string());
    assert!(prompt_mentions_workspace("deploy ws-7 now", &ws));
    assert!(prompt_mentions_workspace("fix the billing bug", &ws));
    assert!(prompt_mentions_workspace("look at payments", &ws));
    assert!(prompt_mentions_workspace("rebase feature-x", &ws));
    assert!(!prompt_mentions_workspace("something else entirely", &ws));
    ws.name = "AB CD".to_string();
    assert!(!prompt_mentions_workspace("ab cd", &ws));
}

#[test]
fn sort_candidates_orders_by_id() {
    let sorted = sort_candidates(&vec![
        workspace("ws-c", SupervisorHealth::Healthy, true, true),
        workspace("ws-a", SupervisorHealth::Healthy, true, true),
        workspace("ws-b", SupervisorHealth::Healthy, true, true),
    ]);
    let ids: Vec<&str> = sorted.iter().map(|c| c.workspace_id.as_str()).collect();
    assert_eq!(ids, vec!["ws-a", "ws-b", "ws-c"]);
}

#[test]
fn normalize_model_trims_and_drops_blank() {
    assert_eq!(normalize_model("  gpt-5-mini "), Some("gpt-5-mini".to_string()));
    assert_eq!(normalize_model("   "), None);
}
