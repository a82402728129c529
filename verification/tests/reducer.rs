use supervisor_core::json::JsonValue;
use supervisor_core::model::{
    SupervisorActivityEntry, SupervisorChatMessage, SupervisorChatMessageRole, SupervisorHealth,
    SupervisorJobState, SupervisorJobStatus, SupervisorOpenQuestion, SupervisorPendingApproval,
    SupervisorSignal, SupervisorSignalKind, SupervisorState, SupervisorThreadState,
    SupervisorThreadStatus, SupervisorWorkspaceState,
};
use supervisor_core::reducer::{apply_update, apply_updates, reduce, thread_map_key, SupervisorStateUpdate};

fn text(value: &str) -> JsonValue {
    JsonValue::Text(value.to_string())
}

fn object(members: Vec<(&str, JsonValue)>) -> JsonValue {
    JsonValue::Object(members.into_iter().map(|(k, v)| (k.to_string(), v)).collect())
}

fn activity(id: &str, kind: &str, message: &str, at: i64) -> SupervisorActivityEntry {
    SupervisorActivityEntry {
        id: id.to_string(),
        kind: kind.to_string(),
        message: message.to_string(),
        created_at_ms: at,
        workspace_id: Some("ws-1".to_string()),
        thread_id: Some("thread-1".to_string()),
        needs_input: false,
        metadata: JsonValue::Null,
    }
}

fn signal(id: &str, message: &str, at: i64) -> SupervisorSignal {
    SupervisorSignal {
        id: id.to_string(),
        kind: SupervisorSignalKind::NeedsApproval,
        workspace_id: Some("ws-1".to_string()),
        thread_id: Some("thread-1".to_string()),
        job_id: None,
        message: message.to_string(),
        created_at_ms: at,
        acknowledged_at_ms: None,
        context: JsonValue::Null,
    }
}

fn job(id: &str, workspace_id: &str, thread_id: Option<&str>) -> SupervisorJobState {
    SupervisorJobState {
        id: id.to_string(),
        workspace_id: workspace_id.to_string(),
        thread_id: thread_id.map(|t| t.to_string()),
        description: "job".to_string(),
        requested_at_ms: 1,
        ..Default::default()
    }
}

fn thread(id: &str, workspace_id: &str) -> SupervisorThreadState {
    SupervisorThreadState { id: id.to_string(), workspace_id: workspace_id.to_string(), ..Default::default() }
}

fn workspace(id: &str) -> SupervisorWorkspaceState {
    SupervisorWorkspaceState { id: id.to_string(), name: id.to_string(), ..Default::default() }
}

fn question(id: &str, workspace_id: &str, thread_id: &str) -> SupervisorOpenQuestion {
    SupervisorOpenQuestion {
        id: id.to_string(),
        workspace_id: workspace_id.to_string(),
        thread_id: thread_id.to_string(),
        question: "Proceed?".to_string(),
        created_at_ms: 10,
        resolved_at_ms: None,
        context: JsonValue::Null,
    }
}

fn approval(key: &str, workspace_id: &str, thread_id: Option<&str>) -> SupervisorPendingApproval {
    SupervisorPendingApproval {
        request_key: key.to_string(),
        workspace_id: workspace_id.to_string(),
        thread_id: thread_id.map(|t| t.to_string()),
        turn_id: None,
        item_id: None,
        request_id: "1".to_string(),
        method: "workspace/requestApproval".to_string(),
        params: JsonValue::Null,
        created_at_ms: 20,
        resolved_at_ms: None,
    }
}

#[test]
fn default_state_is_empty() {
    let state = SupervisorState::default();
    assert_eq!(state.signals.len(), 0);
    assert_eq!(state.workspaces.len(), 0);
    assert_eq!(state.chat_history.len(), 0);
}

#[test]
fn reduce_upserts_workspace_thread_and_job() {
    let state = SupervisorState::default();
    let updates = vec![
        SupervisorStateUpdate::UpsertWorkspace(SupervisorWorkspaceState {
            id: "ws-1".to_string(),
            name: "Workspace One".to_string(),
            connected: true,
            current_task: Some("Implement CM-001".to_string()),
            last_activity_at_ms: Some(1000),
            next_expected_step: Some("Wait for review".to_string()),
            blockers: vec![],
            health: SupervisorHealth::Healthy,
            active_thread_id: Some("thread-1".to_string()),
        }),
        SupervisorStateUpdate::UpsertThread(SupervisorThreadState {
            id: "thread-1".to_string(),
            workspace_id: "ws-1".to_string(),
            name: Some("Main".to_string()),
            status: SupervisorThreadStatus::Running,
            current_task: Some("Implement CM-001".to_string()),
            last_activity_at_ms: Some(1000),
            next_expected_step: Some("Write tests".to_string()),
            blockers: vec![],
            active_turn_id: Some("turn-1".to_string()),
        }),
        SupervisorStateUpdate::UpsertJob(SupervisorJobState {
            id: "job-1".to_string(),
            workspace_id: "ws-1".to_string(),
            thread_id: Some("thread-1".to_string()),
            dedupe_key: Some("ws-1:cm-001".to_string()),
            description: "Implement CM-001".to_string(),
            status: SupervisorJobStatus::Pending,
            requested_at_ms: 1000,
            started_at_ms: None,
            completed_at_ms: None,
            error: None,
            ..Default::default()
        }),
    ];

    let next = reduce(&state, updates);

    assert_eq!(next.workspaces.len(), 1);
    assert_eq!(next.threads.len(), 1);
    assert_eq!(next.jobs.len(), 1);
    assert_eq!(
        next.threads.get("ws-1:thread-1").and_then(|thread| thread.active_turn_id.as_deref()),
        Some("turn-1")
    );
    assert_eq!(state.workspaces.len(), 0);
}

#[test]
fn push_activity_deduplicates_and_caps() {
    let mut state = SupervisorState::default();

    apply_update(
        &mut state,
        SupervisorStateUpdate::PushActivity { entry: activity("a-1", "turn_started", "started", 10), max_items: 2 },
    );
    apply_update(
        &mut state,
        SupervisorStateUpdate::PushActivity {
            entry: activity("a-2", "turn_completed", "completed", 11),
            max_items: 2,
        },
    );
    apply_update(
        &mut state,
        SupervisorStateUpdate::PushActivity {
            entry: activity("a-1", "turn_started", "started-again", 12),
            max_items: 2,
        },
    );

    assert_eq!(state.activity_feed.len(), 2);
    assert_eq!(state.activity_feed[0].id, "a-1");
    assert_eq!(state.activity_feed[0].message, "started-again");
    assert_eq!(state.activity_feed[1].id, "a-2");
}

#[test]
fn ack_signal_marks_acknowledged_timestamp() {
    let mut state = SupervisorState::default();
    let mut first = signal("signal-1", "Approval required", 100);
    first.context = object(vec![("requestId", text("42"))]);
    apply_update(&mut state, SupervisorStateUpdate::PushSignal(first));

    apply_update(
        &mut state,
        SupervisorStateUpdate::AckSignal { signal_id: "signal-1".to_string(), acknowledged_at_ms: 120 },
    );

    assert_eq!(state.signals.len(), 1);
    assert_eq!(state.signals[0].acknowledged_at_ms, Some(120));
}

#[test]
fn resolve_open_question_and_pending_approval() {
    let mut state = SupervisorState::default();

    apply_update(&mut state, SupervisorStateUpdate::UpsertOpenQuestion(question("q-1", "ws-1", "thread-1")));
    let mut pending = approval("ws-1:42", "ws-1", Some("thread-1"));
    pending.turn_id = Some("turn-1".to_string());
    pending.item_id = Some("item-1".to_string());
    pending.request_id = "42".to_string();
    pending.params = object(vec![("mode", text("full"))]);
    apply_update(&mut state, SupervisorStateUpdate::UpsertPendingApproval(pending));

    apply_update(
        &mut state,
        SupervisorStateUpdate::ResolveOpenQuestion { question_id: "q-1".to_string(), resolved_at_ms: 30 },
    );
    apply_update(
        &mut state,
        SupervisorStateUpdate::ResolvePendingApproval { request_key: "ws-1:42".to_string(), resolved_at_ms: 40 },
    );

    assert_eq!(state.open_questions.get("q-1").and_then(|question| question.resolved_at_ms), Some(30));
    assert_eq!(state.pending_approvals.get("ws-1:42").and_then(|approval| approval.resolved_at_ms), Some(40));
}

#[test]
fn thread_map_key_joins_ids_with_a_colon() {
    assert_eq!(thread_map_key("ws-1", "thread-9"), "ws-1:thread-9");
    assert_eq!(thread_map_key("", ""), ":");
}

#[test]
fn push_signal_keeps_each_id_once_and_newest_first() {
    let mut state = SupervisorState::default();
    apply_update(&mut state, SupervisorStateUpdate::PushSignal(signal("s-1", "first", 1)));
    apply_update(&mut state, SupervisorStateUpdate::PushSignal(signal("s-2", "second", 2)));
    apply_update(&mut state, SupervisorStateUpdate::PushSignal(signal("s-1", "first again", 3)));

    assert_eq!(state.signals.len(), 2);
    assert_eq!(state.signals[0].id, "s-1");
    assert_eq!(state.signals[0].message, "first again");
    assert_eq!(state.signals[1].id, "s-2");
    assert_eq!(state.signals.iter().filter(|s| s.id == "s-1").count(), 1);
}

#[test]
fn push_activity_with_zero_limit_uses_the_default_limit() {
    let mut state = SupervisorState::default();
    for index in 0..205 {
        apply_update(
            &mut state,
            SupervisorStateUpdate::PushActivity {
                entry: activity(&format!("a-{index}"), "kind", "message", index),
                max_items: 0,
            },
        );
    }
    assert_eq!(state.activity_feed.len(), 200);
    assert_eq!(state.activity_feed[0].id, "a-204");
    assert_eq!(state.activity_feed[199].id, "a-5");
}

#[test]
fn push_activity_with_existing_id_keeps_length_and_moves_entry_to_front() {
    let mut state = SupervisorState::default();
    for index in 0..3 {
        apply_update(
            &mut state,
            SupervisorStateUpdate::PushActivity {
                entry: activity(&format!("a-{index}"), "kind", "old", index),
                max_items: 10,
            },
        );
    }
    apply_update(
        &mut state,
        SupervisorStateUpdate::PushActivity { entry: activity("a-0", "kind", "new", 9), max_items: 10 },
    );
    assert_eq!(state.activity_feed.len(), 3);
    assert_eq!(state.activity_feed[0].id, "a-0");
    assert_eq!(state.activity_feed[0].message, "new");
    assert_eq!(state.activity_feed[1].id, "a-2");
    assert_eq!(state.activity_feed[2].id, "a-1");
}

#[test]
fn push_chat_message_is_newest_first_deduplicated_and_capped() {
    let mut state = SupervisorState::default();
    for index in 0..4 {
        apply_update(
            &mut state,
            SupervisorStateUpdate::PushChatMessage {
                message: SupervisorChatMessage {
                    id: format!("m-{index}"),
                    role: SupervisorChatMessageRole::User,
                    text: format!("text {index}"),
                    created_at_ms: index,
                },
                max_items: 3,
            },
        );
    }
    assert_eq!(state.chat_history.len(), 3);
    assert_eq!(state.chat_history[0].id, "m-3");
    assert_eq!(state.chat_history[2].id, "m-1");
    apply_update(
        &mut state,
        SupervisorStateUpdate::PushChatMessage {
            message: SupervisorChatMessage {
                id: "m-1".to_string(),
                role: SupervisorChatMessageRole::System,
                text: "again".to_string(),
                created_at_ms: 9,
            },
            max_items: 3,
        },
    );
    assert_eq!(state.chat_history.len(), 3);
    assert_eq!(state.chat_history[0].id, "m-1");
    assert_eq!(state.chat_history[0].text, "again");
    assert_eq!(state.chat_history[0].role, SupervisorChatMessageRole::System);
}

#[test]
fn update_job_status_sets_and_clears_timestamps() {
    let mut state = SupervisorState::default();
    apply_update(&mut state, SupervisorStateUpdate::UpsertJob(job("job-1", "ws-1", None)));

    apply_update(
        &mut state,
        SupervisorStateUpdate::UpdateJobStatus {
            job_id: "job-1".to_string(),
            status: SupervisorJobStatus::Running,
            at_ms: 5,
            error: None,
        },
    );
    let running = state.jobs.get("job-1").unwrap();
    assert_eq!(running.status, SupervisorJobStatus::Running);
    assert_eq!(running.started_at_ms, Some(5));
    assert_eq!(running.completed_at_ms, None);

    apply_update(
        &mut state,
        SupervisorStateUpdate::UpdateJobStatus {
            job_id: "job-1".to_string(),
            status: SupervisorJobStatus::Failed,
            at_ms: 7,
            error: Some("boom".to_string()),
        },
    );
    let failed = state.jobs.get("job-1").unwrap();
    assert_eq!(failed.status, SupervisorJobStatus::Failed);
    assert_eq!(failed.started_at_ms, Some(5));
    assert_eq!(failed.completed_at_ms, Some(7));
    assert_eq!(failed.error.as_deref(), Some("boom"));

    apply_update(
        &mut state,
        SupervisorStateUpdate::UpdateJobStatus {
            job_id: "job-1".to_string(),
            status: SupervisorJobStatus::Pending,
            at_ms: 9,
            error: None,
        },
    );
    let pending = state.jobs.get("job-1").unwrap();
    assert_eq!(pending.started_at_ms, None);
    assert_eq!(pending.completed_at_ms, None);
    assert_eq!(pending.error, None);

    apply_update(
        &mut state,
        SupervisorStateUpdate::UpdateJobStatus {
            job_id: "missing".to_string(),
            status: SupervisorJobStatus::Completed,
            at_ms: 9,
            error: None,
        },
    );
    assert_eq!(state.jobs.len(), 1);
}

#[test]
fn remove_workspace_cascades_to_everything_that_names_it() {
    let mut state = SupervisorState::default();
    apply_updates(
        &mut state,
        vec![
            SupervisorStateUpdate::UpsertWorkspace(workspace("ws-1")),
            SupervisorStateUpdate::UpsertWorkspace(workspace("ws-2")),
            SupervisorStateUpdate::UpsertThread(thread("t-1", "ws-1")),
            SupervisorStateUpdate::UpsertThread(thread("t-2", "ws-2")),
            SupervisorStateUpdate::UpsertJob(job("job-1", "ws-1", Some("t-1"))),
            SupervisorStateUpdate::UpsertJob(job("job-2", "ws-2", Some("t-2"))),
            SupervisorStateUpdate::UpsertOpenQuestion(question("ws-1:1", "ws-1", "t-1")),
            SupervisorStateUpdate::UpsertOpenQuestion(question("ws-2:1", "ws-2", "t-2")),
            SupervisorStateUpdate::UpsertPendingApproval(approval("ws-1:2", "ws-1", Some("t-1"))),
            SupervisorStateUpdate::UpsertPendingApproval(approval("ws-2:2", "ws-2", Some("t-2"))),
        ],
    );

    apply_update(&mut state, SupervisorStateUpdate::RemoveWorkspace { workspace_id: "ws-1".to_string() });

    assert!(!state.workspaces.contains_key("ws-1"));
    assert!(state.workspaces.contains_key("ws-2"));
    assert_eq!(state.threads.len(), 1);
    assert!(state.threads.contains_key("ws-2:t-2"));
    assert_eq!(state.jobs.len(), 1);
    assert!(state.jobs.contains_key("job-2"));
    assert_eq!(state.open_questions.len(), 1);
    assert!(state.open_questions.contains_key("ws-2:1"));
    assert_eq!(state.pending_approvals.len(), 1);
    assert!(state.pending_approvals.contains_key("ws-2:2"));
}

#[test]
fn remove_thread_cascades_to_what_belongs_to_it() {
    let mut state = SupervisorState::default();
    apply_updates(
        &mut state,
        vec![
            SupervisorStateUpdate::UpsertThread(thread("t-1", "ws-1")),
            SupervisorStateUpdate::UpsertThread(thread("t-2", "ws-1")),
            SupervisorStateUpdate::UpsertJob(job("job-1", "ws-1", Some("t-1"))),
            SupervisorStateUpdate::UpsertJob(job("job-2", "ws-1", Some("t-2"))),
            SupervisorStateUpdate::UpsertJob(job("job-3", "ws-1", None)),
            SupervisorStateUpdate::UpsertOpenQuestion(question("ws-1:1", "ws-1", "t-1")),
            SupervisorStateUpdate::UpsertPendingApproval(approval("ws-1:2", "ws-1", Some("t-1"))),
            SupervisorStateUpdate::UpsertPendingApproval(approval("ws-1:3", "ws-1", None)),
        ],
    );

    apply_update(
        &mut state,
        SupervisorStateUpdate::RemoveThread { workspace_id: "ws-1".to_string(), thread_id: "t-1".to_string() },
    );

    assert!(!state.threads.contains_key("ws-1:t-1"));
    assert!(state.threads.contains_key("ws-1:t-2"));
    assert!(!state.jobs.contains_key("job-1"));
    assert!(state.jobs.contains_key("job-2"));
    assert!(state.jobs.contains_key("job-3"));
    assert_eq!(state.open_questions.len(), 0);
    assert!(!state.pending_approvals.contains_key("ws-1:2"));
    assert!(state.pending_approvals.contains_key("ws-1:3"));
}

#[test]
fn remove_job_and_unknown_keys_change_nothing_else() {
    let mut state = SupervisorState::default();
    apply_update(&mut state, SupervisorStateUpdate::UpsertJob(job("job-1", "ws-1", None)));
    apply_update(&mut state, SupervisorStateUpdate::UpsertJob(job("job-2", "ws-1", None)));
    apply_update(&mut state, SupervisorStateUpdate::RemoveJob { job_id: "job-9".to_string() });
    assert_eq!(state.jobs.len(), 2);
    apply_update(&mut state, SupervisorStateUpdate::RemoveJob { job_id: "job-1".to_string() });
    assert_eq!(state.jobs.len(), 1);
    assert!(state.jobs.contains_key("job-2"));
    apply_update(
        &mut state,
        SupervisorStateUpdate::AckSignal { signal_id: "none".to_string(), acknowledged_at_ms: 1 },
    );
    assert_eq!(state.signals.len(), 0);
}

#[test]
fn upsert_replaces_the_value_under_the_same_key() {
    let mut state = SupervisorState::default();
    apply_update(&mut state, SupervisorStateUpdate::UpsertWorkspace(workspace("ws-1")));
    let mut renamed = workspace("ws-1");
    renamed.name = "Renamed".to_string();
    apply_update(&mut state, SupervisorStateUpdate::UpsertWorkspace(renamed));
    assert_eq!(state.workspaces.len(), 1);
    assert_eq!(state.workspaces.get("ws-1").map(|w| w.name.as_str()), Some("Renamed"));
}
