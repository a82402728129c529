use supervisor_core::json::JsonValue;
use supervisor_core::loop_ops::{request_value_key, SupervisorWorkspaceHealthInput};
use supervisor_core::model::{
    SupervisorChatMessage, SupervisorChatMessageRole, SupervisorHealth, SupervisorJobState,
    SupervisorJobStatus, SupervisorSignalKind, SupervisorState, SupervisorSubtaskEvent,
    SupervisorThreadStatus, SupervisorWorkspaceState,
};
use supervisor_core::reducer::{apply_update, SupervisorStateUpdate};
use supervisor_core::supervisor_loop::{SupervisorLoop, SupervisorLoopConfig};

fn text(value: &str) -> JsonValue {
    JsonValue::Text(value.to_string())
}

fn object(members: Vec<(&str, JsonValue)>) -> JsonValue {
    JsonValue::Object(members.into_iter().map(|(k, v)| (k.to_string(), v)).collect())
}

fn message(method: &str, params: Vec<(&str, JsonValue)>) -> JsonValue {
    object(vec![("method", text(method)), ("params", object(params))])
}

fn tracked_running_job(job_id: &str, workspace_id: &str, thread_id: &str) -> SupervisorJobState {
    SupervisorJobState {
        id: job_id.to_string(),
        workspace_id: workspace_id.to_string(),
        thread_id: Some(thread_id.to_string()),
        description: "Tracked subtask".to_string(),
        status: SupervisorJobStatus::Running,
        requested_at_ms: 1,
        started_at_ms: Some(2),
        ..Default::default()
    }
}

fn waiting_job(id: &str, workspace_id: &str, thread_id: &str, request_id: &str) -> SupervisorJobState {
    SupervisorJobState {
        id: id.to_string(),
        workspace_id: workspace_id.to_string(),
        thread_id: Some(thread_id.to_string()),
        description: "Waiting subtask".to_string(),
        status: SupervisorJobStatus::WaitingForUser,
        requested_at_ms: 1,
        waiting_request_id: Some(text(request_id)),
        waiting_question_ids: vec!["question-1".to_string()],
        ..Default::default()
    }
}

fn health_input(workspace_id: &str, connected: bool) -> SupervisorWorkspaceHealthInput {
    SupervisorWorkspaceHealthInput {
        workspace_id: workspace_id.to_string(),
        workspace_name: Some("Health Workspace".to_string()),
        connected,
    }
}

#[test]
fn push_approval_event_updates_pending_approvals_and_signals() {
    let mut loop_state = SupervisorLoop::new(SupervisorLoopConfig::default());

    loop_state.apply_app_server_event(
        "ws-1",
        &object(vec![
            ("id", JsonValue::Int(42)),
            ("method", text("workspace/requestApproval")),
            (
                "params",
                object(vec![
                    ("threadId", text("thread-1")),
                    ("turnId", text("turn-1")),
                    ("itemId", text("item-1")),
                    ("mode", text("full")),
                ]),
            ),
        ]),
        100,
    );

    let snapshot = loop_state.snapshot();
    assert!(snapshot.pending_approvals.contains_key("ws-1:42"));
    assert_eq!(snapshot.signals.len(), 1);
    assert_eq!(snapshot.signals[0].kind, SupervisorSignalKind::NeedsApproval);
    assert_eq!(snapshot.activity_feed[0].kind, "needs_approval");
    assert!(snapshot.activity_feed[0].needs_input);
    assert_eq!(snapshot.signals[0].id, "approval:ws-1:42");
    assert_eq!(snapshot.activity_feed[0].id, "approval:ws-1:42:100");
}

#[test]
fn pull_health_check_emits_stale_and_disconnected_signals_once() {
    let mut loop_state = SupervisorLoop::new(SupervisorLoopConfig {
        stale_after_ms: 10,
        disconnected_after_ms: 20,
        activity_feed_limit: 100,
    });

    loop_state.apply_app_server_event(
        "ws-health",
        &message("turn/started", vec![("threadId", text("thread-health")), ("turnId", text("turn-health"))]),
        100,
    );

    let input = vec![health_input("ws-health", true)];

    loop_state.run_health_check(&input, 105);
    assert_eq!(loop_state.snapshot().signals.len(), 0);

    loop_state.run_health_check(&input, 112);
    let stale_snapshot = loop_state.snapshot();
    assert_eq!(stale_snapshot.signals.len(), 1);
    assert_eq!(stale_snapshot.signals[0].kind, SupervisorSignalKind::Stalled);

    loop_state.run_health_check(&input, 113);
    assert_eq!(loop_state.snapshot().signals.len(), 1);

    loop_state.run_health_check(&input, 125);
    let disconnected_snapshot = loop_state.snapshot();
    assert_eq!(disconnected_snapshot.signals.len(), 2);
    assert_eq!(disconnected_snapshot.signals[0].kind, SupervisorSignalKind::Disconnected);

    loop_state.run_health_check(&input, 126);
    assert_eq!(loop_state.snapshot().signals.len(), 2);
    let workspace = disconnected_snapshot.workspaces.get("ws-health").expect("workspace");
    assert_eq!(workspace.name, "Health Workspace");
    assert_eq!(workspace.health, SupervisorHealth::Disconnected);
    assert_eq!(workspace.last_activity_at_ms, Some(100));
}

#[test]
fn turn_and_item_events_update_thread_runtime_state() {
    let mut loop_state = SupervisorLoop::new(SupervisorLoopConfig::default());

    loop_state.apply_app_server_event(
        "ws-2",
        &message(
            "turn/started",
            vec![("threadId", text("thread-2")), ("turnId", text("turn-2")), ("currentTask", text("Investigate"))],
        ),
        10,
    );

    loop_state.apply_app_server_event(
        "ws-2",
        &message(
            "item/started",
            vec![("threadId", text("thread-2")), ("itemId", text("item-2")), ("title", text("Run tests"))],
        ),
        11,
    );

    loop_state.apply_app_server_event(
        "ws-2",
        &message("turn/completed", vec![("threadId", text("thread-2")), ("turnId", text("turn-2"))]),
        20,
    );

    let snapshot = loop_state.snapshot();
    let thread = snapshot.threads.get("ws-2:thread-2").expect("thread should exist");
    assert_eq!(thread.status, SupervisorThreadStatus::Completed);
    assert_eq!(thread.active_turn_id, None);
    assert_eq!(thread.last_activity_at_ms, Some(20));

    let workspace = snapshot.workspaces.get("ws-2").expect("workspace should exist");
    assert_eq!(workspace.health, SupervisorHealth::Healthy);
    assert_eq!(workspace.active_thread_id.as_deref(), Some("thread-2"));
    assert_eq!(workspace.current_task.as_deref(), Some("Run tests"));
}

#[test]
fn child_final_result_is_bridged_into_supervisor_chat() {
    let mut loop_state = SupervisorLoop::new(SupervisorLoopConfig::default());
    loop_state.upsert_job(tracked_running_job("job-1", "ws-1", "thread-1"));

    loop_state.apply_app_server_event(
        "ws-1",
        &message(
            "item/completed",
            vec![
                ("threadId", text("thread-1")),
                ("itemId", text("item-1")),
                (
                    "item",
                    object(vec![
                        ("id", text("item-1")),
                        ("type", text("agentMessage")),
                        ("text", text("Deployment finished successfully")),
                    ]),
                ),
            ],
        ),
        10,
    );
    loop_state.apply_app_server_event(
        "ws-1",
        &message(
            "turn/completed",
            vec![
                ("threadId", text("thread-1")),
                ("turnId", text("turn-1")),
                ("summary", text("Deployment finished successfully")),
            ],
        ),
        11,
    );

    let snapshot = loop_state.snapshot();
    let job = snapshot.jobs.get("job-1").expect("job should exist");
    assert_eq!(job.status, SupervisorJobStatus::Completed);
    assert!(
        job.recent_events.iter().any(|event| event.kind == "completed"),
        "expected completed event in recent subtask events"
    );

    let history = loop_state.chat_history();
    assert!(
        history
            .iter()
            .any(|message| message.text.contains("Agent response: Deployment finished successfully")),
        "expected bridged agent result in supervisor chat"
    );
    assert!(
        history.iter().any(|message| message.text.contains("Subtask completed.")),
        "expected completion summary in supervisor chat"
    );
    assert_eq!(history[0].id, "chat-bridge:turn_completed:job-1:11");
    assert!(history[0].text.starts_with("[subtask:job-1 ws:ws-1 thread:thread-1] Subtask completed."));
}

#[test]
fn child_question_is_bridged_and_marks_job_waiting_for_user() {
    let mut loop_state = SupervisorLoop::new(SupervisorLoopConfig::default());
    loop_state.upsert_job(tracked_running_job("job-2", "ws-2", "thread-2"));

    loop_state.apply_app_server_event(
        "ws-2",
        &object(vec![
            ("id", text("req-7")),
            ("method", text("item/tool/requestUserInput")),
            (
                "params",
                object(vec![
                    ("threadId", text("thread-2")),
                    ("turnId", text("turn-2")),
                    ("itemId", text("item-2")),
                    (
                        "questions",
                        JsonValue::Array(vec![object(vec![
                            ("id", text("q-1")),
                            ("question", text("Should I restart the service?")),
                        ])]),
                    ),
                ]),
            ),
        ]),
        20,
    );

    let snapshot = loop_state.snapshot();
    let job = snapshot.jobs.get("job-2").expect("job should exist");
    assert_eq!(job.status, SupervisorJobStatus::WaitingForUser);
    assert_eq!(job.waiting_request_id.as_ref(), Some(&text("req-7")));
    assert_eq!(job.waiting_question_ids, vec!["q-1".to_string()]);
    assert!(snapshot.open_questions.contains_key("ws-2:req-7"));

    let history = loop_state.chat_history();
    assert!(
        history
            .iter()
            .any(|message| message.text.contains("Child task asks: Should I restart the service?")),
        "expected bridged child clarification in supervisor chat"
    );
    assert!(snapshot.activity_feed[0].needs_input);
    assert_eq!(snapshot.activity_feed[0].kind, "waiting_for_user");
}

#[test]
fn child_error_is_bridged_and_marks_job_failed() {
    let mut loop_state = SupervisorLoop::new(SupervisorLoopConfig::default());
    loop_state.upsert_job(tracked_running_job("job-3", "ws-3", "thread-3"));

    loop_state.apply_app_server_event(
        "ws-3",
        &message(
            "error",
            vec![
                ("threadId", text("thread-3")),
                ("turnId", text("turn-3")),
                ("error", object(vec![("message", text("Build failed on step test"))])),
                ("willRetry", JsonValue::Bool(false)),
            ],
        ),
        30,
    );

    let snapshot = loop_state.snapshot();
    let job = snapshot.jobs.get("job-3").expect("job should exist");
    assert_eq!(job.status, SupervisorJobStatus::Failed);
    assert_eq!(job.error.as_deref(), Some("Build failed on step test"));

    let history = loop_state.chat_history();
    assert!(
        history
            .iter()
            .any(|message| message.text.contains("Child task failed: Build failed on step test")),
        "expected bridged child failure in supervisor chat"
    );
    let thread = snapshot.threads.get("ws-3:thread-3").expect("thread");
    assert_eq!(thread.status, SupervisorThreadStatus::Failed);
    assert_eq!(snapshot.signals[0].kind, SupervisorSignalKind::Failed);
    assert_eq!(snapshot.signals[0].id, "error:ws-3:thread-3:turn-3");
}

#[test]
fn turn_lifecycle_leaves_one_completed_signal_and_both_activities() {
    let mut loop_state = SupervisorLoop::new(SupervisorLoopConfig::default());
    loop_state.apply_app_server_event(
        "W",
        &message("turn/started", vec![("threadId", text("T")), ("turnId", text("U"))]),
        10,
    );
    loop_state.apply_app_server_event(
        "W",
        &message("turn/completed", vec![("threadId", text("T")), ("turnId", text("U"))]),
        20,
    );
    let snapshot = loop_state.snapshot();
    let thread = snapshot.threads.get("W:T").expect("thread");
    assert_eq!(thread.status, SupervisorThreadStatus::Completed);
    assert_eq!(thread.active_turn_id, None);
    assert_eq!(thread.last_activity_at_ms, Some(20));
    let completed: Vec<_> =
        snapshot.signals.iter().filter(|s| s.kind == SupervisorSignalKind::Completed).collect();
    assert_eq!(completed.len(), 1);
    assert_eq!(completed[0].id, "turn:W:T:U:completed");
    let kinds: Vec<&str> = snapshot.activity_feed.iter().rev().map(|e| e.kind.as_str()).collect();
    assert_eq!(kinds, vec!["turn_started", "turn_completed"]);
    assert_eq!(snapshot.activity_feed[1].id, "turn_started:W:T:U:10");
    assert_eq!(
        snapshot.activity_feed[0].metadata,
        object(vec![("turnId", text("U")), ("task", JsonValue::Null)])
    );
}

#[test]
fn health_is_disconnected_without_a_session_and_stale_without_events() {
    let mut loop_state = SupervisorLoop::new(SupervisorLoopConfig::default());
    loop_state.run_health_check(&vec![health_input("ws-a", false), health_input("ws-b", true)], 1_000);
    let snapshot = loop_state.snapshot();
    assert_eq!(snapshot.workspaces.get("ws-a").unwrap().health, SupervisorHealth::Disconnected);
    assert_eq!(snapshot.workspaces.get("ws-b").unwrap().health, SupervisorHealth::Stale);
    assert_eq!(snapshot.signals.len(), 2);
    assert_eq!(snapshot.signals[0].id, "health:ws-b:stalled");
    assert_eq!(snapshot.signals[0].message, "Workspace is stale (no recent events).");
    assert_eq!(snapshot.signals[0].context, object(vec![("health", text("stale"))]));
    assert_eq!(snapshot.signals[1].id, "health:ws-a:disconnected");
    assert_eq!(snapshot.signals[1].message, "Workspace appears disconnected.");
    assert_eq!(
        loop_state.compute_health(&health_input("ws-a", false), 1_000),
        SupervisorHealth::Disconnected
    );
}

#[test]
fn health_thresholds_are_inclusive_and_the_age_saturates() {
    let mut loop_state = SupervisorLoop::new(SupervisorLoopConfig::default());
    loop_state.record_workspace_heartbeat("ws", 1_000);
    assert_eq!(loop_state.compute_health(&health_input("ws", true), 1_000 + 89_999), SupervisorHealth::Healthy);
    assert_eq!(loop_state.compute_health(&health_input("ws", true), 1_000 + 90_000), SupervisorHealth::Stale);
    assert_eq!(loop_state.compute_health(&health_input("ws", true), 1_000 + 299_999), SupervisorHealth::Stale);
    assert_eq!(
        loop_state.compute_health(&health_input("ws", true), 1_000 + 300_000),
        SupervisorHealth::Disconnected
    );
    loop_state.record_workspace_heartbeat("ws", i64::MIN);
    assert_eq!(loop_state.compute_health(&health_input("ws", true), i64::MAX), SupervisorHealth::Disconnected);
    loop_state.record_workspace_heartbeat("ws", i64::MAX);
    assert_eq!(loop_state.compute_health(&health_input("ws", true), i64::MIN), SupervisorHealth::Healthy);
}

#[test]
fn connected_message_marks_workspace_healthy() {
    let mut loop_state = SupervisorLoop::new(SupervisorLoopConfig::default());
    loop_state.apply_app_server_event("ws-9", &object(vec![("method", text("codex/connected"))]), 50);
    let snapshot = loop_state.snapshot();
    let workspace = snapshot.workspaces.get("ws-9").expect("workspace");
    assert!(workspace.connected);
    assert_eq!(workspace.health, SupervisorHealth::Healthy);
    assert_eq!(workspace.last_activity_at_ms, Some(50));
    assert_eq!(snapshot.activity_feed[0].id, "connected:ws-9:50");
    assert_eq!(snapshot.activity_feed[0].kind, "workspace_connected");
    loop_state.apply_app_server_event("ws-9", &object(vec![("method", text("other"))]), 60);
    assert_eq!(loop_state.snapshot().activity_feed.len(), 1);
}

#[test]
fn job_matching_prefers_live_then_newest_then_smallest_id() {
    let mut loop_state = SupervisorLoop::new(SupervisorLoopConfig::default());
    let mut done = tracked_running_job("job-done", "ws", "t");
    done.status = SupervisorJobStatus::Completed;
    done.requested_at_ms = 99;
    let mut old = tracked_running_job("job-old", "ws", "t");
    old.requested_at_ms = 5;
    let mut b = tracked_running_job("job-b", "ws", "t");
    b.requested_at_ms = 7;
    let mut a = tracked_running_job("job-a", "ws", "t");
    a.requested_at_ms = 7;
    let other_thread = tracked_running_job("job-other", "ws", "t2");
    for job in [done, old, b, a, other_thread] {
        loop_state.upsert_job(job);
    }
    assert_eq!(loop_state.job_for_event("ws", Some("t")).map(|j| j.id), Some("job-a".to_string()));
    assert_eq!(loop_state.job_for_event("ws", Some("t2")).map(|j| j.id), Some("job-other".to_string()));
    assert_eq!(loop_state.job_for_event("ws", None).map(|j| j.id), Some("job-a".to_string()));
    assert_eq!(loop_state.job_for_event("nope", None), None);
}

#[test]
fn subtask_events_are_deduplicated_and_capped_at_the_limit() {
    let mut job = tracked_running_job("job-1", "ws", "t");
    for index in 0..30 {
        let added = SupervisorLoop::append_subtask_event(
            &mut job,
            SupervisorSubtaskEvent {
                id: format!("e-{index}"),
                kind: "running".to_string(),
                message: "m".to_string(),
                created_at_ms: index,
                metadata: JsonValue::Null,
            },
        );
        assert!(added);
    }
    assert_eq!(job.recent_events.len(), 24);
    assert_eq!(job.recent_events[0].id, "e-6");
    assert_eq!(job.recent_events[23].id, "e-29");
    let added = SupervisorLoop::append_subtask_event(
        &mut job,
        SupervisorSubtaskEvent {
            id: "e-10".to_string(),
            kind: "running".to_string(),
            message: "again".to_string(),
            created_at_ms: 99,
            metadata: JsonValue::Null,
        },
    );
    assert!(!added);
    assert_eq!(job.recent_events.len(), 24);
    assert_eq!(job.recent_events[4].message, "m");
}

#[test]
fn repeated_event_is_bridged_into_the_chat_once() {
    let mut loop_state = SupervisorLoop::new(SupervisorLoopConfig::default());
    loop_state.upsert_job(tracked_running_job("job-1", "ws-1", "thread-1"));
    let started = message("turn/started", vec![("threadId", text("thread-1")), ("turnId", text("turn-1"))]);
    loop_state.apply_app_server_event("ws-1", &started, 10);
    loop_state.apply_app_server_event("ws-1", &started, 11);
    assert_eq!(loop_state.chat_history().len(), 1);
    assert_eq!(
        loop_state.chat_history()[0].text,
        "[subtask:job-1 ws:ws-1 thread:thread-1] Progress update: turn `turn-1` started."
    );
    assert_eq!(loop_state.snapshot().jobs.get("job-1").unwrap().recent_events.len(), 1);
    assert_eq!(loop_state.snapshot().activity_feed.len(), 2);
}

#[test]
fn waiting_jobs_lists_deliverable_jobs_newest_first() {
    let mut loop_state = SupervisorLoop::new(SupervisorLoopConfig::default());
    let mut newest = waiting_job("job-b", "ws-1", "t", "r-1");
    newest.requested_at_ms = 9;
    let mut tie_b = waiting_job("job-d", "ws-1", "t", "r-2");
    tie_b.requested_at_ms = 3;
    let mut tie_a = waiting_job("job-c", "ws-1", "t", "r-3");
    tie_a.requested_at_ms = 3;
    let mut no_request = waiting_job("job-e", "ws-1", "t", "r-4");
    no_request.waiting_request_id = None;
    let blank_workspace = waiting_job("job-f", "  ", "t", "r-5");
    let running = tracked_running_job("job-g", "ws-1", "t");
    for job in [tie_b, newest, tie_a, no_request, blank_workspace, running] {
        loop_state.upsert_job(job);
    }
    let ids: Vec<String> = loop_state.waiting_jobs().into_iter().map(|j| j.id).collect();
    assert_eq!(ids, vec!["job-b", "job-c", "job-d"]);
}

#[test]
fn mark_reply_delivered_resumes_the_job_and_resolves_the_question() {
    let mut loop_state = SupervisorLoop::new(SupervisorLoopConfig::default());
    loop_state.upsert_job(waiting_job("J", "W", "T", "R"));
    apply_update(
        &mut loop_state.state,
        SupervisorStateUpdate::UpsertOpenQuestion(supervisor_core::model::SupervisorOpenQuestion {
            id: "W:R".to_string(),
            workspace_id: "W".to_string(),
            thread_id: "T".to_string(),
            question: "?".to_string(),
            created_at_ms: 1,
            resolved_at_ms: None,
            context: JsonValue::Null,
        }),
    );
    let long_reply = format!("  {}  ", "x".repeat(200));
    loop_state.mark_reply_delivered("J", &text("R"), &long_reply, 77).expect("delivered");
    let snapshot = loop_state.snapshot();
    let job = snapshot.jobs.get("J").unwrap();
    assert_eq!(job.status, SupervisorJobStatus::Running);
    assert_eq!(job.waiting_request_id, None);
    assert!(job.waiting_question_ids.is_empty());
    assert_eq!(job.recent_events[0].id, "reply_delivered:J:W:R");
    assert_eq!(
        job.recent_events[0].metadata,
        object(vec![("requestKey", text("W:R")), ("replySummary", text(&"x".repeat(180)))])
    );
    assert_eq!(snapshot.open_questions.get("W:R").unwrap().resolved_at_ms, Some(77));
    assert_eq!(snapshot.activity_feed[0].kind, "reply_delivered");
    assert_eq!(snapshot.activity_feed[0].id, "reply_delivered:J:W:R:77");
    assert_eq!(
        snapshot.chat_history[0].text,
        "[subtask:J ws:W thread:T] Reply delivered to child task request `W:R`. Continuing execution."
    );
}

#[test]
fn mark_reply_delivered_refuses_with_a_reason_and_changes_nothing() {
    let mut loop_state = SupervisorLoop::new(SupervisorLoopConfig::default());
    loop_state.upsert_job(waiting_job("J", "W", "T", "R"));
    loop_state.upsert_job(tracked_running_job("K", "W", "T"));
    let mut hollow = waiting_job("L", "W", "T", "R");
    hollow.waiting_request_id = None;
    loop_state.upsert_job(hollow);
    let before = loop_state.snapshot();
    assert_eq!(
        loop_state.mark_reply_delivered("missing", &text("R"), "x", 1),
        Err("subtask `missing` is not tracked".to_string())
    );
    assert_eq!(
        loop_state.mark_reply_delivered("K", &text("R"), "x", 1),
        Err("subtask `K` is not waiting for user input anymore".to_string())
    );
    assert_eq!(
        loop_state.mark_reply_delivered("L", &text("R"), "x", 1),
        Err("subtask `L` no longer has a pending request to answer".to_string())
    );
    assert_eq!(
        loop_state.mark_reply_delivered("J", &text("other"), "x", 1),
        Err("subtask `J` is waiting on a different request id".to_string())
    );
    assert_eq!(loop_state.snapshot(), before);
}

#[test]
fn mark_reply_delivery_failed_keeps_status_and_marks_needs_input() {
    let mut loop_state = SupervisorLoop::new(SupervisorLoopConfig::default());
    loop_state.upsert_job(waiting_job("J", "W", "T", "R"));
    loop_state.mark_reply_delivery_failed("J", &JsonValue::Int(5), "pipe closed", 9);
    loop_state.mark_reply_delivery_failed("J", &JsonValue::Int(5), "pipe closed", 10);
    loop_state.mark_reply_delivery_failed("unknown", &JsonValue::Int(5), "pipe closed", 9);
    let snapshot = loop_state.snapshot();
    let job = snapshot.jobs.get("J").unwrap();
    assert_eq!(job.status, SupervisorJobStatus::WaitingForUser);
    assert_eq!(job.waiting_request_id, Some(text("R")));
    assert_eq!(job.recent_events.len(), 1);
    assert_eq!(job.recent_events[0].id, "reply_delivery_failed:J:W:5");
    assert_eq!(snapshot.activity_feed.len(), 2);
    assert!(snapshot.activity_feed[0].needs_input);
    assert_eq!(snapshot.activity_feed[0].kind, "reply_delivery_failed");
    assert_eq!(snapshot.chat_history.len(), 1);
    assert_eq!(snapshot.chat_history[0].text, "[subtask:J ws:W thread:T] Reply delivery failed: pipe closed");
}

#[test]
fn request_value_key_writes_strings_integers_and_other_values() {
    assert_eq!(request_value_key("W", &text(" R ")), "W:R");
    assert_eq!(request_value_key("W", &JsonValue::Int(-3)), "W:-3");
    assert_eq!(request_value_key("W", &JsonValue::Uint(u64::MAX)), format!("W:{}", u64::MAX));
    assert_eq!(request_value_key("W", &text("  ")), "W:\"  \"");
    assert_eq!(request_value_key("W", &JsonValue::Bool(true)), "W:true");
    assert_eq!(request_value_key("W", &JsonValue::Null), "W:null");
    assert_eq!(
        request_value_key("W", &object(vec![("b", JsonValue::Int(1)), ("a", text("x"))])),
        "W:{\"a\":\"x\",\"b\":1}"
    );
}

#[test]
fn from_state_takes_heartbeats_from_workspaces() {
    let mut state = SupervisorState::default();
    let mut seen = SupervisorWorkspaceState { id: "ws-1".to_string(), connected: true, ..Default::default() };
    seen.last_activity_at_ms = Some(1_000);
    state.workspaces.put("ws-1".to_string(), seen);
    state.workspaces.put(
        "ws-2".to_string(),
        SupervisorWorkspaceState { id: "ws-2".to_string(), connected: true, ..Default::default() },
    );
    let loop_state = SupervisorLoop::from_state(SupervisorLoopConfig::default(), state);
    assert_eq!(loop_state.compute_health(&health_input("ws-1", true), 1_500), SupervisorHealth::Healthy);
    assert_eq!(loop_state.compute_health(&health_input("ws-2", true), 1_500), SupervisorHealth::Stale);
    assert_eq!(loop_state.snapshot().workspaces.len(), 2);
}

fn jobs_are_consistent(loop_state: &SupervisorLoop) -> bool {
    let snapshot = loop_state.snapshot();
    (0..snapshot.jobs.len()).all(|i| {
        let job = snapshot.jobs.value_at(i);
        (job.status == SupervisorJobStatus::WaitingForUser) == job.waiting_request_id.is_some()
    })
}

#[test]
fn approval_request_gives_the_job_the_request_it_waits_on() {
    let mut loop_state = SupervisorLoop::new(SupervisorLoopConfig::default());
    loop_state.upsert_job(tracked_running_job("job-1", "ws-1", "thread-1"));
    loop_state.apply_app_server_event(
        "ws-1",
        &object(vec![
            ("id", JsonValue::Int(1)),
            ("method", text("x/requestApproval")),
            ("params", object(vec![("threadId", text("thread-1"))])),
        ]),
        5,
    );
    let job = loop_state.snapshot().jobs.get("job-1").cloned().unwrap();
    assert_eq!(job.status, SupervisorJobStatus::WaitingForUser);
    assert_eq!(job.waiting_request_id, Some(text("1")));
    assert!(job.waiting_question_ids.is_empty());
    assert!(jobs_are_consistent(&loop_state));
}

#[test]
fn turn_start_item_and_error_clear_the_request_of_a_waiting_job() {
    let mut started = SupervisorLoop::new(SupervisorLoopConfig::default());
    started.upsert_job(waiting_job("job-2", "ws-2", "thread-2", "R"));
    started.apply_app_server_event(
        "ws-2",
        &message("turn/started", vec![("threadId", text("thread-2")), ("turnId", text("u"))]),
        6,
    );
    let job = started.snapshot().jobs.get("job-2").cloned().unwrap();
    assert_eq!(job.status, SupervisorJobStatus::Running);
    assert_eq!(job.waiting_request_id, None);
    assert!(job.waiting_question_ids.is_empty());
    assert!(jobs_are_consistent(&started));

    let mut item = SupervisorLoop::new(SupervisorLoopConfig::default());
    item.upsert_job(waiting_job("job-3", "ws-3", "thread-3", "R"));
    item.apply_app_server_event(
        "ws-3",
        &message(
            "item/started",
            vec![("threadId", text("thread-3")), ("itemId", text("i")), ("item", object(vec![("type", text("toolCall"))]))],
        ),
        7,
    );
    let job = item.snapshot().jobs.get("job-3").cloned().unwrap();
    assert_eq!(job.status, SupervisorJobStatus::Running);
    assert_eq!(job.waiting_request_id, None);
    assert!(job.waiting_question_ids.is_empty());
    assert!(jobs_are_consistent(&item));

    for will_retry in [true, false] {
        let mut failed = SupervisorLoop::new(SupervisorLoopConfig::default());
        failed.upsert_job(waiting_job("job-4", "ws-4", "thread-4", "R"));
        failed.apply_app_server_event(
            "ws-4",
            &message(
                "error",
                vec![
                    ("threadId", text("thread-4")),
                    ("willRetry", JsonValue::Bool(will_retry)),
                    ("error", object(vec![("message", text("boom"))])),
                ],
            ),
            8,
        );
        let job = failed.snapshot().jobs.get("job-4").cloned().unwrap();
        assert_eq!(
            job.status,
            if will_retry { SupervisorJobStatus::Running } else { SupervisorJobStatus::Failed }
        );
        assert_eq!(job.waiting_request_id, None);
        assert!(job.waiting_question_ids.is_empty());
        assert!(jobs_are_consistent(&failed));
    }
}

#[test]
fn second_health_check_of_several_workspaces_changes_nothing() {
    let mut loop_state = SupervisorLoop::new(SupervisorLoopConfig {
        stale_after_ms: 10,
        disconnected_after_ms: 20,
        activity_feed_limit: 100,
    });
    loop_state.record_workspace_heartbeat("ws-a", 100);
    loop_state.record_workspace_heartbeat("ws-b", 95);
    let inputs = vec![health_input("ws-a", true), health_input("ws-b", true), health_input("ws-c", false)];
    loop_state.run_health_check(&inputs, 112);
    let first = loop_state.snapshot();
    assert_eq!(first.signals.len(), 3);
    loop_state.run_health_check(&inputs, 112);
    assert_eq!(loop_state.snapshot(), first);
    loop_state.run_health_check(&inputs, 113);
    let third = loop_state.snapshot();
    assert_eq!(third.signals, first.signals);
    assert_eq!(third.workspaces, first.workspaces);
}

#[test]
fn chat_messages_and_route_decisions_are_recorded() {
    let mut loop_state = SupervisorLoop::new(SupervisorLoopConfig { activity_feed_limit: 1, ..Default::default() });
    loop_state.append_chat_message(SupervisorChatMessage {
        id: "m-1".to_string(),
        role: SupervisorChatMessageRole::User,
        text: "hello".to_string(),
        created_at_ms: 1,
    });
    loop_state.record_route_decision("r-1", "first".to_string(), 5, JsonValue::Null);
    loop_state.record_route_decision("r-2", "second".to_string(), 6, JsonValue::Bool(true));
    let snapshot = loop_state.snapshot();
    assert_eq!(snapshot.chat_history.len(), 1);
    assert_eq!(snapshot.activity_feed.len(), 1);
    assert_eq!(snapshot.activity_feed[0].id, "route_decision:r-2:6");
    assert_eq!(snapshot.activity_feed[0].kind, "route_decision");
    assert_eq!(snapshot.activity_feed[0].message, "second");
    loop_state.ack_signal("nothing", 1);
    assert_eq!(loop_state.snapshot(), snapshot);
}

#[test]
fn agent_message_type_is_matched_without_regard_to_ascii_case() {
    let mut loop_state = SupervisorLoop::new(SupervisorLoopConfig::default());
    loop_state.upsert_job(tracked_running_job("job-1", "ws-1", "thread-1"));
    loop_state.apply_app_server_event(
        "ws-1",
        &message(
            "item/completed",
            vec![
                ("threadId", text("thread-1")),
                ("itemId", text("item-1")),
                ("item", object(vec![("type", text("AGENTmessage")), ("text", text(&"y".repeat(300)))])),
            ],
        ),
        10,
    );
    loop_state.apply_app_server_event(
        "ws-1",
        &message(
            "item/completed",
            vec![
                ("threadId", text("thread-1")),
                ("itemId", text("item-2")),
                ("item", object(vec![("type", text(" toolCall ")), ("text", text("ignored"))])),
            ],
        ),
        11,
    );
    let history = loop_state.chat_history();
    assert_eq!(
        history[1].text,
        format!("[subtask:job-1 ws:ws-1 thread:thread-1] Agent response: {}", "y".repeat(240))
    );
    assert_eq!(
        history[0].text,
        "[subtask:job-1 ws:ws-1 thread:thread-1] Progress update: item `toolCall` completed."
    );
}
