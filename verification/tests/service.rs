use std::cell::RefCell;

use supervisor_core::dispatch::{
    SupervisorDispatchAction, SupervisorDispatchActionResult, SupervisorDispatchBackend,
    SupervisorDispatchBatchResult, SupervisorDispatchExecutor, SupervisorDispatchStatus,
};
use supervisor_core::json::JsonValue;
use supervisor_core::model::{
    SupervisorChatMessageRole, SupervisorHealth, SupervisorJobState, SupervisorJobStatus, SupervisorState,
    SupervisorWorkspaceState,
};
use supervisor_core::routing::{AppSettings, SupervisorLocalTool};
use supervisor_core::service::{
    apply_dispatch_outcome_events, build_reply_payload, collect_route_workspace_metadata,
    deliver_reply_to_waiting_subtask, freeform_outcome_of, FreeformDispatchOutcome,
    execute_local_tool_route, now_timestamp_ms, parse_targeted_subtask_reply, plan_reply, route_decision_value,
    supervisor_ack_signal_core, supervisor_chat_history_core, supervisor_chat_send_core, supervisor_dispatch_core,
    supervisor_feed_core, supervisor_snapshot_core, supervisor_state_path, SupervisorReplyBackend,
    SupervisorReplyPlan, SupervisorWorkspaceEntry,
};
use supervisor_core::supervisor_loop::{SupervisorLoop, SupervisorLoopConfig};

fn text(value: &str) -> JsonValue {
    JsonValue::Text(value.to_string())
}

fn object(members: Vec<(&str, JsonValue)>) -> JsonValue {
    JsonValue::Object(members.into_iter().map(|(k, v)| (k.to_string(), v)).collect())
}

fn message(method: &str, params: Vec<(&str, JsonValue)>) -> JsonValue {
    object(vec![("method", text(method)), ("params", object(params))])
}

#[derive(Default)]
struct MockSessions {
    connected: Vec<String>,
    fail_replies: bool,
    calls: RefCell<Vec<String>>,
    replies: RefCell<Vec<(String, JsonValue, JsonValue)>>,
}

impl MockSessions {
    fn with(connected: &[&str]) -> Self {
        MockSessions { connected: connected.iter().map(|s| s.to_string()).collect(), ..Default::default() }
    }

    fn guard(&self, workspace_id: &str) -> Result<(), String> {
        if self.connected.iter().any(|id| id == workspace_id) {
            Ok(())
        } else {
            Err(format!("workspace `{workspace_id}` is not connected"))
        }
    }
}

impl SupervisorDispatchBackend for MockSessions {
    fn start_thread(&self, workspace_id: &str) -> Result<JsonValue, String> {
        self.guard(workspace_id)?;
        self.calls.borrow_mut().push(format!("thread/start:{workspace_id}"));
        Ok(object(vec![("result", object(vec![("threadId", text(&format!("thread-{workspace_id}")))]))]))
    }

    fn resume_thread(&self, workspace_id: &str, thread_id: &str) -> Result<JsonValue, String> {
        self.guard(workspace_id)?;
        self.calls.borrow_mut().push(format!("thread/resume:{workspace_id}:{thread_id}"));
        Ok(object(vec![("result", object(vec![("threadId", text(thread_id))]))]))
    }

    fn start_turn(
        &self,
        workspace_id: &str,
        thread_id: &str,
        _prompt: &str,
        _model: Option<&str>,
        _effort: Option<&str>,
        _access_mode: Option<&str>,
    ) -> Result<JsonValue, String> {
        self.guard(workspace_id)?;
        self.calls.borrow_mut().push(format!("turn/start:{workspace_id}:{thread_id}"));
        Ok(object(vec![(
            "result",
            object(vec![("turnId", text(&format!("turn-{workspace_id}-{thread_id}")))]),
        )]))
    }
}

impl SupervisorReplyBackend for MockSessions {
    fn has_session(&self, workspace_id: &str) -> bool {
        self.connected.iter().any(|id| id == workspace_id)
    }

    fn send_response(&self, workspace_id: &str, request_id: &JsonValue, payload: &JsonValue) -> Result<(), String> {
        if self.fail_replies {
            return Err("pipe closed".to_string());
        }
        self.replies.borrow_mut().push((workspace_id.to_string(), request_id.clone(), payload.clone()));
        Ok(())
    }
}

fn waiting_job(id: &str, workspace_id: &str, thread_id: &str, request_id: &str) -> SupervisorJobState {
    SupervisorJobState {
        id: id.to_string(),
        workspace_id: workspace_id.to_string(),
        thread_id: Some(thread_id.to_string()),
        description: "Waiting subtask".to_string(),
        status: SupervisorJobStatus::WaitingForUser,
        requested_at_ms: 1,
        waiting_request_id: Some(text(request_id)),
        waiting_question_ids: vec!["question-1".to_string()],
        ..Default::default()
    }
}

fn send(
    supervisor_loop: &mut SupervisorLoop,
    executor: &mut SupervisorDispatchExecutor,
    sessions: &MockSessions,
    entries: &Vec<SupervisorWorkspaceEntry>,
    command: &str,
    at: i64,
) -> Vec<supervisor_core::model::SupervisorChatMessage> {
    supervisor_chat_send_core(
        supervisor_loop,
        executor,
        sessions,
        &sessions.connected,
        entries,
        &AppSettings::default(),
        command,
        at,
    )
    .expect("chat send")
    .messages
}

#[test]
fn supervisor_feed_core_filters_and_limits() {
    let mut supervisor_loop = SupervisorLoop::new(SupervisorLoopConfig::default());
    supervisor_loop.apply_app_server_event(
        "ws-1",
        &object(vec![
            ("id", JsonValue::Int(1)),
            ("method", text("workspace/requestApproval")),
            (
                "params",
                object(vec![("threadId", text("thread-1")), ("turnId", text("turn-1")), ("itemId", text("item-1"))]),
            ),
        ]),
        100,
    );
    supervisor_loop.apply_app_server_event(
        "ws-1",
        &message("turn/started", vec![("threadId", text("thread-1")), ("turnId", text("turn-2"))]),
        101,
    );

    let feed = supervisor_feed_core(&supervisor_loop, Some(1), false);
    assert_eq!(feed.total, 2);
    assert_eq!(feed.items.len(), 1);

    let needs_input_feed = supervisor_feed_core(&supervisor_loop, None, true);
    assert_eq!(needs_input_feed.total, 1);
    assert_eq!(needs_input_feed.items.len(), 1);
    assert!(needs_input_feed.items[0].needs_input);
    assert_eq!(feed.items[0].kind, "turn_started");
}

#[test]
fn supervisor_ack_signal_core_acknowledges_existing_signal() {
    let mut supervisor_loop = SupervisorLoop::new(SupervisorLoopConfig::default());
    supervisor_loop.apply_app_server_event(
        "ws-1",
        &object(vec![
            ("id", JsonValue::Int(1)),
            ("method", text("workspace/requestApproval")),
            (
                "params",
                object(vec![("threadId", text("thread-1")), ("turnId", text("turn-1")), ("itemId", text("item-1"))]),
            ),
        ]),
        100,
    );

    let signal_id = supervisor_snapshot_core(&supervisor_loop).signals.first().expect("signal should exist").id.clone();

    supervisor_ack_signal_core(&mut supervisor_loop, &signal_id, 200).expect("ack signal");

    let snapshot = supervisor_snapshot_core(&supervisor_loop);
    let signal = snapshot
        .signals
        .iter()
        .find(|signal| signal.id == signal_id)
        .expect("signal should remain in snapshot");
    assert_eq!(signal.acknowledged_at_ms, Some(200));
}

#[test]
fn supervisor_ack_signal_core_rejects_unknown_signal() {
    let mut supervisor_loop = SupervisorLoop::new(SupervisorLoopConfig::default());
    let error =
        supervisor_ack_signal_core(&mut supervisor_loop, "unknown", 100).expect_err("unknown signal should fail");
    assert_eq!(error, "signal `unknown` not found");
    let error = supervisor_ack_signal_core(&mut supervisor_loop, "  ", 100).expect_err("blank id should fail");
    assert_eq!(error, "signal_id is required");
}

#[test]
fn supervisor_chat_send_core_appends_user_and_system_messages() {
    let mut supervisor_loop = SupervisorLoop::new(SupervisorLoopConfig::default());
    let mut executor = SupervisorDispatchExecutor::new();
    let sessions = MockSessions::default();

    let messages = send(&mut supervisor_loop, &mut executor, &sessions, &vec![], "/help", 100);

    assert_eq!(messages.len(), 2);
    assert_eq!(messages[1].role, SupervisorChatMessageRole::User);
    assert_eq!(messages[1].text, "/help");
    assert_eq!(messages[0].role, SupervisorChatMessageRole::System);
    assert!(messages[0].text.contains("Supported commands"));
    assert_eq!(messages[1].created_at_ms, 100);
    assert!(messages[1].id.starts_with("chat-user-100-"));
    assert!(messages[0].id.starts_with("chat-system-100-"));

    let history = supervisor_chat_history_core(&supervisor_loop);
    assert_eq!(history.messages.len(), 2);
}

#[test]
fn supervisor_chat_send_core_converts_command_errors_to_chat_response() {
    let mut supervisor_loop = SupervisorLoop::new(SupervisorLoopConfig::default());
    let mut executor = SupervisorDispatchExecutor::new();
    let sessions = MockSessions::default();

    let messages = send(&mut supervisor_loop, &mut executor, &sessions, &vec![], "/dispatch --ws ws-1", 100);

    assert_eq!(messages.len(), 2);
    let system_message = messages.first().expect("system message");
    assert_eq!(system_message.role, SupervisorChatMessageRole::System);
    assert!(
        system_message.text.contains("`--prompt` is required"),
        "unexpected response text: {}",
        system_message.text
    );
    assert_eq!(system_message.text, "Error: `--prompt` is required\nRun `/help` for command usage.");
}

#[test]
fn supervisor_chat_send_core_routes_freeform_chat_without_slash() {
    let mut supervisor_loop = SupervisorLoop::new(SupervisorLoopConfig::default());
    let mut executor = SupervisorDispatchExecutor::new();
    let sessions = MockSessions::default();

    let messages = send(&mut supervisor_loop, &mut executor, &sessions, &vec![], "status", 200);

    let system_message = messages.first().expect("system message");
    assert_eq!(system_message.role, SupervisorChatMessageRole::System);
    assert!(
        system_message.text.contains("Global supervisor status:"),
        "unexpected response text: {}",
        system_message.text
    );
    assert_eq!(supervisor_snapshot_core(&supervisor_loop).activity_feed[0].kind, "route_decision");
}

#[test]
fn supervisor_chat_send_core_status_uses_workspace_names_from_registry() {
    let mut state = SupervisorState::default();
    state.workspaces.put(
        "ws-1".to_string(),
        SupervisorWorkspaceState { id: "ws-1".to_string(), name: String::new(), ..Default::default() },
    );
    let mut supervisor_loop = SupervisorLoop::from_state(SupervisorLoopConfig::default(), state);
    let mut executor = SupervisorDispatchExecutor::new();
    let sessions = MockSessions::default();
    let entries = vec![SupervisorWorkspaceEntry {
        id: "ws-1".to_string(),
        name: "CodexMonitor".to_string(),
        path: "/tmp/codex-monitor".to_string(),
        branch: None,
    }];

    let messages = send(&mut supervisor_loop, &mut executor, &sessions, &entries, "/status", 300);

    let system_message = messages.first().expect("system message");
    assert_eq!(system_message.role, SupervisorChatMessageRole::System);
    assert!(
        system_message.text.contains("`CodexMonitor` (`ws-1`)"),
        "unexpected response text: {}",
        system_message.text
    );
    assert_eq!(supervisor_snapshot_core(&supervisor_loop).workspaces.get("ws-1").unwrap().name, "");
}

#[test]
fn supervisor_chat_send_core_reports_when_freeform_has_no_connected_workspaces() {
    let mut supervisor_loop = SupervisorLoop::new(SupervisorLoopConfig::default());
    let mut executor = SupervisorDispatchExecutor::new();
    let sessions = MockSessions::default();

    let messages = send(&mut supervisor_loop, &mut executor, &sessions, &vec![], "run smoke tests", 100);

    let system_message = messages.first().expect("system message");
    assert_eq!(system_message.role, SupervisorChatMessageRole::System);
    assert!(
        system_message.text.contains("Need clarification before dispatching"),
        "unexpected response text: {}",
        system_message.text
    );
}

#[test]
fn apply_dispatch_outcome_events_bridges_final_result_into_supervisor_chat() {
    let mut supervisor_loop = SupervisorLoop::new(SupervisorLoopConfig::default());

    let dispatch_actions = vec![SupervisorDispatchAction {
        action_id: "job-1".to_string(),
        workspace_id: "ws-1".to_string(),
        thread_id: None,
        prompt: "Run smoke tests".to_string(),
        dedupe_key: Some("dedupe-1".to_string()),
        model: Some("gpt-5-mini".to_string()),
        effort: Some("high".to_string()),
        access_mode: Some("full-access".to_string()),
        route_kind: Some("workspace_delegate".to_string()),
        route_reason: Some("selected by routing score".to_string()),
        route_fallback: None,
    }];
    let dispatch_result = SupervisorDispatchBatchResult {
        results: vec![SupervisorDispatchActionResult {
            action_id: "job-1".to_string(),
            workspace_id: "ws-1".to_string(),
            dedupe_key: "dedupe-1".to_string(),
            status: SupervisorDispatchStatus::Dispatched,
            thread_id: Some("thread-1".to_string()),
            turn_id: Some("turn-1".to_string()),
            error: None,
            idempotent_replay: false,
        }],
    };

    apply_dispatch_outcome_events(&mut supervisor_loop, &dispatch_result, &dispatch_actions, now_timestamp_ms());

    supervisor_loop.apply_app_server_event(
        "ws-1",
        &message(
            "item/completed",
            vec![
                ("threadId", text("thread-1")),
                ("itemId", text("item-1")),
                (
                    "item",
                    object(vec![
                        ("id", text("item-1")),
                        ("type", text("agentMessage")),
                        ("text", text("Tests passed in workspace ws-1")),
                    ]),
                ),
            ],
        ),
        110,
    );
    supervisor_loop.apply_app_server_event(
        "ws-1",
        &message(
            "turn/completed",
            vec![
                ("threadId", text("thread-1")),
                ("turnId", text("turn-1")),
                ("summary", text("All checks completed")),
            ],
        ),
        111,
    );

    let snapshot = supervisor_snapshot_core(&supervisor_loop);
    let job = snapshot.jobs.get("job-1").expect("delegated job should exist");
    assert_eq!(job.status, SupervisorJobStatus::Completed);
    assert_eq!(job.route_kind.as_deref(), Some("workspace_delegate"));
    assert_eq!(job.model.as_deref(), Some("gpt-5-mini"));
    assert_eq!(job.effort.as_deref(), Some("high"));
    assert_eq!(job.access_mode.as_deref(), Some("full-access"));

    let chat = supervisor_chat_history_core(&supervisor_loop);
    assert!(
        chat.messages
            .iter()
            .any(|message| message.text.contains("Agent response: Tests passed in workspace ws-1")),
        "missing bridged agent response in supervisor chat"
    );
    assert!(
        chat.messages.iter().any(|message| message.text.contains("Subtask completed.")),
        "missing completion summary in supervisor chat"
    );
}

#[test]
fn supervisor_chat_send_core_disambiguates_reply_when_multiple_subtasks_wait() {
    let mut supervisor_loop = SupervisorLoop::new(SupervisorLoopConfig::default());
    let mut executor = SupervisorDispatchExecutor::new();
    let sessions = MockSessions::default();
    supervisor_loop.upsert_job(waiting_job("job-a", "ws-1", "thread-a", "request-a"));
    supervisor_loop.upsert_job(waiting_job("job-b", "ws-2", "thread-b", "request-b"));

    let messages = send(&mut supervisor_loop, &mut executor, &sessions, &vec![], "Use staging environment", 200);

    let system_message = messages.first().expect("system message");
    assert!(
        system_message.text.contains("Multiple child subtasks are waiting for input."),
        "unexpected response text: {}",
        system_message.text
    );
    assert!(
        system_message.text.contains("Reply with an explicit target: `@<subtask_id> your reply`."),
        "unexpected response text: {}",
        system_message.text
    );
    assert!(system_message.text.contains("- job-a (workspace: ws-1, thread: thread-a)"));
}

#[test]
fn supervisor_chat_send_core_routes_targeted_reply_to_waiting_subtask() {
    let mut supervisor_loop = SupervisorLoop::new(SupervisorLoopConfig::default());
    let mut executor = SupervisorDispatchExecutor::new();
    let sessions = MockSessions::with(&["ws-1"]);
    supervisor_loop.upsert_job(waiting_job("job-1", "ws-1", "thread-1", "request-1"));

    let messages =
        send(&mut supervisor_loop, &mut executor, &sessions, &vec![], "@job-1 Use staging endpoint", 300);

    let system_message = messages.first().expect("system message");
    assert!(
        system_message.text.contains("Reply routed to subtask `job-1` in workspace `ws-1`."),
        "unexpected response text: {}",
        system_message.text
    );

    let snapshot = supervisor_snapshot_core(&supervisor_loop);
    let job = snapshot.jobs.get("job-1").expect("job should exist");
    assert_eq!(job.status, SupervisorJobStatus::Running);
    assert!(job.waiting_request_id.is_none());
    assert!(job.waiting_question_ids.is_empty());
    let replies = sessions.replies.borrow();
    assert_eq!(replies.len(), 1);
    assert_eq!(replies[0].0, "ws-1");
    assert_eq!(replies[0].1, text("request-1"));
    assert_eq!(
        replies[0].2,
        object(vec![(
            "answers",
            object(vec![(
                "question-1",
                object(vec![("answers", JsonValue::Array(vec![text("Use staging endpoint")]))])
            )])
        )])
    );
    assert!(messages.iter().any(|m| m.role == SupervisorChatMessageRole::User
        && m.text == "@job-1 Use staging endpoint"));
}

#[test]
fn supervisor_chat_send_core_guides_when_targeted_subtask_is_not_waiting() {
    let mut supervisor_loop = SupervisorLoop::new(SupervisorLoopConfig::default());
    let mut executor = SupervisorDispatchExecutor::new();
    let sessions = MockSessions::default();
    supervisor_loop.upsert_job(SupervisorJobState {
        id: "job-1".to_string(),
        workspace_id: "ws-1".to_string(),
        thread_id: Some("thread-1".to_string()),
        description: "Completed subtask".to_string(),
        status: SupervisorJobStatus::Completed,
        requested_at_ms: 1,
        completed_at_ms: Some(2),
        ..Default::default()
    });

    let messages =
        send(&mut supervisor_loop, &mut executor, &sessions, &vec![], "@job-1 Continue with rollout", 400);

    let system_message = messages.first().expect("system message");
    assert!(
        system_message.text.contains("Subtask `job-1` is no longer waiting for user input."),
        "unexpected response text: {}",
        system_message.text
    );
}

#[test]
fn waiting_reply_happy_path_resolves_the_question() {
    let mut supervisor_loop = SupervisorLoop::new(SupervisorLoopConfig::default());
    let mut executor = SupervisorDispatchExecutor::new();
    let sessions = MockSessions::with(&["W"]);
    supervisor_loop.upsert_job(SupervisorJobState {
        status: SupervisorJobStatus::Running,
        waiting_request_id: None,
        waiting_question_ids: vec![],
        ..waiting_job("J", "W", "T", "R")
    });
    supervisor_loop.apply_app_server_event(
        "W",
        &object(vec![
            ("id", text("R")),
            ("method", text("item/tool/requestUserInput")),
            ("params", object(vec![("threadId", text("T")), ("question", text("Which environment?"))])),
        ]),
        10,
    );
    let messages = send(&mut supervisor_loop, &mut executor, &sessions, &vec![], "@J Use staging", 20);
    assert_eq!(sessions.replies.borrow().len(), 1);
    assert_eq!(sessions.replies.borrow()[0].1, text("R"));
    assert_eq!(
        sessions.replies.borrow()[0].2,
        object(vec![(
            "answers",
            object(vec![("response", object(vec![("answers", JsonValue::Array(vec![text("Use staging")]))]))])
        )])
    );
    let snapshot = supervisor_snapshot_core(&supervisor_loop);
    let job = snapshot.jobs.get("J").unwrap();
    assert_eq!(job.status, SupervisorJobStatus::Running);
    assert_eq!(job.waiting_request_id, None);
    assert_eq!(snapshot.open_questions.get("W:R").unwrap().resolved_at_ms, Some(20));
    assert!(messages.iter().any(|m| m.role == SupervisorChatMessageRole::User && m.text == "@J Use staging"));
    assert!(messages
        .iter()
        .any(|m| m.role == SupervisorChatMessageRole::System && m.text.starts_with("Reply routed to subtask `J` ")));
}

#[test]
fn reply_to_the_single_waiting_job_needs_no_target_and_failures_are_reported() {
    let mut supervisor_loop = SupervisorLoop::new(SupervisorLoopConfig::default());
    let mut executor = SupervisorDispatchExecutor::new();
    let mut sessions = MockSessions::with(&["ws-1"]);
    sessions.fail_replies = true;
    supervisor_loop.upsert_job(waiting_job("job-1", "ws-1", "thread-1", "request-1"));
    let messages = send(&mut supervisor_loop, &mut executor, &sessions, &vec![], "go ahead", 10);
    assert_eq!(
        messages[0].text,
        "Error: failed to deliver reply to subtask `job-1`: pipe closed\nRun `/help` for command usage."
    );
    let snapshot = supervisor_snapshot_core(&supervisor_loop);
    assert_eq!(snapshot.jobs.get("job-1").unwrap().status, SupervisorJobStatus::WaitingForUser);
    assert_eq!(snapshot.activity_feed[0].kind, "reply_delivery_failed");
    assert!(snapshot.activity_feed[0].needs_input);

    let offline = MockSessions::default();
    let messages = send(&mut supervisor_loop, &mut executor, &offline, &vec![], "go ahead", 11);
    assert_eq!(
        messages[0].text,
        "Error: workspace `ws-1` is not connected\nRun `/help` for command usage."
    );
    let messages = send(&mut supervisor_loop, &mut executor, &offline, &vec![], "@job-9 hello", 12);
    assert_eq!(messages[0].text, "Subtask `job-9` is not waiting for input. Waiting subtasks: job-1");
}

#[test]
fn blank_chat_line_is_refused() {
    let mut supervisor_loop = SupervisorLoop::new(SupervisorLoopConfig::default());
    let mut executor = SupervisorDispatchExecutor::new();
    let sessions = MockSessions::default();
    let outcome = supervisor_chat_send_core(
        &mut supervisor_loop,
        &mut executor,
        &sessions,
        &vec![],
        &vec![],
        &AppSettings::default(),
        "   ",
        1,
    );
    assert_eq!(outcome.map(|r| r.messages.len()), Err("command is required".to_string()));
    assert_eq!(supervisor_chat_history_core(&supervisor_loop).messages.len(), 0);
}

#[test]
fn freeform_message_is_dispatched_to_the_routed_workspace() {
    let mut state = SupervisorState::default();
    state.workspaces.put(
        "ws-1".to_string(),
        SupervisorWorkspaceState {
            id: "ws-1".to_string(),
            name: "Main".to_string(),
            connected: true,
            health: SupervisorHealth::Healthy,
            ..Default::default()
        },
    );
    let mut supervisor_loop = SupervisorLoop::from_state(SupervisorLoopConfig::default(), state);
    let mut executor = SupervisorDispatchExecutor::new();
    let sessions = MockSessions::with(&["ws-1"]);
    let messages = send(&mut supervisor_loop, &mut executor, &sessions, &vec![], "  run smoke tests  ", 50);
    assert_eq!(
        messages[0].text,
        "Sent task to 1 workspace(s): 1 succeeded, 0 failed.\nTask: run smoke tests\n- ws-1: started"
    );
    assert_eq!(*sessions.calls.borrow(), vec!["thread/start:ws-1", "turn/start:ws-1:thread-ws-1"]);
    let snapshot = supervisor_snapshot_core(&supervisor_loop);
    assert_eq!(snapshot.jobs.len(), 1);
    let job = snapshot.jobs.value_at(0);
    assert!(job.id.starts_with("chat-dispatch-50-"));
    assert!(job.id.ends_with("-1"));
    assert_eq!(job.status, SupervisorJobStatus::Running);
    assert_eq!(job.description, "run smoke tests");
    assert_eq!(job.route_kind.as_deref(), Some("workspace_delegate"));
    assert_eq!(job.route_target.as_deref(), Some("ws-1"));
    assert!(job.dedupe_key.as_deref().unwrap().starts_with("freeform:ws-1:"));
    assert_eq!(job.recent_events.len(), 3);
    assert_eq!(job.recent_events[0].kind, "queued");
    assert_eq!(job.recent_events[2].kind, "running");
    assert_eq!(snapshot.threads.get("ws-1:thread-ws-1").unwrap().active_turn_id.as_deref(), Some("turn-ws-1-thread-ws-1"));
    assert_eq!(executor.idempotency_snapshot().len(), 1);
}

#[test]
fn dispatch_core_rejects_bad_contracts_and_records_failures() {
    let mut supervisor_loop = SupervisorLoop::new(SupervisorLoopConfig::default());
    let mut executor = SupervisorDispatchExecutor::new();
    let sessions = MockSessions::default();
    let bad = object(vec![("version", text("v0")), ("actions", JsonValue::Array(vec![]))]);
    assert_eq!(
        supervisor_dispatch_core(&mut supervisor_loop, &mut executor, &sessions, &bad).map(|r| r.results.len()),
        Err("unsupported supervisor contract version `v0` (expected `supervisor.dispatch.v1`)".to_string())
    );
    let contract = object(vec![
        ("version", text("supervisor.dispatch.v1")),
        (
            "actions",
            JsonValue::Array(vec![object(vec![
                ("type", text("dispatch_turn")),
                ("action_id", text("a-1")),
                ("workspace_id", text("ws-down")),
                ("prompt", text("go")),
                ("thread_id", text("t-1")),
            ])]),
        ),
    ]);
    let batch = supervisor_dispatch_core(&mut supervisor_loop, &mut executor, &sessions, &contract).expect("batch");
    assert_eq!(batch.results[0].status, SupervisorDispatchStatus::Failed);
    assert_eq!(batch.results[0].error.as_deref(), Some("workspace `ws-down` is not connected"));
    let snapshot = supervisor_snapshot_core(&supervisor_loop);
    let job = snapshot.jobs.get("a-1").unwrap();
    assert_eq!(job.status, SupervisorJobStatus::Failed);
    assert_eq!(job.error.as_deref(), Some("workspace `ws-down` is not connected"));
    assert!(job.completed_at_ms.is_some());
    assert_eq!(snapshot.signals[0].message, "workspace `ws-down` is not connected");
    assert_eq!(snapshot.activity_feed[0].kind, "error");
}

#[test]
fn targeted_reply_needs_an_id_and_a_reply() {
    assert_eq!(
        parse_targeted_subtask_reply("  @job-1   Use  staging  "),
        Some(("job-1".to_string(), "Use  staging".to_string()))
    );
    assert_eq!(parse_targeted_subtask_reply("@job-1\tgo"), Some(("job-1".to_string(), "go".to_string())));
    assert_eq!(parse_targeted_subtask_reply("@job-1"), None);
    assert_eq!(parse_targeted_subtask_reply("@job-1   "), None);
    assert_eq!(parse_targeted_subtask_reply("@ job-1 go"), Some(("job-1".to_string(), "go".to_string())));
    assert_eq!(parse_targeted_subtask_reply("@"), None);
    assert_eq!(parse_targeted_subtask_reply("job-1 go"), None);
    assert_eq!(parse_targeted_subtask_reply(""), None);
}

#[test]
fn reply_plan_and_payload() {
    let mut supervisor_loop = SupervisorLoop::new(SupervisorLoopConfig::default());
    assert_eq!(plan_reply(&supervisor_loop, "hello"), SupervisorReplyPlan::NotAReply);
    assert_eq!(
        plan_reply(&supervisor_loop, "@job-9 hello"),
        SupervisorReplyPlan::Answer(
            "Subtask `job-9` is unknown. Run `/status` to inspect active subtasks.".to_string()
        )
    );
    supervisor_loop.upsert_job(waiting_job("job-1", "ws-1", "thread-1", "request-1"));
    match plan_reply(&supervisor_loop, "hello") {
        SupervisorReplyPlan::Deliver { job, reply_text } => {
            assert_eq!(job.id, "job-1");
            assert_eq!(reply_text, "hello");
        }
        other => panic!("unexpected plan {other:?}"),
    }
    assert_eq!(
        build_reply_payload(&vec!["q-1".to_string(), "q-2".to_string(), "q-1".to_string()], "yes"),
        object(vec![(
            "answers",
            object(vec![
                ("q-1", object(vec![("answers", JsonValue::Array(vec![text("yes")]))])),
                ("q-2", object(vec![("answers", JsonValue::Array(vec![text("yes")]))])),
            ])
        )])
    );
}

#[test]
fn route_metadata_merges_registry_sessions_and_state() {
    let mut state = SupervisorState::default();
    state.workspaces.put(
        "ws-b".to_string(),
        SupervisorWorkspaceState {
            id: "ws-b".to_string(),
            name: "State B".to_string(),
            connected: true,
            health: SupervisorHealth::Stale,
            ..Default::default()
        },
    );
    state.workspaces.put(
        "ws-z".to_string(),
        SupervisorWorkspaceState { id: "ws-z".to_string(), name: "Only state".to_string(), ..Default::default() },
    );
    let supervisor_loop = SupervisorLoop::from_state(SupervisorLoopConfig::default(), state);
    let entries = vec![
        SupervisorWorkspaceEntry {
            id: "ws-b".to_string(),
            name: "Registry B".to_string(),
            path: "/repo/b".to_string(),
            branch: Some("main".to_string()),
        },
        SupervisorWorkspaceEntry {
            id: "ws-a".to_string(),
            name: "Registry A".to_string(),
            path: " ".to_string(),
            branch: Some(" ".to_string()),
        },
    ];
    let metadata = collect_route_workspace_metadata(&supervisor_loop, &vec!["ws-a".to_string()], &entries);
    let ids: Vec<&str> = metadata.iter().map(|m| m.workspace_id.as_str()).collect();
    assert_eq!(ids, vec!["ws-a", "ws-b", "ws-z"]);
    assert!(metadata[0].available && metadata[0].connected);
    assert_eq!(metadata[0].health, SupervisorHealth::Healthy);
    assert_eq!(
        metadata[0].capabilities,
        vec!["thread_start", "thread_resume", "turn_start", "respond_to_server_request"]
    );
    assert!(!metadata[1].available && metadata[1].connected);
    assert_eq!(metadata[1].health, SupervisorHealth::Stale);
    assert_eq!(metadata[1].name, "Registry B");
    assert_eq!(metadata[1].capabilities, vec!["workspace_fs", "branch_context"]);
    assert!(!metadata[2].available && !metadata[2].connected);
    assert_eq!(metadata[2].path, "");
    assert!(metadata[2].capabilities.is_empty());
    let route = supervisor_core::routing::select_supervisor_route("go", &metadata, &AppSettings::default());
    let json = route_decision_value(&route);
    assert_eq!(json.get("kind"), Some(&text("workspace_delegate")));
    assert_eq!(json.get("workspace_id"), Some(&text("ws-a")));
    assert_eq!(json.get("local_tool"), Some(&JsonValue::Null));
}

#[test]
fn local_tools_answer_from_the_state() {
    let supervisor_loop = SupervisorLoop::new(SupervisorLoopConfig::default());
    assert!(execute_local_tool_route(&supervisor_loop, SupervisorLocalTool::Help)
        .unwrap()
        .starts_with("Supported commands:"));
    assert_eq!(
        execute_local_tool_route(&supervisor_loop, SupervisorLocalTool::Feed).unwrap(),
        "Activity feed: showing 0 of 0\n- no activity entries"
    );
    assert!(execute_local_tool_route(&supervisor_loop, SupervisorLocalTool::Status)
        .unwrap()
        .starts_with("Global supervisor status:"));
    assert_eq!(supervisor_state_path("/data"), "/data/supervisor-state.json");
    assert_eq!(supervisor_state_path("/data/"), "/data/supervisor-state.json");
    assert_eq!(supervisor_state_path(""), "/supervisor-state.json");
}

#[test]
fn feed_limit_defaults_to_one_hundred_and_is_capped_at_one_thousand() {
    let mut supervisor_loop =
        SupervisorLoop::new(SupervisorLoopConfig { activity_feed_limit: 1500, ..Default::default() });
    for index in 0..1200 {
        supervisor_loop.record_route_decision(&format!("r-{index}"), "m".to_string(), index, JsonValue::Null);
    }
    assert_eq!(supervisor_feed_core(&supervisor_loop, None, false).items.len(), 100);
    assert_eq!(supervisor_feed_core(&supervisor_loop, Some(5000), false).items.len(), 1000);
    assert_eq!(supervisor_feed_core(&supervisor_loop, Some(5000), false).total, 1200);
    assert_eq!(supervisor_feed_core(&supervisor_loop, Some(0), false).items.len(), 0);
    assert_eq!(supervisor_feed_core(&supervisor_loop, None, true).total, 0);
}

#[test]
fn reply_is_refused_before_anything_is_sent() {
    let mut supervisor_loop = SupervisorLoop::new(SupervisorLoopConfig::default());
    let sessions = MockSessions::with(&["ws-1"]);
    let mut hollow = waiting_job("job-1", "ws-1", "thread-1", "request-1");
    hollow.waiting_request_id = None;
    assert_eq!(
        deliver_reply_to_waiting_subtask(&mut supervisor_loop, &sessions, &hollow, "yes", 5),
        Err("subtask `job-1` no longer has a waiting request".to_string())
    );
    let waiting = waiting_job("job-1", "ws-1", "thread-1", "request-1");
    assert_eq!(
        deliver_reply_to_waiting_subtask(&mut supervisor_loop, &sessions, &waiting, "  ", 5),
        Err("reply text is required".to_string())
    );
    assert_eq!(
        deliver_reply_to_waiting_subtask(&mut supervisor_loop, &sessions, &waiting, "yes", 5),
        Err("subtask `job-1` is not tracked".to_string())
    );
    assert_eq!(sessions.replies.borrow().len(), 1);
    assert_eq!(supervisor_snapshot_core(&supervisor_loop), SupervisorState::default());
}

#[test]
fn delegate_route_without_a_workspace_is_refused() {
    let mut route =
        supervisor_core::routing::select_supervisor_route("go", &vec![], &AppSettings::default());
    route.kind = supervisor_core::routing::SupervisorRouteKind::WorkspaceDelegate;
    route.workspace_id = Some("  ".to_string());
    assert_eq!(
        freeform_outcome_of(route.clone(), "go", "token"),
        Err("route decision did not include target workspace".to_string())
    );
    route.workspace_id = Some(" ws-1 ".to_string());
    route.model = Some("gpt".to_string());
    match freeform_outcome_of(route, " go ", "token").expect("dispatch") {
        FreeformDispatchOutcome::Dispatch(request) => {
            assert_eq!(request.workspace_ids, vec!["ws-1"]);
            assert_eq!(request.prompt, "go");
            assert_eq!(request.dedupe_key.as_deref(), Some("freeform:ws-1:token"));
            assert_eq!(request.model.as_deref(), Some("gpt"));
            assert_eq!(request.route_kind.as_deref(), Some("workspace_delegate"));
        }
        other => panic!("unexpected outcome {other:?}"),
    }
}
