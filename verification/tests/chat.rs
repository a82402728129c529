use supervisor_core::chat::{
    ensure_no_extra_args, parse_access_mode, parse_ack_command, parse_command_tokens, parse_dispatch_command,
    parse_feed_command, parse_status_command, parse_supervisor_chat_command, split_comma_items,
    SupervisorChatCommand, SupervisorChatDispatchRequest,
};
use supervisor_core::chat_format::{
    blockers_label, build_dispatch_contract, collect_workspace_thread_summaries, find_thread_summary,
    format_ack_message, format_feed_message, format_help_message, format_route_clarification,
    format_status_message, health_label, join_lines, thread_status_label, workspace_summary_label,
};
use supervisor_core::contract::parse_supervisor_action_contract_value;
use supervisor_core::json::JsonValue;
use supervisor_core::model::{
    SupervisorActivityEntry, SupervisorHealth, SupervisorOpenQuestion, SupervisorPendingApproval,
    SupervisorSignal, SupervisorSignalKind, SupervisorState, SupervisorThreadState,
    SupervisorThreadStatus, SupervisorWorkspaceState,
};
use supervisor_core::routing::{select_supervisor_route, AppSettings};

fn words(items: &[&str]) -> Vec<String> {
    items.iter().map(|s| s.to_string()).collect()
}

fn state_with_workspace() -> SupervisorState {
    let mut state = SupervisorState::default();
    state.workspaces.put(
        "ws-1".to_string(),
        SupervisorWorkspaceState {
            id: "ws-1".to_string(),
            name: "Workspace 1".to_string(),
            connected: true,
            current_task: Some("Handle alert".to_string()),
            health: SupervisorHealth::Healthy,
            ..Default::default()
        },
    );
    state
}

fn activity(id: &str, kind: &str, message: &str, at: i64, thread_id: &str) -> SupervisorActivityEntry {
    SupervisorActivityEntry {
        id: id.to_string(),
        kind: kind.to_string(),
        message: message.to_string(),
        created_at_ms: at,
        workspace_id: Some("ws-1".to_string()),
        thread_id: Some(thread_id.to_string()),
        needs_input: false,
        metadata: JsonValue::Null,
    }
}

#[test]
fn parses_dispatch_command() {
    let command = parse_supervisor_chat_command(
        "/dispatch --ws ws-1,ws-2 --prompt \"run tests\" --thread thread-7 --dedupe d-1 --model gpt-5-mini --effort high --access-mode full-access",
    )
    .expect("parse command");

    let SupervisorChatCommand::Dispatch(payload) = command else {
        panic!("expected dispatch command");
    };

    assert_eq!(payload.workspace_ids, vec!["ws-1".to_string(), "ws-2".to_string()]);
    assert_eq!(payload.prompt, "run tests");
    assert_eq!(payload.thread_id.as_deref(), Some("thread-7"));
    assert_eq!(payload.dedupe_key.as_deref(), Some("d-1"));
    assert_eq!(payload.model.as_deref(), Some("gpt-5-mini"));
    assert_eq!(payload.effort.as_deref(), Some("high"));
    assert_eq!(payload.access_mode.as_deref(), Some("full-access"));
    assert!(payload.route_kind.is_none());
    assert!(payload.route_reason.is_none());
    assert!(payload.route_fallback.is_none());
}

#[test]
fn parses_ack_status_feed_and_help_commands() {
    assert_eq!(
        parse_supervisor_chat_command("/ack signal-1").expect("ack"),
        SupervisorChatCommand::Ack { signal_id: "signal-1".to_string() }
    );
    assert_eq!(
        parse_supervisor_chat_command("/status ws-1").expect("status"),
        SupervisorChatCommand::Status { workspace_id: Some("ws-1".to_string()), thread_id: None }
    );
    assert_eq!(
        parse_supervisor_chat_command("/статус ws-1").expect("status alias"),
        SupervisorChatCommand::Status { workspace_id: Some("ws-1".to_string()), thread_id: None }
    );
    assert_eq!(
        parse_supervisor_chat_command("/status ws-1 thread-2").expect("thread status"),
        SupervisorChatCommand::Status {
            workspace_id: Some("ws-1".to_string()),
            thread_id: Some("thread-2".to_string()),
        }
    );
    assert_eq!(
        parse_supervisor_chat_command("/status --thread thread-2").expect("thread status without workspace"),
        SupervisorChatCommand::Status { workspace_id: None, thread_id: Some("thread-2".to_string()) }
    );
    assert_eq!(
        parse_supervisor_chat_command("/feed needs_input").expect("feed"),
        SupervisorChatCommand::Feed { needs_input_only: true }
    );
    assert_eq!(parse_supervisor_chat_command("/help").expect("help"), SupervisorChatCommand::Help);
}

#[test]
fn rejects_invalid_commands() {
    let error = parse_supervisor_chat_command("status").expect_err("commands without slash should fail");
    assert!(error.contains("commands must start with `/`"));

    let error =
        parse_supervisor_chat_command("/dispatch --ws ws-1").expect_err("dispatch without prompt should fail");
    assert!(error.contains("`--prompt` is required"));

    let error = parse_supervisor_chat_command("/dispatch --ws ws-1 --prompt run --access-mode admin")
        .expect_err("dispatch with invalid access mode should fail");
    assert!(error.contains("`--access-mode` must be one of"));

    let error = parse_supervisor_chat_command("/feed unknown").expect_err("invalid feed argument");
    assert!(error.contains("usage: /feed [needs_input]"));
}

#[test]
fn formats_global_status_message() {
    let state = state_with_workspace();

    let message = format_status_message(&state, None, None).expect("status");
    assert!(message.contains("Global supervisor status:"));
    assert!(message.contains("ws-1"));
    assert!(message.contains("Workspace 1"));
    assert!(message.contains("- threads: 0 active"));
    assert!(message.contains("- threads_detail: none"));
    assert_eq!(
        message,
        "Global supervisor status:\n- workspaces: 1\n- threads: 0\n- jobs: 0\n- pending_signals: 0\n- pending_approvals: 0\n- open_questions: 0\n- workspaces_detail:\n  - `Workspace 1` (`ws-1`) (healthy): Handle alert\n    - threads: 0 active\n    - threads_detail: none"
    );
}

#[test]
fn formats_status_message_with_workspace_thread_details_and_limit() {
    let mut state = state_with_workspace();
    for index in 0..12 {
        state.threads.put(
            format!("ws-1:thread-{index}"),
            SupervisorThreadState {
                id: format!("thread-{index}"),
                workspace_id: "ws-1".to_string(),
                name: Some(format!("Thread {index}")),
                status: if index == 11 {
                    SupervisorThreadStatus::WaitingInput
                } else {
                    SupervisorThreadStatus::Running
                },
                last_activity_at_ms: Some(1_000 + index as i64),
                ..Default::default()
            },
        );
    }
    state.activity_feed = vec![
        activity("activity-1", "turn_started", "started", 10, "thread-11"),
        activity("activity-2", "turn_completed", "completed", 11, "thread-11"),
        activity("activity-3", "item_started", "item", 12, "thread-10"),
    ];
    state.signals = vec![
        SupervisorSignal {
            id: "signal-1".to_string(),
            kind: SupervisorSignalKind::NeedsApproval,
            workspace_id: Some("ws-1".to_string()),
            thread_id: Some("thread-11".to_string()),
            job_id: None,
            message: "approval".to_string(),
            created_at_ms: 12,
            acknowledged_at_ms: None,
            context: JsonValue::Null,
        },
        SupervisorSignal {
            id: "signal-2".to_string(),
            kind: SupervisorSignalKind::NeedsApproval,
            workspace_id: Some("ws-1".to_string()),
            thread_id: Some("thread-10".to_string()),
            job_id: None,
            message: "acknowledged".to_string(),
            created_at_ms: 11,
            acknowledged_at_ms: Some(13),
            context: JsonValue::Null,
        },
    ];
    state.open_questions.put(
        "q-1".to_string(),
        SupervisorOpenQuestion {
            id: "q-1".to_string(),
            workspace_id: "ws-1".to_string(),
            thread_id: "thread-11".to_string(),
            question: "Proceed?".to_string(),
            created_at_ms: 13,
            resolved_at_ms: None,
            context: JsonValue::Null,
        },
    );
    state.pending_approvals.put(
        "ws-1:1".to_string(),
        SupervisorPendingApproval {
            request_key: "ws-1:1".to_string(),
            workspace_id: "ws-1".to_string(),
            thread_id: Some("thread-11".to_string()),
            turn_id: None,
            item_id: None,
            request_id: "1".to_string(),
            method: "workspace/requestApproval".to_string(),
            params: JsonValue::Null,
            created_at_ms: 13,
            resolved_at_ms: None,
        },
    );

    let message = format_status_message(&state, None, None).expect("status");
    assert!(message.contains("- threads: 12 active"));
    assert!(message.contains("- threads_detail (showing 10 of 12):"));
    assert!(message.contains(
        "`Thread 11` (`thread-11`) | status: waiting_input | last_activity_at_ms: 1011 | messages: 2 | unread: 3"
    ));
    assert!(message.contains("... and 2 more active thread(s)"));
    let newest = message.find("`Thread 11` (`thread-11`)").expect("newest");
    let older = message.find("`Thread 10` (`thread-10`)").expect("older");
    assert!(newest < older);
}

#[test]
fn formats_workspace_status_message_with_thread_details() {
    let mut state = state_with_workspace();
    state.threads.put(
        "ws-1:thread-1".to_string(),
        SupervisorThreadState {
            id: "thread-1".to_string(),
            workspace_id: "ws-1".to_string(),
            name: Some("Ops".to_string()),
            status: SupervisorThreadStatus::Running,
            last_activity_at_ms: Some(100),
            ..Default::default()
        },
    );
    state.activity_feed = vec![activity("activity-1", "turn_started", "started", 10, "thread-1")];

    let message = format_status_message(&state, Some("ws-1"), None).expect("status");
    assert!(message.contains("Status for workspace"));
    assert!(message.contains("- threads: 1"));
    assert!(message.contains("- threads_detail (showing 1 of 1):"));
    assert!(message
        .contains("`Ops` (`thread-1`) | status: running | last_activity_at_ms: 100 | messages: 1 | unread: 0"));
    assert_eq!(
        message,
        "Status for workspace `Workspace 1` (`ws-1`):\n- connected: yes\n- health: healthy\n- current_task: Handle alert\n- next_step: pending update\n- last_activity_at_ms: none\n- blockers: none\n- threads: 1\n- threads_detail (showing 1 of 1):\n  - `Ops` (`thread-1`) | status: running | last_activity_at_ms: 100 | messages: 1 | unread: 0\n- jobs: 0\n- pending_signals: 0"
    );
}

#[test]
fn formats_thread_status_message() {
    let mut state = state_with_workspace();
    state.threads.put(
        "ws-1:thread-7".to_string(),
        SupervisorThreadState {
            id: "thread-7".to_string(),
            workspace_id: "ws-1".to_string(),
            name: Some("Ops".to_string()),
            status: SupervisorThreadStatus::WaitingInput,
            current_task: Some("Need approval".to_string()),
            last_activity_at_ms: Some(105),
            next_expected_step: Some("Reply to prompt".to_string()),
            blockers: vec!["human input".to_string()],
            active_turn_id: Some("turn-7".to_string()),
        },
    );
    state.activity_feed = vec![activity("activity-1", "turn_started", "started", 10, "thread-7")];

    let message = format_status_message(&state, Some("ws-1"), Some("thread-7")).expect("thread status");
    assert!(message.contains("Status for thread `Ops` (`thread-7`)"));
    assert!(message.contains("- status: waiting_input"));
    assert!(message.contains("- current_task: Need approval"));
    assert!(message.contains("- next_step: Reply to prompt"));
    assert!(message.contains("- last_activity_at_ms: 105"));
    assert!(message.contains("- blockers: human input"));
    assert!(message.contains("- messages: 1"));
    assert!(message.contains("- unread: 0"));
    assert!(message.contains("- active_turn_id: turn-7"));
    let without_workspace = format_status_message(&state, None, Some(" thread-7 ")).expect("thread status");
    assert_eq!(without_workspace, message);
}

#[test]
fn status_refuses_unknown_workspaces_and_threads() {
    let mut state = state_with_workspace();
    for ws in ["ws-1", "ws-2"] {
        state.threads.put(
            format!("{ws}:shared"),
            SupervisorThreadState { id: "shared".to_string(), workspace_id: ws.to_string(), ..Default::default() },
        );
    }
    assert_eq!(
        format_status_message(&state, Some("ws-9"), None),
        Err("workspace `ws-9` not found".to_string())
    );
    assert_eq!(format_status_message(&state, None, Some("t-9")), Err("thread `t-9` not found".to_string()));
    assert_eq!(
        format_status_message(&state, Some("ws-1"), Some("t-9")),
        Err("thread `t-9` not found in workspace `ws-1`".to_string())
    );
    assert_eq!(
        format_status_message(&state, None, Some("shared")),
        Err("thread `shared` exists in multiple workspaces; use `/status <workspace_id> --thread shared`"
            .to_string())
    );
    assert!(format_status_message(&state, Some("ws-2"), Some("shared")).is_ok());
    assert_eq!(find_thread_summary(&state, Some("ws-2"), "shared").unwrap().workspace_id, "ws-2");
    assert_eq!(collect_workspace_thread_summaries(&state, "ws-2").len(), 1);
    assert!(format_status_message(&state, Some("  "), Some("  ")).unwrap().starts_with("Global supervisor status:"));
}

#[test]
fn global_status_lists_workspaces_by_key() {
    let mut state = SupervisorState::default();
    for id in ["ws-b", "ws-c", "ws-a"] {
        state.workspaces.put(
            id.to_string(),
            SupervisorWorkspaceState { id: id.to_string(), name: id.to_string(), ..Default::default() },
        );
    }
    let message = format_status_message(&state, None, None).expect("status");
    let a = message.find("`ws-a`").unwrap();
    let b = message.find("`ws-b`").unwrap();
    let c = message.find("`ws-c`").unwrap();
    assert!(a < b && b < c);
    assert!(message.contains("  - `ws-a` (healthy): idle"));
    let empty = format_status_message(&SupervisorState::default(), None, None).unwrap();
    assert!(empty.ends_with("- workspaces_detail: none"));
}

#[test]
fn dispatch_flags_are_checked_one_by_one() {
    assert_eq!(
        parse_dispatch_command(&words(&["--ws"])),
        Err("missing value for `--ws`".to_string())
    );
    assert_eq!(
        parse_dispatch_command(&words(&["--ws", " , "])),
        Err("`--ws` requires at least one workspace id".to_string())
    );
    assert_eq!(
        parse_dispatch_command(&words(&["--prompt", " "])),
        Err("`--prompt` cannot be empty".to_string())
    );
    assert_eq!(
        parse_dispatch_command(&words(&["--thread", ""])),
        Err("`--thread` cannot be empty".to_string())
    );
    assert_eq!(
        parse_dispatch_command(&words(&["--dedupe", ""])),
        Err("`--dedupe` cannot be empty".to_string())
    );
    assert_eq!(parse_dispatch_command(&words(&["--model", ""])), Err("`--model` cannot be empty".to_string()));
    assert_eq!(
        parse_dispatch_command(&words(&["--effort", ""])),
        Err("`--effort` cannot be empty".to_string())
    );
    assert_eq!(
        parse_dispatch_command(&words(&["--access", ""])),
        Err("`--access-mode` cannot be empty".to_string())
    );
    assert_eq!(
        parse_dispatch_command(&words(&["--fast", "yes"])),
        Err("unknown `/dispatch` flag `--fast` (supported: --ws --prompt --thread --dedupe --model --effort --access-mode)"
            .to_string())
    );
    assert_eq!(parse_dispatch_command(&words(&["--prompt", "x"])), Err("`--ws` is required".to_string()));
    assert_eq!(parse_dispatch_command(&words(&[])), Err("`--ws` is required".to_string()));
    let request =
        parse_dispatch_command(&words(&["--ws", " a , ,b", "--access", " read-only ", "--prompt", " go ", "--ws", "c"]))
            .expect("request");
    assert_eq!(request.workspace_ids, vec!["c"]);
    assert_eq!(request.prompt, "go");
    assert_eq!(request.access_mode.as_deref(), Some("read-only"));
    assert_eq!(split_comma_items(" a , ,b,"), vec!["a", "b"]);
    assert_eq!(parse_access_mode("current"), Ok("current".to_string()));
    assert!(parse_access_mode("Current").is_err());
}

#[test]
fn ack_status_feed_and_help_arguments_are_checked() {
    assert_eq!(parse_ack_command(&words(&[])), Err("usage: /ack <signal_id>".to_string()));
    assert_eq!(parse_ack_command(&words(&["a", "b"])), Err("usage: /ack <signal_id>".to_string()));
    assert_eq!(parse_ack_command(&words(&["  "])), Err("usage: /ack <signal_id>".to_string()));
    assert_eq!(parse_ack_command(&words(&[" s-1 "])), Ok("s-1".to_string()));
    let usage = "usage: /status [workspace_id] [thread_id] | /status [workspace_id] --thread <thread_id>";
    assert_eq!(parse_status_command(&words(&[])), Ok((None, None)));
    assert_eq!(parse_status_command(&words(&[" "])), Ok((None, None)));
    assert_eq!(parse_status_command(&words(&["--thread"])), Err(usage.to_string()));
    assert_eq!(parse_status_command(&words(&["--thread", " "])), Err(usage.to_string()));
    assert_eq!(parse_status_command(&words(&["ws", "--thread"])), Err(usage.to_string()));
    assert_eq!(
        parse_status_command(&words(&["ws", "--thread", "t"])),
        Ok((Some("ws".to_string()), Some("t".to_string())))
    );
    assert_eq!(parse_status_command(&words(&["ws", "x", "t"])), Err(usage.to_string()));
    assert_eq!(parse_status_command(&words(&["a", "b", "c", "d"])), Err(usage.to_string()));
    assert_eq!(parse_feed_command(&words(&[])), Ok(false));
    assert_eq!(parse_feed_command(&words(&[" "])), Ok(false));
    assert_eq!(parse_feed_command(&words(&["a", "b"])), Err("usage: /feed [needs_input]".to_string()));
    assert_eq!(ensure_no_extra_args("/help", &words(&[])), Ok(()));
    assert_eq!(ensure_no_extra_args("/help", &words(&["x"])), Err("usage: /help".to_string()));
    assert_eq!(parse_command_tokens(&words(&[])), Err("command is required".to_string()));
    assert_eq!(
        parse_command_tokens(&words(&["/nope", "x"])),
        Err("unknown command `/nope` (run `/help` for usage)".to_string())
    );
    assert_eq!(parse_supervisor_chat_command("/help me"), Err("usage: /help".to_string()));
    assert_eq!(parse_supervisor_chat_command("   "), Err("command is required".to_string()));
    assert_eq!(
        parse_supervisor_chat_command("/dispatch --prompt \"open"),
        Err("invalid command syntax: missing closing quote".to_string())
    );
    assert_eq!(
        parse_supervisor_chat_command("  /ack 'signal one'  "),
        Ok(SupervisorChatCommand::Ack { signal_id: "signal one".to_string() })
    );
}

#[test]
fn small_labels_and_messages() {
    assert_eq!(format_ack_message("s-1"), "Signal `s-1` acknowledged.");
    assert_eq!(blockers_label(&vec![]), "none");
    assert_eq!(blockers_label(&words(&["a", "b"])), "a, b");
    assert_eq!(health_label(&SupervisorHealth::Stale), "stale");
    assert_eq!(health_label(&SupervisorHealth::Disconnected), "disconnected");
    assert_eq!(thread_status_label(&SupervisorThreadStatus::WaitingInput), "waiting_input");
    assert_eq!(thread_status_label(&SupervisorThreadStatus::Stalled), "stalled");
    assert_eq!(thread_status_label(&SupervisorThreadStatus::Idle), "idle");
    let mut workspace = SupervisorWorkspaceState { id: "ws".to_string(), ..Default::default() };
    assert_eq!(workspace_summary_label(&workspace), "`ws`");
    workspace.name = " ws ".to_string();
    assert_eq!(workspace_summary_label(&workspace), "`ws`");
    workspace.name = " Name ".to_string();
    assert_eq!(workspace_summary_label(&workspace), "`Name` (`ws`)");
    assert_eq!(join_lines(&vec![]), "");
    assert_eq!(join_lines(&words(&["a"])), "a");
    assert_eq!(join_lines(&words(&["a", "", "b"])), "a\n\nb");
    let help = format_help_message();
    assert!(help.starts_with("Supported commands:\n- /dispatch --ws ws-1,ws-2 --prompt \"...\""));
    assert!(help.contains("\n\nFree-form chat:\n"));
    assert_eq!(help.lines().count(), 12);
}

#[test]
fn feed_message_lists_entries_or_says_there_are_none() {
    assert_eq!(format_feed_message(&vec![], 0, true), "Activity feed (needs input): showing 0 of 0\n- no activity entries");
    let mut second = activity("a-2", "error", "boom", 12, "t");
    second.workspace_id = None;
    second.thread_id = None;
    second.needs_input = true;
    let message = format_feed_message(&vec![activity("a-1", "turn_started", "started", 10, "t"), second], 7, false);
    assert_eq!(
        message,
        "Activity feed: showing 2 of 7\n- [turn_started] started (ws: ws-1, thread: t, at: 10)\n- [error] boom (ws: global, thread: -, at: 12) [needs_input]"
    );
}

#[test]
fn dispatch_contract_built_from_a_request_is_accepted() {
    let request = SupervisorChatDispatchRequest {
        workspace_ids: words(&["ws-1", "ws-2"]),
        prompt: "run".to_string(),
        thread_id: None,
        dedupe_key: None,
        model: Some("gpt".to_string()),
        effort: None,
        access_mode: Some("current".to_string()),
        route_kind: Some("workspace_delegate".to_string()),
        route_reason: None,
        route_fallback: None,
    };
    let contract = build_dispatch_contract(&request, "chat-dispatch-5-abc");
    let validated = parse_supervisor_action_contract_value(&contract).expect("accepted");
    assert_eq!(validated.dispatch_actions.len(), 2);
    assert_eq!(validated.dispatch_actions[0].action_id, "chat-dispatch-5-abc-1");
    assert_eq!(validated.dispatch_actions[1].action_id, "chat-dispatch-5-abc-2");
    assert_eq!(validated.dispatch_actions[1].workspace_id, "ws-2");
    assert_eq!(validated.dispatch_actions[0].model.as_deref(), Some("gpt"));
    assert_eq!(validated.dispatch_actions[0].route_kind.as_deref(), Some("workspace_delegate"));
    assert_eq!(validated.dispatch_actions[0].thread_id, None);
}

#[test]
fn clarification_message_lists_reason_question_and_options() {
    let route = select_supervisor_route("do something", &vec![], &AppSettings::default());
    assert_eq!(
        format_route_clarification(&route),
        "Need clarification before dispatching.\nReason: No connected workspace is currently available for delegation.\nQuestion: Connect a workspace or explicitly route with `/dispatch --ws ...`."
    );
}
