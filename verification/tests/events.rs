use supervisor_core::events::{
    extract_field, extract_request_id, extract_task, normalize_app_server_event, request_key, SupervisorEvent,
};
use supervisor_core::json::JsonValue;

fn text(value: &str) -> JsonValue {
    JsonValue::Text(value.to_string())
}

fn object(members: Vec<(&str, JsonValue)>) -> JsonValue {
    JsonValue::Object(members.into_iter().map(|(k, v)| (k.to_string(), v)).collect())
}

#[test]
fn normalizes_turn_started_event() {
    let event = normalize_app_server_event(
        "ws-1",
        &object(vec![
            ("method", text("turn/started")),
            (
                "params",
                object(vec![(
                    "turn",
                    object(vec![
                        ("id", text("turn-1")),
                        ("threadId", text("thread-1")),
                        ("summary", text("Implement feature")),
                    ]),
                )]),
            ),
        ]),
        100,
    );

    assert_eq!(
        event,
        Some(SupervisorEvent::TurnStarted {
            workspace_id: "ws-1".to_string(),
            thread_id: "thread-1".to_string(),
            turn_id: "turn-1".to_string(),
            task: Some("Implement feature".to_string()),
            received_at_ms: 100,
        })
    );
}

#[test]
fn normalizes_item_completed_event() {
    let event = normalize_app_server_event(
        "ws-2",
        &object(vec![
            ("method", text("item/completed")),
            (
                "params",
                object(vec![
                    ("thread_id", text("thread-2")),
                    (
                        "item",
                        object(vec![
                            ("id", text("item-2")),
                            ("type", text("agentMessage")),
                            ("title", text("Answer user")),
                        ]),
                    ),
                ]),
            ),
        ]),
        222,
    );

    assert_eq!(
        event,
        Some(SupervisorEvent::ItemCompleted {
            workspace_id: "ws-2".to_string(),
            thread_id: "thread-2".to_string(),
            item_id: "item-2".to_string(),
            item_type: Some("agentMessage".to_string()),
            task: Some("Answer user".to_string()),
            item_content: None,
            received_at_ms: 222,
        })
    );
}

#[test]
fn normalizes_approval_request_event() {
    let params = object(vec![
        ("threadId", text("thread-3")),
        ("turnId", text("turn-3")),
        ("itemId", text("item-3")),
        ("mode", text("full")),
    ]);
    let event = normalize_app_server_event(
        "ws-3",
        &object(vec![
            ("id", JsonValue::Int(7)),
            ("method", text("workspace/requestApproval")),
            ("params", params.clone()),
        ]),
        333,
    );

    assert_eq!(
        event,
        Some(SupervisorEvent::ApprovalRequested {
            workspace_id: "ws-3".to_string(),
            request_key: "ws-3:7".to_string(),
            request_id: "7".to_string(),
            method: "workspace/requestApproval".to_string(),
            thread_id: Some("thread-3".to_string()),
            turn_id: Some("turn-3".to_string()),
            item_id: Some("item-3".to_string()),
            params,
            received_at_ms: 333,
        })
    );
}

#[test]
fn normalizes_error_event() {
    let event = normalize_app_server_event(
        "ws-4",
        &object(vec![
            ("method", text("error")),
            (
                "params",
                object(vec![
                    ("threadId", text("thread-4")),
                    ("turnId", text("turn-4")),
                    ("willRetry", JsonValue::Bool(true)),
                    ("error", object(vec![("message", text("network timeout"))])),
                ]),
            ),
        ]),
        444,
    );

    assert_eq!(
        event,
        Some(SupervisorEvent::Error {
            workspace_id: "ws-4".to_string(),
            thread_id: Some("thread-4".to_string()),
            turn_id: Some("turn-4".to_string()),
            message: "network timeout".to_string(),
            will_retry: true,
            received_at_ms: 444,
        })
    );
}

#[test]
fn ignores_unmapped_events() {
    let event = normalize_app_server_event(
        "ws-9",
        &object(vec![
            ("method", text("codex/connected")),
            ("params", object(vec![("workspaceId", text("ws-9"))])),
        ]),
        999,
    );

    assert_eq!(event, None);
}

#[test]
fn normalizes_user_input_request_event() {
    let params = object(vec![
        ("threadId", text("thread-2")),
        ("turnId", text("turn-2")),
        (
            "questions",
            JsonValue::Array(vec![
                object(vec![("id", text("q-1")), ("question", text("Restart?"))]),
                object(vec![("id", text(" q-2 ")), ("question", text("Which host?"))]),
                object(vec![("question", text("  "))]),
            ]),
        ),
    ]);
    let event = normalize_app_server_event(
        "ws-2",
        &object(vec![
            ("id", text(" req-7 ")),
            ("method", text("item/tool/requestUserInput")),
            ("params", params.clone()),
        ]),
        20,
    );
    assert_eq!(
        event,
        Some(SupervisorEvent::UserInputRequested {
            workspace_id: "ws-2".to_string(),
            request_key: "ws-2:req-7".to_string(),
            request_id: "req-7".to_string(),
            request_id_value: text(" req-7 "),
            thread_id: Some("thread-2".to_string()),
            turn_id: Some("turn-2".to_string()),
            item_id: None,
            question: "Restart?\nWhich host?".to_string(),
            question_ids: vec!["q-1".to_string(), "q-2".to_string()],
            params,
            received_at_ms: 20,
        })
    );
}

#[test]
fn drops_events_that_lack_what_they_need() {
    let no_thread = object(vec![
        ("method", text("turn/started")),
        ("params", object(vec![("turnId", text("turn-1"))])),
    ]);
    assert_eq!(normalize_app_server_event("ws", &no_thread, 1), None);
    let no_item = object(vec![
        ("method", text("item/started")),
        ("params", object(vec![("threadId", text("t"))])),
    ]);
    assert_eq!(normalize_app_server_event("ws", &no_item, 1), None);
    let blank_error = object(vec![
        ("method", text("error")),
        ("params", object(vec![("message", text("   "))])),
    ]);
    assert_eq!(normalize_app_server_event("ws", &blank_error, 1), None);
    let no_id = object(vec![("method", text("x/requestApproval")), ("params", object(vec![]))]);
    assert_eq!(normalize_app_server_event("ws", &no_id, 1), None);
    assert_eq!(normalize_app_server_event("ws", &object(vec![("method", text("  "))]), 1), None);
    assert_eq!(normalize_app_server_event("ws", &object(vec![("method", JsonValue::Int(1))]), 1), None);
    assert_eq!(normalize_app_server_event("ws", &text("turn/started"), 1), None);
    assert_eq!(normalize_app_server_event("ws", &object(vec![("method", text("unknown"))]), 1), None);
}

#[test]
fn error_event_falls_back_to_the_top_level_message_and_defaults() {
    let event = normalize_app_server_event(
        "ws",
        &object(vec![
            ("method", text(" error ")),
            ("params", object(vec![("message", text(" broke ")), ("will_retry", text("yes"))])),
        ]),
        5,
    );
    assert_eq!(
        event,
        Some(SupervisorEvent::Error {
            workspace_id: "ws".to_string(),
            thread_id: None,
            turn_id: None,
            message: "broke".to_string(),
            will_retry: false,
            received_at_ms: 5,
        })
    );
}

#[test]
fn field_helpers_trim_and_pick_in_order() {
    let map = object(vec![
        ("a", text("  x ")),
        ("b", text("   ")),
        ("n", JsonValue::Int(4)),
        ("preview", text("p")),
        ("title", text("t")),
    ]);
    assert_eq!(extract_field(&map, "a"), Some("x".to_string()));
    assert_eq!(extract_field(&map, "b"), None);
    assert_eq!(extract_field(&map, "n"), None);
    assert_eq!(extract_field(&map, "missing"), None);
    assert_eq!(extract_task(&map), Some("p".to_string()));
    assert_eq!(extract_request_id(&object(vec![("id", JsonValue::Int(-12))])), Some("-12".to_string()));
    assert_eq!(extract_request_id(&object(vec![("id", JsonValue::Uint(u64::MAX))])), Some(u64::MAX.to_string()));
    assert_eq!(extract_request_id(&object(vec![("id", JsonValue::Int(0))])), Some("0".to_string()));
    assert_eq!(extract_request_id(&object(vec![("id", JsonValue::Bool(true))])), None);
    assert_eq!(extract_request_id(&object(vec![])), None);
    assert_eq!(request_key("ws-1", "42"), "ws-1:42");
}
