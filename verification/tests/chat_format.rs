use supervisor_core::chat::SupervisorChatDispatchRequest;
use supervisor_core::chat_format::format_dispatch_message;
use supervisor_core::dispatch::{
    SupervisorDispatchActionResult, SupervisorDispatchBatchResult, SupervisorDispatchStatus,
};

#[test]
fn formats_dispatch_message_with_user_facing_copy() {
    let request = SupervisorChatDispatchRequest {
        workspace_ids: vec!["ws-1".to_string(), "ws-2".to_string()],
        prompt: "Run smoke tests and share a concise summary.".to_string(),
        thread_id: Some("thread-1".to_string()),
        dedupe_key: Some("dispatch-1".to_string()),
        model: Some("gpt-5-mini".to_string()),
        effort: Some("high".to_string()),
        access_mode: Some("full-access".to_string()),
        route_kind: Some("workspace_metadata_match".to_string()),
        route_reason: Some("prompt matched workspace metadata".to_string()),
        route_fallback: Some("manual_dispatch".to_string()),
    };
    let dispatch = SupervisorDispatchBatchResult {
        results: vec![
            SupervisorDispatchActionResult {
                action_id: "action-1".to_string(),
                workspace_id: "ws-1".to_string(),
                dedupe_key: "ws-1:dispatch-1".to_string(),
                status: SupervisorDispatchStatus::Dispatched,
                thread_id: Some("thread-1".to_string()),
                turn_id: Some("turn-1".to_string()),
                error: None,
                idempotent_replay: true,
            },
            SupervisorDispatchActionResult {
                action_id: "action-2".to_string(),
                workspace_id: "ws-2".to_string(),
                dedupe_key: "ws-2:dispatch-1".to_string(),
                status: SupervisorDispatchStatus::Failed,
                thread_id: None,
                turn_id: None,
                error: Some("workspace is not connected".to_string()),
                idempotent_replay: false,
            },
        ],
    };

    let message = format_dispatch_message(&request, &dispatch);
    assert!(message.contains("Sent task to 2 workspace(s): 1 succeeded, 1 failed."));
    assert!(message.contains("Task: Run smoke tests and share a concise summary."));
    assert!(message.contains("- ws-1: started (reused existing run)"));
    assert!(message.contains("- ws-2: failed to start (workspace is not connected)"));
    assert!(!message.contains("Dispatch completed"));
    assert!(!message.contains("Route kind"));
    assert!(!message.contains("Route reason"));
    assert!(!message.contains("Route fallback"));
    assert_eq!(
        message,
        "Sent task to 2 workspace(s): 1 succeeded, 1 failed.\nTask: Run smoke tests and share a concise summary.\n- ws-1: started (reused existing run)\n- ws-2: failed to start (workspace is not connected)"
    );
}
