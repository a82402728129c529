use std::collections::{HashMap, HashSet};
use std::sync::Mutex as StdMutex;

use supervisor_core::dispatch::{
    approval_policy_for_access_mode, extract_thread_id, extract_turn_id, resolve_access_mode,
    response_error_message, sandbox_policy_for_access_mode, thread_resume_params, thread_start_params,
    turn_start_params, NormalizedDispatchAction, SupervisorDispatchAction, SupervisorDispatchActionResult,
    SupervisorDispatchBackend, SupervisorDispatchExecutor, SupervisorDispatchIdempotencyStore,
    SupervisorDispatchStatus,
};
use supervisor_core::json::JsonValue;

fn text(value: &str) -> JsonValue {
    JsonValue::Text(value.to_string())
}

fn object(members: Vec<(&str, JsonValue)>) -> JsonValue {
    JsonValue::Object(members.into_iter().map(|(k, v)| (k.to_string(), v)).collect())
}

#[derive(Default)]
struct MockDispatchBackend {
    calls: StdMutex<Vec<String>>,
    resume_failures: StdMutex<HashSet<String>>,
}

impl MockDispatchBackend {
    fn calls(&self) -> Vec<String> {
        self.calls.lock().expect("calls lock poisoned").clone()
    }

    fn fail_resume_for(&self, workspace_id: &str) {
        self.resume_failures
            .lock()
            .expect("resume failures lock poisoned")
            .insert(workspace_id.to_string());
    }

    fn push_call(&self, call: String) {
        self.calls.lock().expect("calls lock poisoned").push(call);
    }
}

impl SupervisorDispatchBackend for MockDispatchBackend {
    fn start_thread(&self, workspace_id: &str) -> Result<JsonValue, String> {
        self.push_call(format!("thread/start:{workspace_id}"));
        Ok(object(vec![("result", object(vec![("threadId", text(&format!("thread-{workspace_id}")))]))]))
    }

    fn resume_thread(&self, workspace_id: &str, thread_id: &str) -> Result<JsonValue, String> {
        self.push_call(format!("thread/resume:{workspace_id}:{thread_id}"));
        if self
            .resume_failures
            .lock()
            .expect("resume failures lock poisoned")
            .contains(workspace_id)
        {
            return Ok(object(vec![("error", object(vec![("message", text("resume failed"))]))]));
        }
        Ok(object(vec![("result", object(vec![("threadId", text(thread_id))]))]))
    }

    fn start_turn(
        &self,
        workspace_id: &str,
        thread_id: &str,
        _prompt: &str,
        model: Option<&str>,
        effort: Option<&str>,
        access_mode: Option<&str>,
    ) -> Result<JsonValue, String> {
        let mut call = format!("turn/start:{workspace_id}:{thread_id}");
        if model.is_some() || effort.is_some() || access_mode.is_some() {
            call.push_str(&format!(
                ":model={}:effort={}:access={}",
                model.unwrap_or("-"),
                effort.unwrap_or("-"),
                access_mode.unwrap_or("-")
            ));
        }
        self.push_call(call);
        Ok(object(vec![(
            "result",
            object(vec![("turnId", text(&format!("turn-{workspace_id}-{thread_id}")))]),
        )]))
    }
}

struct FailingBackend;

impl SupervisorDispatchBackend for FailingBackend {
    fn start_thread(&self, workspace_id: &str) -> Result<JsonValue, String> {
        if workspace_id == "ws-down" {
            Err("workspace `ws-down` is not connected".to_string())
        } else if workspace_id == "ws-silent" {
            Ok(object(vec![("result", object(vec![]))]))
        } else {
            Ok(object(vec![("threadId", text("thread-flat"))]))
        }
    }

    fn resume_thread(&self, _workspace_id: &str, _thread_id: &str) -> Result<JsonValue, String> {
        Ok(object(vec![("result", object(vec![]))]))
    }

    fn start_turn(
        &self,
        workspace_id: &str,
        _thread_id: &str,
        _prompt: &str,
        _model: Option<&str>,
        _effort: Option<&str>,
        _access_mode: Option<&str>,
    ) -> Result<JsonValue, String> {
        if workspace_id == "ws-turn-error" {
            Ok(object(vec![("error", text("turn refused"))]))
        } else if workspace_id == "ws-turn-down" {
            Err("pipe closed".to_string())
        } else {
            Ok(object(vec![("result", object(vec![]))]))
        }
    }
}

fn action(
    action_id: &str,
    workspace_id: &str,
    thread_id: Option<&str>,
    prompt: &str,
    dedupe_key: Option<&str>,
) -> SupervisorDispatchAction {
    SupervisorDispatchAction {
        action_id: action_id.to_string(),
        workspace_id: workspace_id.to_string(),
        thread_id: thread_id.map(ToOwned::to_owned),
        prompt: prompt.to_string(),
        dedupe_key: dedupe_key.map(ToOwned::to_owned),
        model: None,
        effort: None,
        access_mode: None,
        route_kind: None,
        route_reason: None,
        route_fallback: None,
    }
}

fn stored_result(action_id: &str, workspace_id: &str) -> SupervisorDispatchActionResult {
    SupervisorDispatchActionResult {
        action_id: action_id.to_string(),
        workspace_id: workspace_id.to_string(),
        dedupe_key: "dispatch".to_string(),
        status: SupervisorDispatchStatus::Dispatched,
        thread_id: Some("thread-ws-1".to_string()),
        turn_id: Some("turn-ws-1-thread-ws-1".to_string()),
        error: None,
        idempotent_replay: false,
    }
}

#[test]
fn dispatches_to_multiple_workspaces_in_one_batch() {
    let backend = MockDispatchBackend::default();
    let mut executor = SupervisorDispatchExecutor::new();

    let result = executor.dispatch_batch(
        &backend,
        vec![
            action("action-1", "ws-1", None, "Review workspace one", None),
            action("action-2", "ws-2", None, "Review workspace two", None),
        ],
    );

    assert_eq!(result.results.len(), 2);
    assert!(result
        .results
        .iter()
        .all(|entry| entry.status == SupervisorDispatchStatus::Dispatched));
    assert_eq!(
        backend.calls(),
        vec![
            "thread/start:ws-1",
            "turn/start:ws-1:thread-ws-1",
            "thread/start:ws-2",
            "turn/start:ws-2:thread-ws-2",
        ]
    );
}

#[test]
fn uses_thread_resume_when_thread_id_is_provided() {
    let backend = MockDispatchBackend::default();
    let mut executor = SupervisorDispatchExecutor::new();

    let result = executor.dispatch_batch(
        &backend,
        vec![action("action-1", "ws-1", Some("thread-existing"), "Continue task", None)],
    );

    assert_eq!(result.results.len(), 1);
    assert_eq!(result.results[0].thread_id.as_deref(), Some("thread-existing"));
    assert_eq!(
        backend.calls(),
        vec!["thread/resume:ws-1:thread-existing", "turn/start:ws-1:thread-existing"]
    );
}

#[test]
fn deduplicates_actions_by_workspace_and_dedupe_key() {
    let backend = MockDispatchBackend::default();
    let mut executor = SupervisorDispatchExecutor::new();

    let result = executor.dispatch_batch(
        &backend,
        vec![
            action("action-1", "ws-1", None, "Run check", Some("dispatch-1")),
            action("action-2", "ws-1", None, "Run check duplicate", Some("dispatch-1")),
        ],
    );

    assert_eq!(result.results.len(), 2);
    assert!(!result.results[0].idempotent_replay);
    assert!(result.results[1].idempotent_replay);
    assert_eq!(result.results[1].status, SupervisorDispatchStatus::Dispatched);
    assert_eq!(result.results[0].thread_id, result.results[1].thread_id);
    assert_eq!(result.results[0].turn_id, result.results[1].turn_id);
    assert_eq!(result.results[0].thread_id.as_deref(), Some("thread-ws-1"));
    assert_eq!(result.results[0].turn_id.as_deref(), Some("turn-ws-1-thread-ws-1"));
    assert_eq!(result.results[1].action_id, "action-2");
    assert_eq!(backend.calls(), vec!["thread/start:ws-1", "turn/start:ws-1:thread-ws-1",]);
}

#[test]
fn same_dedupe_key_is_not_shared_between_workspaces() {
    let backend = MockDispatchBackend::default();
    let mut executor = SupervisorDispatchExecutor::new();

    let result = executor.dispatch_batch(
        &backend,
        vec![
            action("action-1", "ws-1", None, "Task one", Some("dispatch")),
            action("action-2", "ws-2", None, "Task two", Some("dispatch")),
        ],
    );

    assert_eq!(result.results.len(), 2);
    assert!(!result.results[0].idempotent_replay);
    assert!(!result.results[1].idempotent_replay);
    assert_eq!(
        backend.calls(),
        vec![
            "thread/start:ws-1",
            "turn/start:ws-1:thread-ws-1",
            "thread/start:ws-2",
            "turn/start:ws-2:thread-ws-2",
        ]
    );
}

#[test]
fn forwards_model_effort_and_access_mode_to_turn_start() {
    let backend = MockDispatchBackend::default();
    let mut executor = SupervisorDispatchExecutor::new();
    let mut dispatch_action = action("action-1", "ws-1", None, "Run task", None);
    dispatch_action.model = Some("gpt-5-mini".to_string());
    dispatch_action.effort = Some("high".to_string());
    dispatch_action.access_mode = Some("full-access".to_string());

    let result = executor.dispatch_batch(&backend, vec![dispatch_action]);

    assert_eq!(result.results.len(), 1);
    assert_eq!(result.results[0].status, SupervisorDispatchStatus::Dispatched);
    assert_eq!(
        backend.calls(),
        vec![
            "thread/start:ws-1",
            "turn/start:ws-1:thread-ws-1:model=gpt-5-mini:effort=high:access=full-access",
        ]
    );
}

#[test]
fn returns_failed_result_for_invalid_action_input() {
    let backend = MockDispatchBackend::default();
    let mut executor = SupervisorDispatchExecutor::new();

    let result = executor.dispatch_batch(&backend, vec![action("action-1", "ws-1", None, "   ", None)]);

    assert_eq!(result.results.len(), 1);
    assert_eq!(result.results[0].status, SupervisorDispatchStatus::Failed);
    assert_eq!(result.results[0].error.as_deref(), Some("prompt is required"));
    assert!(backend.calls().is_empty());
    assert_eq!(executor.idempotency_snapshot().len(), 0);
}

#[test]
fn propagates_resume_errors() {
    let backend = MockDispatchBackend::default();
    backend.fail_resume_for("ws-1");
    let mut executor = SupervisorDispatchExecutor::new();

    let result = executor.dispatch_batch(
        &backend,
        vec![action("action-1", "ws-1", Some("thread-existing"), "Continue task", None)],
    );

    assert_eq!(result.results.len(), 1);
    assert_eq!(result.results[0].status, SupervisorDispatchStatus::Failed);
    assert_eq!(result.results[0].error.as_deref(), Some("resume failed"));
    assert_eq!(backend.calls(), vec!["thread/resume:ws-1:thread-existing"]);
}

#[test]
fn reuses_action_id_as_default_dedupe_key() {
    let backend = MockDispatchBackend::default();
    let mut executor = SupervisorDispatchExecutor::new();

    let _ = executor.dispatch_batch(&backend, vec![action("action-1", "ws-1", None, "Task", None)]);

    let snapshot = executor.idempotency_snapshot();
    assert!(snapshot.contains_key("ws-1:action-1"));
}

#[test]
fn can_bootstrap_executor_with_existing_idempotency_store() {
    let mut store = SupervisorDispatchIdempotencyStore::default();
    store.insert("ws-1:dispatch".to_string(), stored_result("action-1", "ws-1"));
    let backend = MockDispatchBackend::default();
    let mut executor = SupervisorDispatchExecutor::with_idempotency_store(store);

    let result =
        executor.dispatch_batch(&backend, vec![action("action-2", "ws-1", None, "Task", Some("dispatch"))]);

    assert_eq!(result.results.len(), 1);
    assert!(result.results[0].idempotent_replay);
    assert_eq!(result.results[0].action_id, "action-2");
    assert_eq!(result.results[0].thread_id.as_deref(), Some("thread-ws-1"));
    assert!(backend.calls().is_empty());
}

#[test]
fn response_extractors_support_nested_and_flat_shapes() {
    let nested = object(vec![(
        "result",
        object(vec![
            ("thread", object(vec![("id", text("thread-1"))])),
            ("turn", object(vec![("id", text("turn-1"))])),
        ]),
    )]);
    let flat = object(vec![("threadId", text("thread-2")), ("turnId", text("turn-2"))]);

    assert_eq!(extract_thread_id(&nested).as_deref(), Some("thread-1"));
    assert_eq!(extract_turn_id(&nested).as_deref(), Some("turn-1"));
    assert_eq!(extract_thread_id(&flat).as_deref(), Some("thread-2"));
    assert_eq!(extract_turn_id(&flat).as_deref(), Some("turn-2"));
}

#[test]
fn idempotency_store_snapshot_returns_copy() {
    let mut store = SupervisorDispatchIdempotencyStore::default();
    store.insert("ws-1:dispatch".to_string(), stored_result("action-1", "ws-1"));

    let mut snapshot = store.snapshot();
    snapshot.put(
        "ws-2:dispatch".to_string(),
        SupervisorDispatchActionResult {
            action_id: "action-2".to_string(),
            workspace_id: "ws-2".to_string(),
            dedupe_key: "dispatch".to_string(),
            status: SupervisorDispatchStatus::Dispatched,
            thread_id: None,
            turn_id: None,
            error: None,
            idempotent_replay: false,
        },
    );

    let original_snapshot = store.snapshot();
    assert_eq!(original_snapshot.len(), 1);
    assert!(original_snapshot.contains_key("ws-1:dispatch"));
    assert!(!original_snapshot.contains_key("ws-2:dispatch"));
}

#[test]
fn normalization_strips_whitespace_and_optional_thread() {
    let normalized = NormalizedDispatchAction::try_from(SupervisorDispatchAction {
        action_id: " action-1 ".to_string(),
        workspace_id: " ws-1 ".to_string(),
        thread_id: Some("   ".to_string()),
        prompt: " do it ".to_string(),
        dedupe_key: Some(" dispatch ".to_string()),
        model: Some(" gpt-5-mini ".to_string()),
        effort: Some(" high ".to_string()),
        access_mode: Some(" full-access ".to_string()),
        route_kind: Some(" workspace_delegate ".to_string()),
        route_reason: Some(" explicit route ".to_string()),
        route_fallback: Some(" fallback ".to_string()),
    })
    .expect("normalized action");

    assert_eq!(normalized.action_id, "action-1");
    assert_eq!(normalized.workspace_id, "ws-1");
    assert_eq!(normalized.thread_id, None);
    assert_eq!(normalized.prompt, "do it");
    assert_eq!(normalized.dedupe_token, "dispatch");
    assert_eq!(normalized.model.as_deref(), Some("gpt-5-mini"));
    assert_eq!(normalized.effort.as_deref(), Some("high"));
    assert_eq!(normalized.access_mode.as_deref(), Some("full-access"));
}

#[test]
fn normalization_rejects_unknown_access_mode() {
    let mut given = action("action-1", "ws-1", None, "run", None);
    given.access_mode = Some("admin".to_string());
    let error = NormalizedDispatchAction::try_from(given).expect_err("unknown access mode should fail");

    assert_eq!(error, "access_mode must be one of `read-only`, `current`, or `full-access`");
}

#[test]
fn normalization_rejects_missing_action_id() {
    let error = NormalizedDispatchAction::try_from(action("   ", "ws-1", None, "Run", None))
        .expect_err("missing action id should fail");

    assert_eq!(error, "action_id is required");
}

#[test]
fn normalization_rejects_missing_workspace_id() {
    let error = NormalizedDispatchAction::try_from(action("action-1", "\n", None, "Run", None))
        .expect_err("missing workspace id should fail");

    assert_eq!(error, "workspace_id is required");
}

#[test]
fn normalization_rejects_missing_prompt() {
    let error = NormalizedDispatchAction::try_from(action("action-1", "ws-1", None, "\t", None))
        .expect_err("missing prompt should fail");

    assert_eq!(error, "prompt is required");
}

#[test]
fn response_error_message_falls_back_to_stringified_error() {
    let response = object(vec![("error", object(vec![("code", JsonValue::Int(-32000))]))]);
    assert_eq!(response_error_message(&response), Some("{\"code\":-32000}".to_string()));
}

#[test]
fn response_error_message_uses_string_error_shape() {
    let response = object(vec![("error", text("plain string"))]);
    assert_eq!(response_error_message(&response), Some("plain string".to_string()));
}

#[test]
fn response_error_message_returns_none_for_success() {
    let response = object(vec![("result", object(vec![("ok", JsonValue::Bool(true))]))]);
    assert_eq!(response_error_message(&response), None);
}

#[test]
fn dedupe_uses_action_id_when_no_dedupe_key_is_present() {
    let backend = MockDispatchBackend::default();
    let mut executor = SupervisorDispatchExecutor::new();

    let result = executor.dispatch_batch(
        &backend,
        vec![
            action("same", "ws-1", None, "Task one", None),
            action("same", "ws-1", None, "Task duplicate", None),
        ],
    );

    assert_eq!(result.results.len(), 2);
    assert!(result.results[1].idempotent_replay);
    assert_eq!(backend.calls(), vec!["thread/start:ws-1", "turn/start:ws-1:thread-ws-1",]);
}

#[test]
fn idempotency_key_is_workspace_scoped() {
    let a = NormalizedDispatchAction::try_from(action("action-1", "ws-1", None, "Task", Some("dup")))
        .expect("normalize a");
    let b = NormalizedDispatchAction::try_from(action("action-1", "ws-2", None, "Task", Some("dup")))
        .expect("normalize b");

    let mut keys = HashMap::new();
    keys.insert(a.idempotency_key(), 1u8);
    keys.insert(b.idempotency_key(), 2u8);
    assert_eq!(keys.len(), 2);
    assert_eq!(a.idempotency_key(), "ws-1:dup");
}

#[test]
fn replay_in_a_later_batch_returns_the_same_run() {
    let backend = MockDispatchBackend::default();
    let mut executor = SupervisorDispatchExecutor::new();
    let first = executor.dispatch_batch(&backend, vec![action("a-1", "ws-1", None, "Task", Some("d"))]);
    let _ = executor.dispatch_batch(&backend, vec![action("a-2", "ws-2", None, "Other", Some("d"))]);
    let third = executor.dispatch_batch(&backend, vec![action("a-3", " ws-1 ", None, "Again", Some(" d "))]);

    assert!(third.results[0].idempotent_replay);
    assert_eq!(third.results[0].action_id, "a-3");
    assert_eq!(third.results[0].thread_id, first.results[0].thread_id);
    assert_eq!(third.results[0].turn_id, first.results[0].turn_id);
    assert_eq!(third.results[0].status, first.results[0].status);
    assert_eq!(backend.calls().len(), 4);
}

#[test]
fn failed_outcomes_are_kept_and_replayed_too() {
    let backend = FailingBackend;
    let mut executor = SupervisorDispatchExecutor::new();
    let result = executor.dispatch_batch(
        &backend,
        vec![
            action("a-1", "ws-down", None, "Task", None),
            action("a-2", "ws-silent", None, "Task", None),
            action("a-3", "ws-turn-error", None, "Task", None),
            action("a-4", "ws-turn-down", None, "Task", None),
            action("a-5", "ws-ok", Some("thread-asked"), "Task", None),
            action("a-6", "ws-down", None, "Task", Some("a-1")),
        ],
    );
    assert_eq!(result.results[0].status, SupervisorDispatchStatus::Failed);
    assert_eq!(result.results[0].error.as_deref(), Some("workspace `ws-down` is not connected"));
    assert_eq!(result.results[0].thread_id, None);
    assert_eq!(
        result.results[1].error.as_deref(),
        Some("thread/start response did not include threadId for workspace `ws-silent`")
    );
    assert_eq!(result.results[2].error.as_deref(), Some("turn refused"));
    assert_eq!(result.results[2].thread_id.as_deref(), Some("thread-flat"));
    assert_eq!(result.results[3].error.as_deref(), Some("pipe closed"));
    assert_eq!(result.results[4].status, SupervisorDispatchStatus::Dispatched);
    assert_eq!(result.results[4].thread_id.as_deref(), Some("thread-asked"));
    assert_eq!(result.results[4].turn_id, None);
    assert_eq!(result.results[4].dedupe_key, "a-5");
    assert!(result.results[5].idempotent_replay);
    assert_eq!(result.results[5].status, SupervisorDispatchStatus::Failed);
    assert_eq!(result.results[5].error, result.results[0].error);
}

#[test]
fn access_mode_settles_policies() {
    assert_eq!(resolve_access_mode(None), "current");
    assert_eq!(resolve_access_mode(Some("  ")), "current");
    assert_eq!(resolve_access_mode(Some(" read-only ")), "read-only");
    assert_eq!(resolve_access_mode(Some("full-access")), "full-access");
    assert_eq!(resolve_access_mode(Some("admin")), "current");
    assert_eq!(approval_policy_for_access_mode("full-access"), "never");
    assert_eq!(approval_policy_for_access_mode("current"), "on-request");
    assert_eq!(approval_policy_for_access_mode("read-only"), "on-request");
    assert_eq!(
        sandbox_policy_for_access_mode("full-access", "/w"),
        object(vec![("type", text("dangerFullAccess"))])
    );
    assert_eq!(sandbox_policy_for_access_mode("read-only", "/w"), object(vec![("type", text("readOnly"))]));
    assert_eq!(
        sandbox_policy_for_access_mode("current", "/w"),
        object(vec![
            ("type", text("workspaceWrite")),
            ("writableRoots", JsonValue::Array(vec![text("/w")])),
            ("networkAccess", JsonValue::Bool(true)),
        ])
    );
}

#[test]
fn request_parameters_are_composed_from_the_action() {
    assert_eq!(
        thread_start_params("/w"),
        object(vec![("cwd", text("/w")), ("approvalPolicy", text("on-request"))])
    );
    assert_eq!(thread_resume_params("t-1"), object(vec![("threadId", text("t-1"))]));
    let params = turn_start_params("t-1", "do it", "/w", Some("gpt"), Some(" "), Some("full-access"));
    assert_eq!(
        params,
        object(vec![
            ("threadId", text("t-1")),
            ("input", JsonValue::Array(vec![object(vec![("type", text("text")), ("text", text("do it"))])])),
            ("cwd", text("/w")),
            ("approvalPolicy", text("never")),
            ("sandboxPolicy", object(vec![("type", text("dangerFullAccess"))])),
            ("model", text("gpt")),
        ])
    );
}

#[test]
fn idempotency_key_tells_workspace_and_token_apart() {
    let a = NormalizedDispatchAction::try_from(action("action-1", "a", None, "Task", Some("b:c")))
        .expect("normalize a");
    let b = NormalizedDispatchAction::try_from(action("action-2", "a:b", None, "Task", Some("c")))
        .expect("normalize b");
    assert_eq!(a.idempotency_key(), "a:b:c");
    assert_eq!(b.idempotency_key(), "a\\:b:c");
    assert_ne!(a.idempotency_key(), b.idempotency_key());

    let c = NormalizedDispatchAction::try_from(action("action-3", "a\\", None, "Task", Some(":c")))
        .expect("normalize c");
    let d = NormalizedDispatchAction::try_from(action("action-4", "a\\:", None, "Task", Some("c")))
        .expect("normalize d");
    assert_eq!(c.idempotency_key(), "a\\\\::c");
    assert_eq!(d.idempotency_key(), "a\\\\\\::c");
}

#[test]
fn colliding_texts_of_workspace_and_token_are_no_replay() {
    let backend = MockDispatchBackend::default();
    let mut executor = SupervisorDispatchExecutor::new();
    let result = executor.dispatch_batch(
        &backend,
        vec![
            action("action-1", "a", None, "Task", Some("b:c")),
            action("action-2", "a:b", None, "Task", Some("c")),
        ],
    );
    assert_eq!(result.results.len(), 2);
    assert!(!result.results[0].idempotent_replay);
    assert!(!result.results[1].idempotent_replay);
    assert_eq!(result.results[0].thread_id.as_deref(), Some("thread-a"));
    assert_eq!(result.results[1].thread_id.as_deref(), Some("thread-a:b"));
    assert_eq!(executor.idempotency_snapshot().len(), 2);
}
