use supervisor_core::contract::{
    decode_contract, normalize_dispatch_turn_action, normalize_required, parse_supervisor_action_contract_json,
    parse_supervisor_action_contract_value, validate_supervisor_action_contract, SupervisorActionContract,
    SupervisorDispatchTurnAction, SupervisorPlannerAction, SUPERVISOR_ACTION_CONTRACT_VERSION,
};
use supervisor_core::json::JsonValue;

fn text(value: &str) -> JsonValue {
    JsonValue::Text(value.to_string())
}

fn object(members: Vec<(&str, JsonValue)>) -> JsonValue {
    JsonValue::Object(members.into_iter().map(|(k, v)| (k.to_string(), v)).collect())
}

fn contract(version: &str, actions: Vec<JsonValue>) -> JsonValue {
    object(vec![("version", text(version)), ("actions", JsonValue::Array(actions))])
}

fn turn(members: Vec<(&str, &str)>) -> JsonValue {
    let mut all = vec![("type", text("dispatch_turn"))];
    for (key, value) in members {
        all.push((key, text(value)));
    }
    object(all)
}

fn plain_turn(action_id: &str) -> SupervisorDispatchTurnAction {
    SupervisorDispatchTurnAction {
        action_id: action_id.to_string(),
        workspace_id: "ws-1".to_string(),
        prompt: "run".to_string(),
        thread_id: None,
        dedupe_key: None,
        model: None,
        effort: None,
        access_mode: None,
        route_kind: None,
        route_reason: None,
        route_fallback: None,
    }
}

#[test]
fn validates_and_normalizes_dispatch_actions() {
    let value = contract(
        SUPERVISOR_ACTION_CONTRACT_VERSION,
        vec![
            turn(vec![
                ("action_id", " action-1 "),
                ("workspace_id", " ws-1 "),
                ("thread_id", " thread-1 "),
                ("prompt", " fix failing tests "),
                ("dedupe_key", " dispatch-1 "),
            ]),
            turn(vec![("action_id", "action-2"), ("workspace_id", "ws-2"), ("prompt", "ship release")]),
        ],
    );

    let validated = parse_supervisor_action_contract_value(&value).expect("valid contract");

    assert_eq!(validated.version, SUPERVISOR_ACTION_CONTRACT_VERSION.to_string());
    assert_eq!(validated.dispatch_actions.len(), 2);
    assert_eq!(validated.dispatch_actions[0].action_id, "action-1");
    assert_eq!(validated.dispatch_actions[0].workspace_id, "ws-1");
    assert_eq!(validated.dispatch_actions[0].thread_id.as_deref(), Some("thread-1"));
    assert_eq!(validated.dispatch_actions[0].prompt, "fix failing tests");
    assert_eq!(validated.dispatch_actions[0].dedupe_key.as_deref(), Some("dispatch-1"));
    assert_eq!(validated.dispatch_actions[1].action_id, "action-2");
    assert_eq!(validated.dispatch_actions[1].dedupe_key, None);
}

#[test]
fn rejects_unknown_contract_version() {
    let value = contract(
        "supervisor.dispatch.v0",
        vec![turn(vec![("action_id", "action-1"), ("workspace_id", "ws-1"), ("prompt", "run")])],
    );

    let error = parse_supervisor_action_contract_value(&value).expect_err("version mismatch");
    assert!(error.contains("unsupported supervisor contract version"));
    assert_eq!(
        error,
        "unsupported supervisor contract version `supervisor.dispatch.v0` (expected `supervisor.dispatch.v1`)"
    );
}

#[test]
fn rejects_empty_actions_array() {
    let value = contract(SUPERVISOR_ACTION_CONTRACT_VERSION, vec![]);

    let error = parse_supervisor_action_contract_value(&value).expect_err("empty actions");
    assert_eq!(error, "actions must contain at least one item");
}

#[test]
fn rejects_duplicate_action_id() {
    let value = contract(
        SUPERVISOR_ACTION_CONTRACT_VERSION,
        vec![
            turn(vec![("action_id", "action-1"), ("workspace_id", "ws-1"), ("prompt", "first")]),
            turn(vec![("action_id", "action-1"), ("workspace_id", "ws-2"), ("prompt", "second")]),
        ],
    );

    let error = parse_supervisor_action_contract_value(&value).expect_err("duplicate action id");
    assert!(error.contains("duplicate action_id `action-1`"));
}

#[test]
fn rejects_duplicate_dedupe_key_within_workspace() {
    let value = contract(
        SUPERVISOR_ACTION_CONTRACT_VERSION,
        vec![
            turn(vec![
                ("action_id", "action-1"),
                ("workspace_id", "ws-1"),
                ("prompt", "first"),
                ("dedupe_key", "same"),
            ]),
            turn(vec![
                ("action_id", "action-2"),
                ("workspace_id", "ws-1"),
                ("prompt", "second"),
                ("dedupe_key", "same"),
            ]),
        ],
    );

    let error = parse_supervisor_action_contract_value(&value).expect_err("duplicate dedupe key");
    assert!(error.contains("duplicate dedupe key `same` for workspace `ws-1`"));
}

#[test]
fn allows_same_dedupe_key_in_different_workspaces() {
    let value = contract(
        SUPERVISOR_ACTION_CONTRACT_VERSION,
        vec![
            turn(vec![
                ("action_id", "action-1"),
                ("workspace_id", "ws-1"),
                ("prompt", "first"),
                ("dedupe_key", "same"),
            ]),
            turn(vec![
                ("action_id", "action-2"),
                ("workspace_id", "ws-2"),
                ("prompt", "second"),
                ("dedupe_key", "same"),
            ]),
        ],
    );

    let validated = parse_supervisor_action_contract_value(&value).expect("valid contract");
    assert_eq!(validated.dispatch_actions.len(), 2);
}

#[test]
fn rejects_blank_required_fields() {
    let value = contract(
        SUPERVISOR_ACTION_CONTRACT_VERSION,
        vec![turn(vec![("action_id", "action-1"), ("workspace_id", "ws-1"), ("prompt", "   ")])],
    );

    let error = parse_supervisor_action_contract_value(&value).expect_err("blank prompt");
    assert_eq!(error, "prompt is required");
}

#[test]
fn rejects_unknown_action_type() {
    let value = contract(
        SUPERVISOR_ACTION_CONTRACT_VERSION,
        vec![object(vec![
            ("type", text("noop")),
            ("action_id", text("action-1")),
            ("workspace_id", text("ws-1")),
            ("prompt", text("noop")),
        ])],
    );

    let error = parse_supervisor_action_contract_value(&value).expect_err("unknown action");
    assert!(error.contains("unknown variant"));
}

#[test]
fn rejects_unknown_top_level_fields() {
    let value = object(vec![
        ("version", text(SUPERVISOR_ACTION_CONTRACT_VERSION)),
        (
            "actions",
            JsonValue::Array(vec![turn(vec![
                ("action_id", "action-1"),
                ("workspace_id", "ws-1"),
                ("prompt", "run"),
            ])]),
        ),
        ("unexpected", JsonValue::Bool(true)),
    ]);

    let error = parse_supervisor_action_contract_value(&value).expect_err("unknown field");
    assert!(error.contains("unknown field"));
}

#[test]
fn rejects_unknown_action_fields() {
    let value = contract(
        SUPERVISOR_ACTION_CONTRACT_VERSION,
        vec![turn(vec![
            ("action_id", "action-1"),
            ("workspace_id", "ws-1"),
            ("prompt", "run"),
            ("extra", "field"),
        ])],
    );

    let error = parse_supervisor_action_contract_value(&value).expect_err("unknown field");
    assert!(error.contains("unknown field"));
}

#[test]
fn parses_contract_from_json_string() {
    let validated = parse_supervisor_action_contract_json(
        r#"{
                "version": "supervisor.dispatch.v1",
                "actions": [{
                    "type": "dispatch_turn",
                    "action_id": "action-1",
                    "workspace_id": "ws-1",
                    "prompt": "run"
                }]
            }"#,
    )
    .expect("valid contract json");

    assert_eq!(validated.dispatch_actions.len(), 1);
    assert_eq!(validated.dispatch_actions[0].action_id, "action-1");
}

#[test]
fn rejects_text_that_is_no_json() {
    let error = parse_supervisor_action_contract_json("{ not json").expect_err("no json");
    assert!(error.starts_with("invalid supervisor action contract JSON: "));
}

#[test]
fn decoding_reports_missing_and_mistyped_members() {
    assert_eq!(decode_contract(&JsonValue::Null).expect_err("not an object"), "invalid type, expected an object");
    assert_eq!(
        decode_contract(&object(vec![("actions", JsonValue::Array(vec![]))])).expect_err("no version"),
        "missing field `version`"
    );
    assert_eq!(
        decode_contract(&object(vec![("version", text("v"))])).expect_err("no actions"),
        "missing field `actions`"
    );
    assert_eq!(
        decode_contract(&object(vec![("version", text("v")), ("actions", text("x"))])).expect_err("bad actions"),
        "invalid type for `actions`, expected an array"
    );
    assert_eq!(
        decode_contract(&contract("v", vec![text("x")])).expect_err("bad action"),
        "invalid type for an action, expected an object"
    );
    assert_eq!(
        decode_contract(&contract("v", vec![object(vec![("action_id", text("a"))])])).expect_err("no type"),
        "missing field `type`"
    );
    assert_eq!(
        decode_contract(&contract("v", vec![turn(vec![("action_id", "a"), ("workspace_id", "w")])]))
            .expect_err("no prompt"),
        "missing field `prompt`"
    );
    assert_eq!(
        decode_contract(&contract(
            "v",
            vec![object(vec![
                ("type", text("dispatch_turn")),
                ("action_id", text("a")),
                ("workspace_id", text("w")),
                ("prompt", text("p")),
                ("model", JsonValue::Int(3)),
            ])]
        ))
        .expect_err("bad model"),
        "invalid type for `model`, expected a string"
    );
    let decoded = decode_contract(&contract(
        "v",
        vec![object(vec![
            ("type", text("dispatch_turn")),
            ("action_id", text("a")),
            ("workspace_id", text("w")),
            ("prompt", text("p")),
            ("thread_id", JsonValue::Null),
            ("access_mode", text("current")),
        ])],
    ))
    .expect("decodes");
    assert_eq!(decoded.version, "v");
    match &decoded.actions[0] {
        SupervisorPlannerAction::DispatchTurn(action) => {
            assert_eq!(action.thread_id, None);
            assert_eq!(action.access_mode.as_deref(), Some("current"));
        }
    }
}

#[test]
fn validation_trims_the_version_and_checks_access_modes() {
    let mut with_mode = plain_turn("a-1");
    with_mode.access_mode = Some(" read-only ".to_string());
    let validated = validate_supervisor_action_contract(SupervisorActionContract {
        version: "  supervisor.dispatch.v1 ".to_string(),
        actions: vec![SupervisorPlannerAction::DispatchTurn(with_mode)],
    })
    .expect("valid");
    assert_eq!(validated.version, "supervisor.dispatch.v1");
    assert_eq!(validated.dispatch_actions[0].access_mode.as_deref(), Some("read-only"));

    let mut bad_mode = plain_turn("a-1");
    bad_mode.access_mode = Some("admin".to_string());
    let error = validate_supervisor_action_contract(SupervisorActionContract {
        version: "supervisor.dispatch.v1".to_string(),
        actions: vec![SupervisorPlannerAction::DispatchTurn(bad_mode)],
    })
    .expect_err("bad mode");
    assert_eq!(error, "access_mode must be one of `read-only`, `current`, or `full-access`");
}

#[test]
fn duplicate_dedupe_token_counts_the_action_id_as_the_default_token() {
    let mut second = plain_turn("a-2");
    second.dedupe_key = Some("a-1".to_string());
    let error = validate_supervisor_action_contract(SupervisorActionContract {
        version: "supervisor.dispatch.v1".to_string(),
        actions: vec![
            SupervisorPlannerAction::DispatchTurn(plain_turn("a-1")),
            SupervisorPlannerAction::DispatchTurn(second),
        ],
    })
    .expect_err("duplicate token");
    assert_eq!(error, "duplicate dedupe key `a-1` for workspace `ws-1`");
}

#[test]
fn normalize_required_and_turn_action() {
    assert_eq!(normalize_required("prompt", "  do it ".to_string()), Ok("do it".to_string()));
    assert_eq!(normalize_required("prompt", " \n".to_string()), Err("prompt is required".to_string()));
    let mut action = plain_turn(" a-1 ");
    action.workspace_id = "  ".to_string();
    assert_eq!(normalize_dispatch_turn_action(action).expect_err("blank"), "workspace_id is required");
    let mut action = plain_turn(" a-1 ");
    action.model = Some("  ".to_string());
    action.route_kind = Some(" kind ".to_string());
    let normal = normalize_dispatch_turn_action(action).expect("normal");
    assert_eq!(normal.action_id, "a-1");
    assert_eq!(normal.model, None);
    assert_eq!(normal.route_kind.as_deref(), Some("kind"));
}

#[test]
fn dedupe_is_by_workspace_and_token_not_by_their_joined_text() {
    let value = contract(
        SUPERVISOR_ACTION_CONTRACT_VERSION,
        vec![
            turn(vec![("action_id", "action-1"), ("workspace_id", "a"), ("prompt", "first"), ("dedupe_key", "b:c")]),
            turn(vec![("action_id", "action-2"), ("workspace_id", "a:b"), ("prompt", "second"), ("dedupe_key", "c")]),
        ],
    );
    let validated = parse_supervisor_action_contract_value(&value).expect("valid contract");
    assert_eq!(validated.dispatch_actions.len(), 2);
}
