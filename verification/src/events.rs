use vstd::prelude::*;
use vstd::string::*;

use crate::json::{JsonModel, JsonValue};
use crate::json_ops::{items_view, json_bool, json_member, json_text};
use crate::text::{decimal, finishes_with, integer_text, text_ends_with, text_eq, trimmed};

verus! {

/// What a workspace session reports, in the closed set the supervisor acts on.
#[derive(Debug, PartialEq, Eq)]
pub enum SupervisorEvent {
    TurnStarted { workspace_id: String, thread_id: String, turn_id: String, task: Option<String>, received_at_ms: i64 },
    TurnCompleted {
        workspace_id: String,
        thread_id: String,
        turn_id: String,
        task: Option<String>,
        received_at_ms: i64,
    },
    ItemStarted {
        workspace_id: String,
        thread_id: String,
        item_id: String,
        item_type: Option<String>,
        task: Option<String>,
        item_content: Option<String>,
        received_at_ms: i64,
    },
    ItemCompleted {
        workspace_id: String,
        thread_id: String,
        item_id: String,
        item_type: Option<String>,
        task: Option<String>,
        item_content: Option<String>,
        received_at_ms: i64,
    },
    ApprovalRequested {
        workspace_id: String,
        request_key: String,
        request_id: String,
        method: String,
        thread_id: Option<String>,
        turn_id: Option<String>,
        item_id: Option<String>,
        params: JsonValue,
        received_at_ms: i64,
    },
    UserInputRequested {
        workspace_id: String,
        request_key: String,
        request_id: String,
        request_id_value: JsonValue,
        thread_id: Option<String>,
        turn_id: Option<String>,
        item_id: Option<String>,
        question: String,
        question_ids: Vec<String>,
        params: JsonValue,
        received_at_ms: i64,
    },
    Error {
        workspace_id: String,
        thread_id: Option<String>,
        turn_id: Option<String>,
        message: String,
        will_retry: bool,
        received_at_ms: i64,
    },
}

/// Mathematical model of [`SupervisorEvent`].
pub enum EventModel {
    TurnStarted {
        workspace_id: Seq<char>,
        thread_id: Seq<char>,
        turn_id: Seq<char>,
        task: Option<Seq<char>>,
        received_at_ms: i64,
    },
    TurnCompleted {
        workspace_id: Seq<char>,
        thread_id: Seq<char>,
        turn_id: Seq<char>,
        task: Option<Seq<char>>,
        received_at_ms: i64,
    },
    ItemStarted {
        workspace_id: Seq<char>,
        thread_id: Seq<char>,
        item_id: Seq<char>,
        item_type: Option<Seq<char>>,
        task: Option<Seq<char>>,
        item_content: Option<Seq<char>>,
        received_at_ms: i64,
    },
    ItemCompleted {
        workspace_id: Seq<char>,
        thread_id: Seq<char>,
        item_id: Seq<char>,
        item_type: Option<Seq<char>>,
        task: Option<Seq<char>>,
        item_content: Option<Seq<char>>,
        received_at_ms: i64,
    },
    ApprovalRequested {
        workspace_id: Seq<char>,
        request_key: Seq<char>,
        request_id: Seq<char>,
        method: Seq<char>,
        thread_id: Option<Seq<char>>,
        turn_id: Option<Seq<char>>,
        item_id: Option<Seq<char>>,
        params: JsonModel,
        received_at_ms: i64,
    },
    UserInputRequested {
        workspace_id: Seq<char>,
        request_key: Seq<char>,
        request_id: Seq<char>,
        request_id_value: JsonModel,
        thread_id: Option<Seq<char>>,
        turn_id: Option<Seq<char>>,
        item_id: Option<Seq<char>>,
        question: Seq<char>,
        question_ids: Seq<Seq<char>>,
        params: JsonModel,
        received_at_ms: i64,
    },
    Error {
        workspace_id: Seq<char>,
        thread_id: Option<Seq<char>>,
        turn_id: Option<Seq<char>>,
        message: Seq<char>,
        will_retry: bool,
        received_at_ms: i64,
    },
}

impl View for SupervisorEvent {
    type V = EventModel;

    open spec fn view(&self) -> EventModel {
        match self {
            SupervisorEvent::TurnStarted { workspace_id, thread_id, turn_id, task, received_at_ms } => EventModel::TurnStarted {
                workspace_id: workspace_id@,
                thread_id: thread_id@,
                turn_id: turn_id@,
                task: task.deep_view(),
                received_at_ms: *received_at_ms,
            },
            SupervisorEvent::TurnCompleted { workspace_id, thread_id, turn_id, task, received_at_ms } => EventModel::TurnCompleted {
                workspace_id: workspace_id@,
                thread_id: thread_id@,
                turn_id: turn_id@,
                task: task.deep_view(),
                received_at_ms: *received_at_ms,
            },
            SupervisorEvent::ItemStarted {
                workspace_id,
                thread_id,
                item_id,
                item_type,
                task,
                item_content,
                received_at_ms,
            } => EventModel::ItemStarted {
                workspace_id: workspace_id@,
                thread_id: thread_id@,
                item_id: item_id@,
                item_type: item_type.deep_view(),
                task: task.deep_view(),
                item_content: item_content.deep_view(),
                received_at_ms: *received_at_ms,
            },
            SupervisorEvent::ItemCompleted {
                workspace_id,
                thread_id,
                item_id,
                item_type,
                task,
                item_content,
                received_at_ms,
            } => EventModel::ItemCompleted {
                workspace_id: workspace_id@,
                thread_id: thread_id@,
                item_id: item_id@,
                item_type: item_type.deep_view(),
                task: task.deep_view(),
                item_content: item_content.deep_view(),
                received_at_ms: *received_at_ms,
            },
            SupervisorEvent::ApprovalRequested {
                workspace_id,
                request_key,
                request_id,
                method,
                thread_id,
                turn_id,
                item_id,
                params,
                received_at_ms,
            } => EventModel::ApprovalRequested {
                workspace_id: workspace_id@,
                request_key: request_key@,
                request_id: request_id@,
                method: method@,
                thread_id: thread_id.deep_view(),
                turn_id: turn_id.deep_view(),
                item_id: item_id.deep_view(),
                params: params@,
                received_at_ms: *received_at_ms,
            },
            SupervisorEvent::UserInputRequested {
                workspace_id,
                request_key,
                request_id,
                request_id_value,
                thread_id,
                turn_id,
                item_id,
                question,
                question_ids,
                params,
                received_at_ms,
            } => EventModel::UserInputRequested {
                workspace_id: workspace_id@,
                request_key: request_key@,
                request_id: request_id@,
                request_id_value: request_id_value@,
                thread_id: thread_id.deep_view(),
                turn_id: turn_id.deep_view(),
                item_id: item_id.deep_view(),
                question: question@,
                question_ids: question_ids.deep_view(),
                params: params@,
                received_at_ms: *received_at_ms,
            },
            SupervisorEvent::Error { workspace_id, thread_id, turn_id, message, will_retry, received_at_ms } => EventModel::Error {
                workspace_id: workspace_id@,
                thread_id: thread_id.deep_view(),
                turn_id: turn_id.deep_view(),
                message: message@,
                will_retry: *will_retry,
                received_at_ms: *received_at_ms,
            },
        }
    }
}

/// The first of two optional values that is there.
pub open spec fn either<T>(first: Option<T>, second: Option<T>) -> Option<T> {
    if first is Some {
        first
    } else {
        second
    }
}

/// The trimmed text of the member `key` of `map`, where it is a string that
/// is not blank.
pub open spec fn field_text(map: JsonModel, key: Seq<char>) -> Option<Seq<char>> {
    match json_member(map, key) {
        Some(value) => match json_text(value) {
            Some(text) => if trimmed(text).len() > 0 {
                Some(trimmed(text))
            } else {
                None
            },
            None => None,
        },
        None => None,
    }
}

/// The member `key` of `map` where it is an object; an empty object otherwise.
pub open spec fn object_member(map: JsonModel, key: Seq<char>) -> JsonModel {
    match json_member(map, key) {
        Some(JsonModel::Object(members)) => JsonModel::Object(members),
        _ => JsonModel::Object(Seq::empty()),
    }
}

/// The thread id that a record names, under either spelling.
pub open spec fn thread_id_of(map: JsonModel) -> Option<Seq<char>> {
    either(field_text(map, "threadId"@), field_text(map, "thread_id"@))
}

/// The turn id that a record names, under either spelling.
pub open spec fn turn_id_of(map: JsonModel) -> Option<Seq<char>> {
    either(field_text(map, "turnId"@), field_text(map, "turn_id"@))
}

/// The item id that a record names, under either spelling.
pub open spec fn item_id_of(map: JsonModel) -> Option<Seq<char>> {
    either(field_text(map, "itemId"@), field_text(map, "item_id"@))
}

/// The task that a record describes: the first of `currentTask`,
/// `current_task`, `summary`, `preview`, `title` that is there.
pub open spec fn task_of(map: JsonModel) -> Option<Seq<char>> {
    either(
        field_text(map, "currentTask"@),
        either(
            field_text(map, "current_task"@),
            either(field_text(map, "summary"@), either(field_text(map, "preview"@), field_text(map, "title"@))),
        ),
    )
}

/// The request id of a message envelope as text: the numeral of an integer
/// id, or the trimmed text of a string id.
pub open spec fn request_id_of(message: JsonModel) -> Option<Seq<char>> {
    match json_member(message, "id"@) {
        Some(id) => match id {
            JsonModel::Int(n) => if i64::MIN <= n <= u64::MAX {
                Some(integer_text(n))
            } else {
                None
            },
            JsonModel::Text(t) => Some(trimmed(t)),
            _ => None,
        },
        None => None,
    }
}

/// The first of `willRetry`, `will_retry` that is a boolean; false where neither is.
pub open spec fn will_retry_of(params: JsonModel) -> bool {
    match either(
        match json_member(params, "willRetry"@) {
            Some(v) => json_bool(v),
            None => None,
        },
        match json_member(params, "will_retry"@) {
            Some(v) => json_bool(v),
            None => None,
        },
    ) {
        Some(flag) => flag,
        None => false,
    }
}

/// The message of an error notification: `error.message`, or else `message`.
pub open spec fn error_message_of(params: JsonModel) -> Option<Seq<char>> {
    either(field_text(object_member(params, "error"@), "message"@), field_text(params, "message"@))
}

/// The ids of the questions in `items` that carry one, in their order.
pub open spec fn question_ids_of(items: Seq<JsonModel>) -> Seq<Seq<char>>
    decreases items.len(),
{
    if items.len() == 0 {
        Seq::empty()
    } else {
        match field_text(items.last(), "id"@) {
            Some(id) => question_ids_of(items.drop_last()).push(id),
            None => question_ids_of(items.drop_last()),
        }
    }
}

/// The texts of the questions in `items`, each on a line of its own.
pub open spec fn question_text_of(items: Seq<JsonModel>) -> Seq<char>
    decreases items.len(),
{
    if items.len() == 0 {
        Seq::empty()
    } else {
        let before = question_text_of(items.drop_last());
        match field_text(items.last(), "question"@) {
            Some(text) => if before.len() == 0 {
                text
            } else {
                before + "\n"@ + text
            },
            None => before,
        }
    }
}

/// The questions that a request for input lists.
pub open spec fn questions_of(params: JsonModel) -> Seq<JsonModel> {
    match json_member(params, "questions"@) {
        Some(JsonModel::Array(items)) => items,
        _ => Seq::empty(),
    }
}

/// The question that a request for input asks: its questions' texts, or
/// else its own `question`, or else a fixed sentence.
pub open spec fn asked_question(params: JsonModel) -> Seq<char> {
    let listed = question_text_of(questions_of(params));
    if listed.len() > 0 {
        listed
    } else {
        match field_text(params, "question"@) {
            Some(text) => text,
            None => "User input requested"@,
        }
    }
}

/// The event that a turn notification stands for.
pub open spec fn normalized_turn(workspace_id: Seq<char>, params: JsonModel, at_ms: i64, started: bool) -> Option<
    EventModel,
> {
    let turn = object_member(params, "turn"@);
    let thread_id = either(thread_id_of(params), thread_id_of(turn));
    let turn_id = either(turn_id_of(params), field_text(turn, "id"@));
    let task = either(task_of(params), task_of(turn));
    if thread_id is Some && turn_id is Some {
        if started {
            Some(
                EventModel::TurnStarted {
                    workspace_id,
                    thread_id: thread_id->0,
                    turn_id: turn_id->0,
                    task,
                    received_at_ms: at_ms,
                },
            )
        } else {
            Some(
                EventModel::TurnCompleted {
                    workspace_id,
                    thread_id: thread_id->0,
                    turn_id: turn_id->0,
                    task,
                    received_at_ms: at_ms,
                },
            )
        }
    } else {
        None
    }
}

/// The event that an item notification stands for.
pub open spec fn normalized_item(workspace_id: Seq<char>, params: JsonModel, at_ms: i64, started: bool) -> Option<
    EventModel,
> {
    let item = object_member(params, "item"@);
    let thread_id = either(thread_id_of(params), thread_id_of(item));
    let item_id = either(item_id_of(params), field_text(item, "id"@));
    let item_type = field_text(item, "type"@);
    let task = either(task_of(params), task_of(item));
    let item_content = either(field_text(item, "text"@), field_text(item, "content"@));
    if thread_id is Some && item_id is Some {
        if started {
            Some(
                EventModel::ItemStarted {
                    workspace_id,
                    thread_id: thread_id->0,
                    item_id: item_id->0,
                    item_type,
                    task,
                    item_content,
                    received_at_ms: at_ms,
                },
            )
        } else {
            Some(
                EventModel::ItemCompleted {
                    workspace_id,
                    thread_id: thread_id->0,
                    item_id: item_id->0,
                    item_type,
                    task,
                    item_content,
                    received_at_ms: at_ms,
                },
            )
        }
    } else {
        None
    }
}

/// The key of a request: the workspace id, a colon, the request id.
pub open spec fn request_key_of(workspace_id: Seq<char>, request_id: Seq<char>) -> Seq<char> {
    workspace_id + ":"@ + request_id
}

/// The event that a request for approval stands for.
pub open spec fn normalized_approval(
    workspace_id: Seq<char>,
    method: Seq<char>,
    message: JsonModel,
    params: JsonModel,
    at_ms: i64,
) -> Option<EventModel> {
    match request_id_of(message) {
        Some(request_id) => Some(
            EventModel::ApprovalRequested {
                workspace_id,
                request_key: request_key_of(workspace_id, request_id),
                request_id,
                method,
                thread_id: thread_id_of(params),
                turn_id: turn_id_of(params),
                item_id: item_id_of(params),
                params,
                received_at_ms: at_ms,
            },
        ),
        None => None,
    }
}

/// The event that a request for input stands for.
pub open spec fn normalized_user_input(workspace_id: Seq<char>, message: JsonModel, params: JsonModel, at_ms: i64) -> Option<
    EventModel,
> {
    match request_id_of(message) {
        Some(request_id) => Some(
            EventModel::UserInputRequested {
                workspace_id,
                request_key: request_key_of(workspace_id, request_id),
                request_id,
                request_id_value: json_member(message, "id"@)->0,
                thread_id: thread_id_of(params),
                turn_id: turn_id_of(params),
                item_id: item_id_of(params),
                question: asked_question(params),
                question_ids: question_ids_of(questions_of(params)),
                params,
                received_at_ms: at_ms,
            },
        ),
        None => None,
    }
}

/// The event that an error notification stands for.
pub open spec fn normalized_error(workspace_id: Seq<char>, params: JsonModel, at_ms: i64) -> Option<EventModel> {
    match error_message_of(params) {
        Some(message) => Some(
            EventModel::Error {
                workspace_id,
                thread_id: thread_id_of(params),
                turn_id: turn_id_of(params),
                message,
                will_retry: will_retry_of(params),
                received_at_ms: at_ms,
            },
        ),
        None => None,
    }
}

/// The trimmed method name of a message, where it has one that is not blank.
pub open spec fn method_of(message: JsonModel) -> Option<Seq<char>> {
    field_text(message, "method"@)
}

/// The event that a raw message of a workspace stands for, if any.
pub open spec fn normalized(workspace_id: Seq<char>, message: JsonModel, at_ms: i64) -> Option<EventModel> {
    match method_of(message) {
        Some(method) => {
            let params = object_member(message, "params"@);
            if method == "turn/started"@ {
                normalized_turn(workspace_id, params, at_ms, true)
            } else if method == "turn/completed"@ {
                normalized_turn(workspace_id, params, at_ms, false)
            } else if method == "item/started"@ {
                normalized_item(workspace_id, params, at_ms, true)
            } else if method == "item/completed"@ {
                normalized_item(workspace_id, params, at_ms, false)
            } else if method == "error"@ {
                normalized_error(workspace_id, params, at_ms)
            } else if finishes_with(method, "requestApproval"@) {
                normalized_approval(workspace_id, method, message, params, at_ms)
            } else if finishes_with(method, "requestUserInput"@) {
                normalized_user_input(workspace_id, message, params, at_ms)
            } else {
                None
            }
        },
        None => None,
    }
}

/// The first of two optional texts that is there.
pub fn pick(first: Option<String>, second: Option<String>) -> (chosen: Option<String>)
    ensures
        chosen.deep_view() == either(first.deep_view(), second.deep_view()),
{
    match first {
        Some(text) => Some(text),
        None => second,
    }
}

/// The trimmed text of a member, where it is a string that is not blank.
pub fn extract_field(map: &JsonValue, key: &str) -> (text: Option<String>)
    ensures
        text.deep_view() == field_text(map@, key@),
{
    match map.get(key) {
        Some(value) => match value.as_str() {
            Some(raw) => {
                let cut = raw.trim();
                if cut.unicode_len() > 0 {
                    Some(cut.to_owned())
                } else {
                    None
                }
            },
            None => None,
        },
        None => None,
    }
}

/// The member `key` where it is an object; an empty object otherwise.
pub fn extract_object(map: &JsonValue, key: &str) -> (object: JsonValue)
    ensures
        object@ == object_member(map@, key@),
{
    match map.get(key) {
        Some(value) => {
            if value.is_object() {
                value.clone()
            } else {
                JsonValue::empty_object()
            }
        },
        None => JsonValue::empty_object(),
    }
}

fn extract_thread_id(map: &JsonValue) -> (id: Option<String>)
    ensures
        id.deep_view() == thread_id_of(map@),
{
    pick(extract_field(map, "threadId"), extract_field(map, "thread_id"))
}

fn extract_turn_id(map: &JsonValue) -> (id: Option<String>)
    ensures
        id.deep_view() == turn_id_of(map@),
{
    pick(extract_field(map, "turnId"), extract_field(map, "turn_id"))
}

fn extract_item_id(map: &JsonValue) -> (id: Option<String>)
    ensures
        id.deep_view() == item_id_of(map@),
{
    pick(extract_field(map, "itemId"), extract_field(map, "item_id"))
}

/// The task that a record describes.
pub fn extract_task(map: &JsonValue) -> (task: Option<String>)
    ensures
        task.deep_view() == task_of(map@),
{
    pick(
        extract_field(map, "currentTask"),
        pick(
            extract_field(map, "current_task"),
            pick(extract_field(map, "summary"), pick(extract_field(map, "preview"), extract_field(map, "title"))),
        ),
    )
}

/// Whether the sender will retry, as the notification says.
pub fn extract_bool(params: &JsonValue) -> (flag: bool)
    ensures
        flag == will_retry_of(params@),
{
    let first = match params.get("willRetry") {
        Some(v) => v.as_bool(),
        None => None,
    };
    let second = match params.get("will_retry") {
        Some(v) => v.as_bool(),
        None => None,
    };
    match first {
        Some(flag) => flag,
        None => match second {
            Some(flag) => flag,
            None => false,
        },
    }
}

/// The request id of a message envelope as text.
pub fn extract_request_id(message: &JsonValue) -> (id: Option<String>)
    ensures
        id.deep_view() == request_id_of(message@),
{
    match message.get("id") {
        Some(id) => {
            match id.as_i64() {
                Some(n) => Some(decimal(n as i128)),
                None => match id.as_u64() {
                    Some(n) => Some(decimal(n as i128)),
                    None => match id.as_str() {
                        Some(text) => Some(text.trim().to_owned()),
                        None => None,
                    },
                },
            }
        },
        None => None,
    }
}

/// The event that a turn notification stands for.
pub fn normalize_turn_event(workspace_id: &str, params: &JsonValue, received_at_ms: i64, started: bool) -> (event:
    Option<SupervisorEvent>)
    ensures
        event.deep_view() == normalized_turn(workspace_id@, params@, received_at_ms, started),
{
    let turn = extract_object(params, "turn");
    let thread_id = pick(extract_thread_id(params), extract_thread_id(&turn));
    let turn_id = pick(extract_turn_id(params), extract_field(&turn, "id"));
    let task = pick(extract_task(params), extract_task(&turn));
    match (thread_id, turn_id) {
        (Some(thread_id), Some(turn_id)) => {
            if started {
                Some(
                    SupervisorEvent::TurnStarted {
                        workspace_id: workspace_id.to_owned(),
                        thread_id,
                        turn_id,
                        task,
                        received_at_ms,
                    },
                )
            } else {
                Some(
                    SupervisorEvent::TurnCompleted {
                        workspace_id: workspace_id.to_owned(),
                        thread_id,
                        turn_id,
                        task,
                        received_at_ms,
                    },
                )
            }
        },
        _ => None,
    }
}

/// The event that an item notification stands for.
pub fn normalize_item_event(workspace_id: &str, params: &JsonValue, received_at_ms: i64, started: bool) -> (event:
    Option<SupervisorEvent>)
    ensures
        event.deep_view() == normalized_item(workspace_id@, params@, received_at_ms, started),
{
    let item = extract_object(params, "item");
    let thread_id = pick(extract_thread_id(params), extract_thread_id(&item));
    let item_id = pick(extract_item_id(params), extract_field(&item, "id"));
    let item_type = extract_field(&item, "type");
    let task = pick(extract_task(params), extract_task(&item));
    let item_content = pick(extract_field(&item, "text"), extract_field(&item, "content"));
    match (thread_id, item_id) {
        (Some(thread_id), Some(item_id)) => {
            if started {
                Some(
                    SupervisorEvent::ItemStarted {
                        workspace_id: workspace_id.to_owned(),
                        thread_id,
                        item_id,
                        item_type,
                        task,
                        item_content,
                        received_at_ms,
                    },
                )
            } else {
                Some(
                    SupervisorEvent::ItemCompleted {
                        workspace_id: workspace_id.to_owned(),
                        thread_id,
                        item_id,
                        item_type,
                        task,
                        item_content,
                        received_at_ms,
                    },
                )
            }
        },
        _ => None,
    }
}

/// The key of a request.
pub fn request_key(workspace_id: &str, request_id: &str) -> (key: String)
    ensures
        key@ == request_key_of(workspace_id@, request_id@),
{
    let mut key = workspace_id.to_owned();
    key.append(":");
    key.append(request_id);
    key
}

/// The event that a request for approval stands for.
pub fn normalize_approval_event(
    workspace_id: &str,
    method: &str,
    message: &JsonValue,
    params: &JsonValue,
    received_at_ms: i64,
) -> (event: Option<SupervisorEvent>)
    ensures
        event.deep_view() == normalized_approval(workspace_id@, method@, message@, params@, received_at_ms),
{
    match extract_request_id(message) {
        Some(request_id) => Some(
            SupervisorEvent::ApprovalRequested {
                workspace_id: workspace_id.to_owned(),
                request_key: request_key(workspace_id, request_id.as_str()),
                request_id,
                method: method.to_owned(),
                thread_id: extract_thread_id(params),
                turn_id: extract_turn_id(params),
                item_id: extract_item_id(params),
                params: params.clone(),
                received_at_ms,
            },
        ),
        None => None,
    }
}

/// The ids and the text of the questions that a request for input lists.
fn extract_questions(params: &JsonValue) -> (listed: (Vec<String>, String))
    ensures
        listed.0.deep_view() == question_ids_of(questions_of(params@)),
        listed.1@ == question_text_of(questions_of(params@)),
{
    let mut ids: Vec<String> = Vec::new();
    let mut text = String::new();
    match params.get("questions") {
        Some(JsonValue::Array(items)) => {
            let ghost models = items_view(items@);
            proof {
                assert(JsonValue::Array(*items)@->Array_0 =~= models);
            }
            assert(models.take(0) =~= Seq::<JsonModel>::empty());
            assert(ids.deep_view() =~= Seq::<Seq<char>>::empty());
            let mut i: usize = 0;
            while i < items.len()
                invariant
                    i <= items.len(),
                    models == items_view(items@),
                    ids.deep_view() == question_ids_of(models.take(i as int)),
                    text@ == question_text_of(models.take(i as int)),
                decreases items.len() - i,
            {
                let ghost before_ids = ids.deep_view();
                proof {
                    assert(models.take(i + 1).drop_last() =~= models.take(i as int));
                    assert(models.take(i + 1).last() == models[i as int]);
                    assert(models[i as int] == items@[i as int]@);
                }
                match extract_field(&items[i], "id") {
                    Some(id) => {
                        ids.push(id);
                        assert(ids.deep_view() =~= before_ids.push(id@));
                    },
                    None => {},
                }
                match extract_field(&items[i], "question") {
                    Some(question) => {
                        if text.as_str().unicode_len() > 0 {
                            text.append("\n");
                        }
                        text.append(question.as_str());
                    },
                    None => {},
                }
                i += 1;
            }
            assert(models.take(i as int) =~= models);
        },
        _ => {
            assert(ids.deep_view() =~= Seq::<Seq<char>>::empty());
        },
    }
    (ids, text)
}

/// The event that a request for input stands for.
pub fn normalize_user_input_event(workspace_id: &str, message: &JsonValue, params: &JsonValue, received_at_ms: i64) -> (event:
    Option<SupervisorEvent>)
    ensures
        event.deep_view() == normalized_user_input(workspace_id@, message@, params@, received_at_ms),
{
    match extract_request_id(message) {
        Some(request_id) => {
            let request_id_value = match message.get("id") {
                Some(value) => value.clone(),
                None => JsonValue::Null,
            };
            let (question_ids, listed) = extract_questions(params);
            let question = if listed.as_str().unicode_len() > 0 {
                listed
            } else {
                match extract_field(params, "question") {
                    Some(text) => text,
                    None => "User input requested".to_owned(),
                }
            };
            Some(
                SupervisorEvent::UserInputRequested {
                    workspace_id: workspace_id.to_owned(),
                    request_key: request_key(workspace_id, request_id.as_str()),
                    request_id,
                    request_id_value,
                    thread_id: extract_thread_id(params),
                    turn_id: extract_turn_id(params),
                    item_id: extract_item_id(params),
                    question,
                    question_ids,
                    params: params.clone(),
                    received_at_ms,
                },
            )
        },
        None => None,
    }
}

/// The event that an error notification stands for.
pub fn normalize_error_event(workspace_id: &str, params: &JsonValue, received_at_ms: i64) -> (event: Option<
    SupervisorEvent,
>)
    ensures
        event.deep_view() == normalized_error(workspace_id@, params@, received_at_ms),
{
    let error = extract_object(params, "error");
    let message = pick(extract_field(&error, "message"), extract_field(params, "message"));
    match message {
        Some(message) => Some(
            SupervisorEvent::Error {
                workspace_id: workspace_id.to_owned(),
                thread_id: extract_thread_id(params),
                turn_id: extract_turn_id(params),
                message,
                will_retry: extract_bool(params),
                received_at_ms,
            },
        ),
        None => None,
    }
}

/// The event that a raw message of a workspace stands for, if any.
pub fn normalize_app_server_event(workspace_id: &str, message: &JsonValue, received_at_ms: i64) -> (event: Option<
    SupervisorEvent,
>)
    ensures
        event.deep_view() == normalized(workspace_id@, message@, received_at_ms),
{
    match extract_field(message, "method") {
        Some(method) => {
            let params = extract_object(message, "params");
            let method = method.as_str();
            if text_eq(method, "turn/started") {
                normalize_turn_event(workspace_id, &params, received_at_ms, true)
            } else if text_eq(method, "turn/completed") {
                normalize_turn_event(workspace_id, &params, received_at_ms, false)
            } else if text_eq(method, "item/started") {
                normalize_item_event(workspace_id, &params, received_at_ms, true)
            } else if text_eq(method, "item/completed") {
                normalize_item_event(workspace_id, &params, received_at_ms, false)
            } else if text_eq(method, "error") {
                normalize_error_event(workspace_id, &params, received_at_ms)
            } else if text_ends_with(method, "requestApproval") {
                normalize_approval_event(workspace_id, method, message, &params, received_at_ms)
            } else if text_ends_with(method, "requestUserInput") {
                normalize_user_input_event(workspace_id, message, &params, received_at_ms)
            } else {
                None
            }
        },
        None => None,
    }
}

impl DeepView for SupervisorEvent {
    type V = EventModel;

    open spec fn deep_view(&self) -> EventModel {
        self@
    }
}

} // verus!
