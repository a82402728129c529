use vstd::prelude::*;
use vstd::string::*;

use crate::events::{normalize_app_server_event, normalized, EventModel, SupervisorEvent};
use crate::json::{JsonModel, JsonValue};
use crate::json_ops::{json_member, json_text, new_members, push_member, text_or_null_model, texts_model};
use crate::model::{
    ActivityModel, ApprovalModel, JobModel, QuestionModel, SignalModel, SubtaskEventModel,
    SupervisorActivityEntry, SupervisorHealth, SupervisorJobStatus, SupervisorOpenQuestion,
    SupervisorPendingApproval, SupervisorSignal, SupervisorSignalKind, SupervisorSubtaskEvent,
    SupervisorThreadStatus, WorkspaceModel,
};
use crate::reducer::{apply_update, reduced, SupervisorStateUpdate, UpdateModel};
use crate::supervisor_loop::{
    matching_job, with_activity, with_heartbeat, with_job_progress, with_signal, with_thread_activity,
    workspace_or_blank, LoopModel, SupervisorLoop,
};
use crate::text::{
    decimal, integer_text, same_ignoring_ascii_case, summarize_text, summary_of, text_eq,
    text_eq_ignoring_ascii_case, trimmed,
};

use crate::loop_laws::{
    jobs_consistent, lemma_event_keeps_jobs_consistent, lemma_event_keeps_well_formed,
    lemma_message_keeps_jobs_consistent, lemma_message_keeps_well_formed,
};
use crate::reducer_laws::well_formed;

verus! {

/// What the feed and the signals tell of a turn.
pub open spec fn turn_meta(turn_id: Seq<char>, task: Option<Seq<char>>) -> JsonModel {
    JsonModel::Object(
        Seq::empty().push(("turnId"@, JsonModel::Text(turn_id))).push(("task"@, text_or_null_model(task))),
    )
}

/// What the feed tells of an item.
pub open spec fn item_meta(
    item_id: Seq<char>,
    item_type: Option<Seq<char>>,
    task: Option<Seq<char>>,
    item_content: Option<Seq<char>>,
) -> JsonModel {
    JsonModel::Object(
        Seq::empty().push(("itemId"@, JsonModel::Text(item_id))).push(("itemType"@, text_or_null_model(item_type))).push(
            ("task"@, text_or_null_model(task)),
        ).push(("itemContent"@, text_or_null_model(item_content))),
    )
}

/// What the signals and the feed tell of an error.
pub open spec fn error_meta(will_retry: bool, turn_id: Option<Seq<char>>) -> JsonModel {
    JsonModel::Object(
        Seq::empty().push(("willRetry"@, JsonModel::Bool(will_retry))).push(("turnId"@, text_or_null_model(turn_id))),
    )
}

/// An object with the one member `requestKey`.
pub open spec fn request_key_meta(request_key: Seq<char>) -> JsonModel {
    JsonModel::Object(Seq::empty().push(("requestKey"@, JsonModel::Text(request_key))))
}

/// The text, or the empty text where there is none.
pub open spec fn text_or_empty(text: Option<Seq<char>>) -> Seq<char> {
    match text {
        Some(t) => t,
        None => Seq::empty(),
    }
}

/// The name of an item's type for a message: the trimmed type, or `unknown`.
pub open spec fn item_type_label(item_type: Option<Seq<char>>) -> Seq<char> {
    match item_type {
        Some(t) => trimmed(t),
        None => trimmed("unknown"@),
    }
}

/// What the feed and the signals tell of a turn.
pub fn turn_metadata(turn_id: &str, task: &Option<String>) -> (meta: JsonValue)
    ensures
        meta@ == turn_meta(turn_id@, task.deep_view()),
{
    let mut members = new_members();
    push_member(&mut members, "turnId", JsonValue::text(turn_id));
    push_member(&mut members, "task", JsonValue::text_or_null(task));
    JsonValue::object(members)
}

/// What the feed tells of an item.
pub fn item_metadata(
    item_id: &str,
    item_type: &Option<String>,
    task: &Option<String>,
    item_content: &Option<String>,
) -> (meta: JsonValue)
    ensures
        meta@ == item_meta(item_id@, item_type.deep_view(), task.deep_view(), item_content.deep_view()),
{
    let mut members = new_members();
    push_member(&mut members, "itemId", JsonValue::text(item_id));
    push_member(&mut members, "itemType", JsonValue::text_or_null(item_type));
    push_member(&mut members, "task", JsonValue::text_or_null(task));
    push_member(&mut members, "itemContent", JsonValue::text_or_null(item_content));
    JsonValue::object(members)
}

/// What the signals and the feed tell of an error.
pub fn error_metadata(will_retry: bool, turn_id: &Option<String>) -> (meta: JsonValue)
    ensures
        meta@ == error_meta(will_retry, turn_id.deep_view()),
{
    let mut members = new_members();
    push_member(&mut members, "willRetry", JsonValue::Bool(will_retry));
    push_member(&mut members, "turnId", JsonValue::text_or_null(turn_id));
    JsonValue::object(members)
}

/// An object with the one member `requestKey`.
pub fn request_key_metadata(request_key: &str) -> (meta: JsonValue)
    ensures
        meta@ == request_key_meta(request_key@),
{
    let mut members = new_members();
    push_member(&mut members, "requestKey", JsonValue::text(request_key));
    JsonValue::object(members)
}

fn opt_or_empty(text: &Option<String>) -> (out: &str)
    ensures
        out@ == text_or_empty(text.deep_view()),
{
    match text {
        Some(t) => t.as_str(),
        None => {
            proof {
                reveal_strlit("");
                assert(""@ =~= Seq::<char>::empty());
            }
            ""
        },
    }
}

/// `a`, a colon, `b`, a colon, `c`, after the prefix.
pub open spec fn triple_id(prefix: Seq<char>, a: Seq<char>, b: Seq<char>, c: Seq<char>) -> Seq<char> {
    prefix + a + ":"@ + b + ":"@ + c
}

/// A triple id with a colon and a time after it.
pub open spec fn timed_id(prefix: Seq<char>, a: Seq<char>, b: Seq<char>, c: Seq<char>, at_ms: i64) -> Seq<char> {
    triple_id(prefix, a, b, c) + ":"@ + integer_text(at_ms as int)
}

fn make_triple_id(prefix: &str, a: &str, b: &str, c: &str) -> (id: String)
    ensures
        id@ == triple_id(prefix@, a@, b@, c@),
{
    let mut id = prefix.to_owned();
    id.append(a);
    id.append(":");
    id.append(b);
    id.append(":");
    id.append(c);
    id
}

fn make_timed_id(prefix: &str, a: &str, b: &str, c: &str, at_ms: i64) -> (id: String)
    ensures
        id@ == timed_id(prefix@, a@, b@, c@, at_ms),
{
    let mut id = make_triple_id(prefix, a, b, c);
    id.append(":");
    id.append(decimal(at_ms as i128).as_str());
    id
}

/// `before`, `middle`, `after`, one after the other.
fn wrap(before: &str, middle: &str, after: &str) -> (text: String)
    ensures
        text@ == before@ + middle@ + after@,
{
    let mut text = before.to_owned();
    text.append(middle);
    text.append(after);
    text
}

/// The loop after a turn started.
pub open spec fn turn_started_applied(
    lp: LoopModel,
    workspace_id: Seq<char>,
    thread_id: Seq<char>,
    turn_id: Seq<char>,
    task: Option<Seq<char>>,
    at_ms: i64,
) -> LoopModel {
    let lp1 = with_thread_activity(
        lp,
        workspace_id,
        thread_id,
        Some(turn_id),
        SupervisorThreadStatus::Running,
        task,
        at_ms,
    );
    let s2 = with_activity(
        lp1.state,
        lp1.config.activity_feed_limit,
        ActivityModel {
            id: timed_id("turn_started:"@, workspace_id, thread_id, turn_id, at_ms),
            kind: "turn_started"@,
            message: "Turn started"@,
            created_at_ms: at_ms,
            workspace_id: Some(workspace_id),
            thread_id: Some(thread_id),
            needs_input: false,
            metadata: turn_meta(turn_id, task),
        },
    );
    match matching_job(s2.jobs, workspace_id, Some(thread_id)) {
        Some(job) => LoopModel {
            state: with_job_progress(
                s2,
                JobModel {
                    status: SupervisorJobStatus::Running,
                    thread_id: Some(thread_id),
                    error: None,
                    waiting_request_id: None,
                    waiting_question_ids: Seq::empty(),
                    ..job
                },
                SubtaskEventModel {
                    id: triple_id("turn_started:"@, workspace_id, thread_id, turn_id),
                    kind: "running"@,
                    message: "Turn `"@ + turn_id + "` started."@,
                    created_at_ms: at_ms,
                    metadata: turn_meta(turn_id, task),
                },
                "Progress update: turn `"@ + turn_id + "` started."@,
                "turn_started"@,
                at_ms,
            ),
            ..lp1
        },
        None => LoopModel { state: s2, ..lp1 },
    }
}

/// The loop after a turn completed.
pub open spec fn turn_completed_applied(
    lp: LoopModel,
    workspace_id: Seq<char>,
    thread_id: Seq<char>,
    turn_id: Seq<char>,
    task: Option<Seq<char>>,
    at_ms: i64,
) -> LoopModel {
    let lp1 = with_thread_activity(lp, workspace_id, thread_id, None, SupervisorThreadStatus::Completed, task, at_ms);
    let s2 = with_signal(
        lp1.state,
        SignalModel {
            id: "turn:"@ + workspace_id + ":"@ + thread_id + ":"@ + turn_id + ":completed"@,
            kind: SupervisorSignalKind::Completed,
            workspace_id: Some(workspace_id),
            thread_id: Some(thread_id),
            job_id: None,
            message: "Turn completed"@,
            created_at_ms: at_ms,
            acknowledged_at_ms: None,
            context: turn_meta(turn_id, task),
        },
    );
    let s3 = with_activity(
        s2,
        lp1.config.activity_feed_limit,
        ActivityModel {
            id: timed_id("turn_completed:"@, workspace_id, thread_id, turn_id, at_ms),
            kind: "turn_completed"@,
            message: "Turn completed"@,
            created_at_ms: at_ms,
            workspace_id: Some(workspace_id),
            thread_id: Some(thread_id),
            needs_input: false,
            metadata: turn_meta(turn_id, task),
        },
    );
    match matching_job(s3.jobs, workspace_id, Some(thread_id)) {
        Some(job) => LoopModel {
            state: with_job_progress(
                s3,
                JobModel {
                    status: SupervisorJobStatus::Completed,
                    completed_at_ms: Some(at_ms),
                    waiting_request_id: None,
                    waiting_question_ids: Seq::empty(),
                    ..job
                },
                SubtaskEventModel {
                    id: triple_id("turn_completed:"@, workspace_id, thread_id, turn_id),
                    kind: "completed"@,
                    message: "Turn completed"@,
                    created_at_ms: at_ms,
                    metadata: turn_meta(turn_id, task),
                },
                "Subtask completed. Next action: review result and send follow-up instructions if needed."@,
                "turn_completed"@,
                at_ms,
            ),
            ..lp1
        },
        None => LoopModel { state: s3, ..lp1 },
    }
}

/// The line that the chat gets when an item completed: the agent's answer
/// in short where the item is an agent message with content.
pub open spec fn item_completed_chat(item_type: Option<Seq<char>>, item_content: Option<Seq<char>>) -> Seq<char> {
    if item_type is Some && same_ignoring_ascii_case(item_type->0, "agentMessage"@) && item_content is Some {
        "Agent response: "@ + summary_of(item_content->0, 240)
    } else {
        "Progress update: item `"@ + item_type_label(item_type) + "` completed."@
    }
}

/// The loop after an item started (`started`) or completed.
pub open spec fn item_applied(
    lp: LoopModel,
    started: bool,
    workspace_id: Seq<char>,
    thread_id: Seq<char>,
    item_id: Seq<char>,
    item_type: Option<Seq<char>>,
    task: Option<Seq<char>>,
    item_content: Option<Seq<char>>,
    at_ms: i64,
) -> LoopModel {
    let lp1 = with_thread_activity(lp, workspace_id, thread_id, None, SupervisorThreadStatus::Running, task, at_ms);
    let meta = item_meta(item_id, item_type, task, item_content);
    let s2 = with_activity(
        lp1.state,
        lp1.config.activity_feed_limit,
        ActivityModel {
            id: timed_id(
                if started {
                    "item_started:"@
                } else {
                    "item_completed:"@
                },
                workspace_id,
                thread_id,
                item_id,
                at_ms,
            ),
            kind: if started {
                "item_started"@
            } else {
                "item_completed"@
            },
            message: if started {
                "Item started"@
            } else {
                "Item completed"@
            },
            created_at_ms: at_ms,
            workspace_id: Some(workspace_id),
            thread_id: Some(thread_id),
            needs_input: false,
            metadata: meta,
        },
    );
    match matching_job(s2.jobs, workspace_id, Some(thread_id)) {
        Some(job) => LoopModel {
            state: with_job_progress(
                s2,
                JobModel {
                    status: SupervisorJobStatus::Running,
                    waiting_request_id: None,
                    waiting_question_ids: Seq::empty(),
                    ..job
                },
                SubtaskEventModel {
                    id: triple_id(
                        if started {
                            "item_started:"@
                        } else {
                            "item_completed:"@
                        },
                        workspace_id,
                        thread_id,
                        item_id,
                    ),
                    kind: "running"@,
                    message: "Item `"@ + item_type_label(item_type) + (if started {
                        "` started."@
                    } else {
                        "` completed."@
                    }),
                    created_at_ms: at_ms,
                    metadata: meta,
                },
                if started {
                    "Progress update: item `"@ + item_type_label(item_type) + "` started."@
                } else {
                    item_completed_chat(item_type, item_content)
                },
                if started {
                    "item_started"@
                } else {
                    "item_completed"@
                },
                at_ms,
            ),
            ..lp1
        },
        None => LoopModel { state: s2, ..lp1 },
    }
}

/// What an open question keeps of the request behind it.
pub open spec fn question_context(
    request_id_value: JsonModel,
    turn_id: Option<Seq<char>>,
    item_id: Option<Seq<char>>,
    question_ids: Seq<Seq<char>>,
    params: JsonModel,
) -> JsonModel {
    JsonModel::Object(
        Seq::empty().push(("requestId"@, request_id_value)).push(("turnId"@, text_or_null_model(turn_id))).push(
            ("itemId"@, text_or_null_model(item_id)),
        ).push(("questionIds"@, texts_model(question_ids))).push(("params"@, params)),
    )
}

/// What the feed tells of a request for input.
pub open spec fn waiting_activity_meta(
    request_key: Seq<char>,
    request_id: Seq<char>,
    turn_id: Option<Seq<char>>,
    item_id: Option<Seq<char>>,
    question: Seq<char>,
    question_ids: Seq<Seq<char>>,
    params: JsonModel,
) -> JsonModel {
    JsonModel::Object(
        Seq::empty().push(("requestKey"@, JsonModel::Text(request_key))).push(
            ("requestId"@, JsonModel::Text(request_id)),
        ).push(("turnId"@, text_or_null_model(turn_id))).push(("itemId"@, text_or_null_model(item_id))).push(
            ("question"@, JsonModel::Text(question)),
        ).push(("questionIds"@, texts_model(question_ids))).push(("params"@, params)),
    )
}

/// What a job's event tells of a request for input.
pub open spec fn waiting_event_meta(request_key: Seq<char>, request_id: Seq<char>, question_ids: Seq<Seq<char>>) -> JsonModel {
    JsonModel::Object(
        Seq::empty().push(("requestKey"@, JsonModel::Text(request_key))).push(
            ("requestId"@, JsonModel::Text(request_id)),
        ).push(("questionIds"@, texts_model(question_ids))),
    )
}

/// The loop after a child task asked the operator for input.
pub open spec fn user_input_applied(
    lp: LoopModel,
    workspace_id: Seq<char>,
    request_key: Seq<char>,
    request_id: Seq<char>,
    request_id_value: JsonModel,
    thread_id: Option<Seq<char>>,
    turn_id: Option<Seq<char>>,
    item_id: Option<Seq<char>>,
    question: Seq<char>,
    question_ids: Seq<Seq<char>>,
    params: JsonModel,
    at_ms: i64,
) -> LoopModel {
    let s1 = reduced(
        lp.state,
        UpdateModel::UpsertOpenQuestion(
            QuestionModel {
                id: request_key,
                workspace_id,
                thread_id: match thread_id {
                    Some(t) => t,
                    None => "-"@,
                },
                question,
                created_at_ms: at_ms,
                resolved_at_ms: None,
                context: question_context(request_id_value, turn_id, item_id, question_ids, params),
            },
        ),
    );
    let s2 = with_activity(
        s1,
        lp.config.activity_feed_limit,
        ActivityModel {
            id: "waiting_for_user:"@ + request_key + ":"@ + integer_text(at_ms as int),
            kind: "waiting_for_user"@,
            message: "Child task is waiting for user input"@,
            created_at_ms: at_ms,
            workspace_id: Some(workspace_id),
            thread_id,
            needs_input: true,
            metadata: waiting_activity_meta(request_key, request_id, turn_id, item_id, question, question_ids, params),
        },
    );
    match matching_job(s2.jobs, workspace_id, thread_id) {
        Some(job) => LoopModel {
            state: with_job_progress(
                s2,
                JobModel {
                    status: SupervisorJobStatus::WaitingForUser,
                    waiting_request_id: Some(request_id_value),
                    waiting_question_ids: question_ids,
                    ..job
                },
                SubtaskEventModel {
                    id: "waiting_for_user:"@ + job.id + ":"@ + request_key,
                    kind: "waiting_for_user"@,
                    message: "Child question: "@ + question,
                    created_at_ms: at_ms,
                    metadata: waiting_event_meta(request_key, request_id, question_ids),
                },
                "Child task asks: "@ + question + "\nReply in this chat to continue (subtask `"@ + job.id + "`)."@,
                "waiting_for_user"@,
                at_ms,
            ),
            ..lp
        },
        None => LoopModel { state: s2, ..lp },
    }
}

/// The loop after a child task asked for approval.
pub open spec fn approval_applied(
    lp: LoopModel,
    workspace_id: Seq<char>,
    request_key: Seq<char>,
    request_id: Seq<char>,
    method: Seq<char>,
    thread_id: Option<Seq<char>>,
    turn_id: Option<Seq<char>>,
    item_id: Option<Seq<char>>,
    params: JsonModel,
    at_ms: i64,
) -> LoopModel {
    let s1 = reduced(
        lp.state,
        UpdateModel::UpsertPendingApproval(
            ApprovalModel {
                request_key,
                workspace_id,
                thread_id,
                turn_id,
                item_id,
                request_id,
                method,
                params,
                created_at_ms: at_ms,
                resolved_at_ms: None,
            },
        ),
    );
    let s2 = with_signal(
        s1,
        SignalModel {
            id: "approval:"@ + request_key,
            kind: SupervisorSignalKind::NeedsApproval,
            workspace_id: Some(workspace_id),
            thread_id,
            job_id: None,
            message: "Action requires approval"@,
            created_at_ms: at_ms,
            acknowledged_at_ms: None,
            context: request_key_meta(request_key),
        },
    );
    let s3 = with_activity(
        s2,
        lp.config.activity_feed_limit,
        ActivityModel {
            id: "approval:"@ + request_key + ":"@ + integer_text(at_ms as int),
            kind: "needs_approval"@,
            message: "Approval requested"@,
            created_at_ms: at_ms,
            workspace_id: Some(workspace_id),
            thread_id,
            needs_input: true,
            metadata: params,
        },
    );
    match matching_job(s3.jobs, workspace_id, thread_id) {
        Some(job) => LoopModel {
            state: with_job_progress(
                s3,
                JobModel {
                    status: SupervisorJobStatus::WaitingForUser,
                    waiting_request_id: Some(JsonModel::Text(request_id)),
                    waiting_question_ids: Seq::empty(),
                    ..job
                },
                SubtaskEventModel {
                    id: "approval_requested:"@ + job.id + ":"@ + request_key,
                    kind: "waiting_for_user"@,
                    message: "Approval requested"@,
                    created_at_ms: at_ms,
                    metadata: request_key_meta(request_key),
                },
                "Child task requires approval before it can continue."@,
                "needs_approval"@,
                at_ms,
            ),
            ..lp
        },
        None => LoopModel { state: s3, ..lp },
    }
}

/// The loop after a workspace reported an error.
pub open spec fn error_applied(
    lp: LoopModel,
    workspace_id: Seq<char>,
    thread_id: Option<Seq<char>>,
    turn_id: Option<Seq<char>>,
    message: Seq<char>,
    will_retry: bool,
    at_ms: i64,
) -> LoopModel {
    let lp1 = match thread_id {
        Some(t) => with_thread_activity(lp, workspace_id, t, turn_id, SupervisorThreadStatus::Failed, None, at_ms),
        None => lp,
    };
    let meta = error_meta(will_retry, turn_id);
    let s2 = with_signal(
        lp1.state,
        SignalModel {
            id: triple_id("error:"@, workspace_id, text_or_empty(thread_id), text_or_empty(turn_id)),
            kind: SupervisorSignalKind::Failed,
            workspace_id: Some(workspace_id),
            thread_id,
            job_id: None,
            message,
            created_at_ms: at_ms,
            acknowledged_at_ms: None,
            context: meta,
        },
    );
    let s3 = with_activity(
        s2,
        lp1.config.activity_feed_limit,
        ActivityModel {
            id: timed_id("error:"@, workspace_id, text_or_empty(thread_id), text_or_empty(turn_id), at_ms),
            kind: "error"@,
            message,
            created_at_ms: at_ms,
            workspace_id: Some(workspace_id),
            thread_id,
            needs_input: false,
            metadata: meta,
        },
    );
    match matching_job(s3.jobs, workspace_id, thread_id) {
        Some(job) => LoopModel {
            state: with_job_progress(
                s3,
                JobModel {
                    status: if will_retry {
                        SupervisorJobStatus::Running
                    } else {
                        SupervisorJobStatus::Failed
                    },
                    error: if will_retry {
                        job.error
                    } else {
                        Some(message)
                    },
                    waiting_request_id: None,
                    waiting_question_ids: Seq::empty(),
                    ..job
                },
                SubtaskEventModel {
                    id: triple_id("error:"@, workspace_id, text_or_empty(thread_id), text_or_empty(turn_id)),
                    kind: "failed"@,
                    message,
                    created_at_ms: at_ms,
                    metadata: meta,
                },
                if will_retry {
                    "Child task reported an error but will retry: "@ + message
                } else {
                    "Child task failed: "@ + message
                },
                "error"@,
                at_ms,
            ),
            ..lp1
        },
        None => LoopModel { state: s3, ..lp1 },
    }
}

/// The loop after an event.
pub open spec fn event_applied(lp: LoopModel, event: EventModel) -> LoopModel {
    match event {
        EventModel::TurnStarted { workspace_id, thread_id, turn_id, task, received_at_ms } => turn_started_applied(
            lp,
            workspace_id,
            thread_id,
            turn_id,
            task,
            received_at_ms,
        ),
        EventModel::TurnCompleted { workspace_id, thread_id, turn_id, task, received_at_ms } => turn_completed_applied(
            lp,
            workspace_id,
            thread_id,
            turn_id,
            task,
            received_at_ms,
        ),
        EventModel::ItemStarted {
            workspace_id,
            thread_id,
            item_id,
            item_type,
            task,
            item_content,
            received_at_ms,
        } => item_applied(lp, true, workspace_id, thread_id, item_id, item_type, task, item_content, received_at_ms),
        EventModel::ItemCompleted {
            workspace_id,
            thread_id,
            item_id,
            item_type,
            task,
            item_content,
            received_at_ms,
        } => item_applied(lp, false, workspace_id, thread_id, item_id, item_type, task, item_content, received_at_ms),
        EventModel::ApprovalRequested {
            workspace_id,
            request_key,
            request_id,
            method,
            thread_id,
            turn_id,
            item_id,
            params,
            received_at_ms,
        } => approval_applied(
            lp,
            workspace_id,
            request_key,
            request_id,
            method,
            thread_id,
            turn_id,
            item_id,
            params,
            received_at_ms,
        ),
        EventModel::UserInputRequested {
            workspace_id,
            request_key,
            request_id,
            request_id_value,
            thread_id,
            turn_id,
            item_id,
            question,
            question_ids,
            params,
            received_at_ms,
        } => user_input_applied(
            lp,
            workspace_id,
            request_key,
            request_id,
            request_id_value,
            thread_id,
            turn_id,
            item_id,
            question,
            question_ids,
            params,
            received_at_ms,
        ),
        EventModel::Error { workspace_id, thread_id, turn_id, message, will_retry, received_at_ms } => error_applied(
            lp,
            workspace_id,
            thread_id,
            turn_id,
            message,
            will_retry,
            received_at_ms,
        ),
    }
}

/// The loop after a workspace announced that it is connected.
pub open spec fn connected_applied(lp: LoopModel, workspace_id: Seq<char>, at_ms: i64) -> LoopModel {
    let known = workspace_or_blank(lp.state, workspace_id);
    let s1 = reduced(
        lp.state,
        UpdateModel::UpsertWorkspace(
            WorkspaceModel {
                connected: true,
                health: SupervisorHealth::Healthy,
                last_activity_at_ms: Some(at_ms),
                ..known
            },
        ),
    );
    LoopModel {
        state: with_activity(
            s1,
            lp.config.activity_feed_limit,
            ActivityModel {
                id: "connected:"@ + workspace_id + ":"@ + integer_text(at_ms as int),
                kind: "workspace_connected"@,
                message: "Workspace connected"@,
                created_at_ms: at_ms,
                workspace_id: Some(workspace_id),
                thread_id: None,
                needs_input: false,
                metadata: JsonModel::Null,
            },
        ),
        ..lp
    }
}

/// Whether a raw message announces that the workspace is connected.
pub open spec fn announces_connection(message: JsonModel) -> bool {
    match json_member(message, "method"@) {
        Some(method) => json_text(method) == Some("codex/connected"@),
        None => false,
    }
}

/// The loop after a raw message of a workspace: the time is recorded, and
/// the event that the message stands for, if any, is applied.
pub open spec fn message_applied(lp: LoopModel, workspace_id: Seq<char>, message: JsonModel, at_ms: i64) -> LoopModel {
    let beat = with_heartbeat(lp, workspace_id, at_ms);
    match normalized(workspace_id, message, at_ms) {
        Some(event) => event_applied(beat, event),
        None => if announces_connection(message) {
            connected_applied(beat, workspace_id, at_ms)
        } else {
            beat
        },
    }
}

fn item_label(item_type: &Option<String>) -> (label: &str)
    ensures
        label@ == item_type_label(item_type.deep_view()),
{
    match item_type {
        Some(t) => t.as_str().trim(),
        None => "unknown".trim(),
    }
}

fn question_context_value(
    request_id_value: &JsonValue,
    turn_id: &Option<String>,
    item_id: &Option<String>,
    question_ids: &Vec<String>,
    params: &JsonValue,
) -> (meta: JsonValue)
    ensures
        meta@ == question_context(
            request_id_value@,
            turn_id.deep_view(),
            item_id.deep_view(),
            question_ids.deep_view(),
            params@,
        ),
{
    let mut members = new_members();
    push_member(&mut members, "requestId", request_id_value.clone());
    push_member(&mut members, "turnId", JsonValue::text_or_null(turn_id));
    push_member(&mut members, "itemId", JsonValue::text_or_null(item_id));
    push_member(&mut members, "questionIds", JsonValue::texts(question_ids));
    push_member(&mut members, "params", params.clone());
    JsonValue::object(members)
}

fn waiting_activity_metadata(
    request_key: &str,
    request_id: &str,
    turn_id: &Option<String>,
    item_id: &Option<String>,
    question: &str,
    question_ids: &Vec<String>,
    params: &JsonValue,
) -> (meta: JsonValue)
    ensures
        meta@ == waiting_activity_meta(
            request_key@,
            request_id@,
            turn_id.deep_view(),
            item_id.deep_view(),
            question@,
            question_ids.deep_view(),
            params@,
        ),
{
    let mut members = new_members();
    push_member(&mut members, "requestKey", JsonValue::text(request_key));
    push_member(&mut members, "requestId", JsonValue::text(request_id));
    push_member(&mut members, "turnId", JsonValue::text_or_null(turn_id));
    push_member(&mut members, "itemId", JsonValue::text_or_null(item_id));
    push_member(&mut members, "question", JsonValue::text(question));
    push_member(&mut members, "questionIds", JsonValue::texts(question_ids));
    push_member(&mut members, "params", params.clone());
    JsonValue::object(members)
}

fn waiting_event_metadata(request_key: &str, request_id: &str, question_ids: &Vec<String>) -> (meta: JsonValue)
    ensures
        meta@ == waiting_event_meta(request_key@, request_id@, question_ids.deep_view()),
{
    let mut members = new_members();
    push_member(&mut members, "requestKey", JsonValue::text(request_key));
    push_member(&mut members, "requestId", JsonValue::text(request_id));
    push_member(&mut members, "questionIds", JsonValue::texts(question_ids));
    JsonValue::object(members)
}

impl SupervisorLoop {
    /// A turn started.
    pub fn on_turn_started(
        &mut self,
        workspace_id: &str,
        thread_id: &str,
        turn_id: &str,
        task: Option<String>,
        at_ms: i64,
    )
        ensures
            final(self)@ == turn_started_applied(
                old(self)@,
                workspace_id@,
                thread_id@,
                turn_id@,
                task.deep_view(),
                at_ms,
            ),
    {
        self.apply_thread_activity(
            workspace_id,
            thread_id,
            Some(turn_id.to_owned()),
            SupervisorThreadStatus::Running,
            task.clone(),
            at_ms,
        );
        self.push_activity(
            SupervisorActivityEntry {
                id: make_timed_id("turn_started:", workspace_id, thread_id, turn_id, at_ms),
                kind: "turn_started".to_owned(),
                message: "Turn started".to_owned(),
                created_at_ms: at_ms,
                workspace_id: Some(workspace_id.to_owned()),
                thread_id: Some(thread_id.to_owned()),
                needs_input: false,
                metadata: turn_metadata(turn_id, &task),
            },
        );
        match self.job_for_event(workspace_id, Some(thread_id)) {
            Some(job) => {
                let mut job = job;
                job.status = SupervisorJobStatus::Running;
                job.thread_id = Some(thread_id.to_owned());
                job.error = None;
                job.waiting_request_id = None;
                job.waiting_question_ids = Vec::new();
                assert(job.waiting_question_ids.deep_view() =~= Seq::<Seq<char>>::empty());
                let event = SupervisorSubtaskEvent {
                    id: make_triple_id("turn_started:", workspace_id, thread_id, turn_id),
                    kind: "running".to_owned(),
                    message: wrap("Turn `", turn_id, "` started."),
                    created_at_ms: at_ms,
                    metadata: turn_metadata(turn_id, &task),
                };
                let chat = wrap("Progress update: turn `", turn_id, "` started.");
                self.record_job_progress(job, event, chat.as_str(), "turn_started", at_ms);
            },
            None => {},
        }
    }

    /// A turn completed.
    pub fn on_turn_completed(
        &mut self,
        workspace_id: &str,
        thread_id: &str,
        turn_id: &str,
        task: Option<String>,
        at_ms: i64,
    )
        ensures
            final(self)@ == turn_completed_applied(
                old(self)@,
                workspace_id@,
                thread_id@,
                turn_id@,
                task.deep_view(),
                at_ms,
            ),
    {
        self.apply_thread_activity(
            workspace_id,
            thread_id,
            None,
            SupervisorThreadStatus::Completed,
            task.clone(),
            at_ms,
        );
        let mut signal_id = "turn:".to_owned();
        signal_id.append(workspace_id);
        signal_id.append(":");
        signal_id.append(thread_id);
        signal_id.append(":");
        signal_id.append(turn_id);
        signal_id.append(":completed");
        self.push_signal(
            SupervisorSignal {
                id: signal_id,
                kind: SupervisorSignalKind::Completed,
                workspace_id: Some(workspace_id.to_owned()),
                thread_id: Some(thread_id.to_owned()),
                job_id: None,
                message: "Turn completed".to_owned(),
                created_at_ms: at_ms,
                acknowledged_at_ms: None,
                context: turn_metadata(turn_id, &task),
            },
        );
        self.push_activity(
            SupervisorActivityEntry {
                id: make_timed_id("turn_completed:", workspace_id, thread_id, turn_id, at_ms),
                kind: "turn_completed".to_owned(),
                message: "Turn completed".to_owned(),
                created_at_ms: at_ms,
                workspace_id: Some(workspace_id.to_owned()),
                thread_id: Some(thread_id.to_owned()),
                needs_input: false,
                metadata: turn_metadata(turn_id, &task),
            },
        );
        match self.job_for_event(workspace_id, Some(thread_id)) {
            Some(job) => {
                let mut job = job;
                job.status = SupervisorJobStatus::Completed;
                job.completed_at_ms = Some(at_ms);
                job.waiting_request_id = None;
                job.waiting_question_ids = Vec::new();
                assert(job.waiting_question_ids.deep_view() =~= Seq::<Seq<char>>::empty());
                let event = SupervisorSubtaskEvent {
                    id: make_triple_id("turn_completed:", workspace_id, thread_id, turn_id),
                    kind: "completed".to_owned(),
                    message: "Turn completed".to_owned(),
                    created_at_ms: at_ms,
                    metadata: turn_metadata(turn_id, &task),
                };
                self.record_job_progress(
                    job,
                    event,
                    "Subtask completed. Next action: review result and send follow-up instructions if needed.",
                    "turn_completed",
                    at_ms,
                );
            },
            None => {},
        }
    }

    /// An item started (`started`) or completed.
    pub fn on_item(
        &mut self,
        started: bool,
        workspace_id: &str,
        thread_id: &str,
        item_id: &str,
        item_type: Option<String>,
        task: Option<String>,
        item_content: Option<String>,
        at_ms: i64,
    )
        ensures
            final(self)@ == item_applied(
                old(self)@,
                started,
                workspace_id@,
                thread_id@,
                item_id@,
                item_type.deep_view(),
                task.deep_view(),
                item_content.deep_view(),
                at_ms,
            ),
    {
        self.apply_thread_activity(
            workspace_id,
            thread_id,
            None,
            SupervisorThreadStatus::Running,
            task.clone(),
            at_ms,
        );
        let prefix = if started {
            "item_started:"
        } else {
            "item_completed:"
        };
        let kind = if started {
            "item_started"
        } else {
            "item_completed"
        };
        self.push_activity(
            SupervisorActivityEntry {
                id: make_timed_id(prefix, workspace_id, thread_id, item_id, at_ms),
                kind: kind.to_owned(),
                message: if started {
                    "Item started".to_owned()
                } else {
                    "Item completed".to_owned()
                },
                created_at_ms: at_ms,
                workspace_id: Some(workspace_id.to_owned()),
                thread_id: Some(thread_id.to_owned()),
                needs_input: false,
                metadata: item_metadata(item_id, &item_type, &task, &item_content),
            },
        );
        match self.job_for_event(workspace_id, Some(thread_id)) {
            Some(job) => {
                let mut job = job;
                job.status = SupervisorJobStatus::Running;
                job.waiting_request_id = None;
                job.waiting_question_ids = Vec::new();
                assert(job.waiting_question_ids.deep_view() =~= Seq::<Seq<char>>::empty());
                let label = item_label(&item_type);
                let event = SupervisorSubtaskEvent {
                    id: make_triple_id(prefix, workspace_id, thread_id, item_id),
                    kind: "running".to_owned(),
                    message: wrap(
                        "Item `",
                        label,
                        if started {
                            "` started."
                        } else {
                            "` completed."
                        },
                    ),
                    created_at_ms: at_ms,
                    metadata: item_metadata(item_id, &item_type, &task, &item_content),
                };
                let chat = if started {
                    wrap("Progress update: item `", label, "` started.")
                } else {
                    let from_agent = match &item_type {
                        Some(t) => text_eq_ignoring_ascii_case(t.as_str(), "agentMessage"),
                        None => false,
                    };
                    match (&item_content, from_agent) {
                        (Some(content), true) => {
                            let mut line = "Agent response: ".to_owned();
                            line.append(summarize_text(content.as_str(), 240).as_str());
                            line
                        },
                        _ => wrap("Progress update: item `", label, "` completed."),
                    }
                };
                self.record_job_progress(job, event, chat.as_str(), kind, at_ms);
            },
            None => {},
        }
    }

    /// A child task asked the operator for input.
    pub fn on_user_input_requested(
        &mut self,
        workspace_id: &str,
        request_key: &str,
        request_id: &str,
        request_id_value: JsonValue,
        thread_id: Option<String>,
        turn_id: Option<String>,
        item_id: Option<String>,
        question: &str,
        question_ids: Vec<String>,
        params: JsonValue,
        at_ms: i64,
    )
        ensures
            final(self)@ == user_input_applied(
                old(self)@,
                workspace_id@,
                request_key@,
                request_id@,
                request_id_value@,
                thread_id.deep_view(),
                turn_id.deep_view(),
                item_id.deep_view(),
                question@,
                question_ids.deep_view(),
                params@,
                at_ms,
            ),
    {
        apply_update(
            &mut self.state,
            SupervisorStateUpdate::UpsertOpenQuestion(
                SupervisorOpenQuestion {
                    id: request_key.to_owned(),
                    workspace_id: workspace_id.to_owned(),
                    thread_id: match &thread_id {
                        Some(t) => t.clone(),
                        None => "-".to_owned(),
                    },
                    question: question.to_owned(),
                    created_at_ms: at_ms,
                    resolved_at_ms: None,
                    context: question_context_value(&request_id_value, &turn_id, &item_id, &question_ids, &params),
                },
            ),
        );
        let mut activity_id = "waiting_for_user:".to_owned();
        activity_id.append(request_key);
        activity_id.append(":");
        activity_id.append(decimal(at_ms as i128).as_str());
        self.push_activity(
            SupervisorActivityEntry {
                id: activity_id,
                kind: "waiting_for_user".to_owned(),
                message: "Child task is waiting for user input".to_owned(),
                created_at_ms: at_ms,
                workspace_id: Some(workspace_id.to_owned()),
                thread_id: thread_id.clone(),
                needs_input: true,
                metadata: waiting_activity_metadata(
                    request_key,
                    request_id,
                    &turn_id,
                    &item_id,
                    question,
                    &question_ids,
                    &params,
                ),
            },
        );
        let wanted = match &thread_id {
            Some(t) => Some(t.as_str()),
            None => None,
        };
        match self.job_for_event(workspace_id, wanted) {
            Some(job) => {
                let mut job = job;
                job.status = SupervisorJobStatus::WaitingForUser;
                job.waiting_request_id = Some(request_id_value);
                let metadata = waiting_event_metadata(request_key, request_id, &question_ids);
                job.waiting_question_ids = question_ids;
                let mut event_id = "waiting_for_user:".to_owned();
                event_id.append(job.id.as_str());
                event_id.append(":");
                event_id.append(request_key);
                let mut message = "Child question: ".to_owned();
                message.append(question);
                let event = SupervisorSubtaskEvent {
                    id: event_id,
                    kind: "waiting_for_user".to_owned(),
                    message,
                    created_at_ms: at_ms,
                    metadata,
                };
                let mut chat = "Child task asks: ".to_owned();
                chat.append(question);
                chat.append("\nReply in this chat to continue (subtask `");
                chat.append(job.id.as_str());
                chat.append("`).");
                self.record_job_progress(job, event, chat.as_str(), "waiting_for_user", at_ms);
            },
            None => {},
        }
    }

    /// A child task asked for approval.
    pub fn on_approval_requested(
        &mut self,
        workspace_id: &str,
        request_key: &str,
        request_id: String,
        method: String,
        thread_id: Option<String>,
        turn_id: Option<String>,
        item_id: Option<String>,
        params: JsonValue,
        at_ms: i64,
    )
        ensures
            final(self)@ == approval_applied(
                old(self)@,
                workspace_id@,
                request_key@,
                request_id@,
                method@,
                thread_id.deep_view(),
                turn_id.deep_view(),
                item_id.deep_view(),
                params@,
                at_ms,
            ),
    {
        let waited = request_id.clone();
        apply_update(
            &mut self.state,
            SupervisorStateUpdate::UpsertPendingApproval(
                SupervisorPendingApproval {
                    request_key: request_key.to_owned(),
                    workspace_id: workspace_id.to_owned(),
                    thread_id: thread_id.clone(),
                    turn_id,
                    item_id,
                    request_id,
                    method,
                    params: params.clone(),
                    created_at_ms: at_ms,
                    resolved_at_ms: None,
                },
            ),
        );
        let mut signal_id = "approval:".to_owned();
        signal_id.append(request_key);
        self.push_signal(
            SupervisorSignal {
                id: signal_id,
                kind: SupervisorSignalKind::NeedsApproval,
                workspace_id: Some(workspace_id.to_owned()),
                thread_id: thread_id.clone(),
                job_id: None,
                message: "Action requires approval".to_owned(),
                created_at_ms: at_ms,
                acknowledged_at_ms: None,
                context: request_key_metadata(request_key),
            },
        );
        let mut activity_id = "approval:".to_owned();
        activity_id.append(request_key);
        activity_id.append(":");
        activity_id.append(decimal(at_ms as i128).as_str());
        self.push_activity(
            SupervisorActivityEntry {
                id: activity_id,
                kind: "needs_approval".to_owned(),
                message: "Approval requested".to_owned(),
                created_at_ms: at_ms,
                workspace_id: Some(workspace_id.to_owned()),
                thread_id: thread_id.clone(),
                needs_input: true,
                metadata: params,
            },
        );
        let wanted = match &thread_id {
            Some(t) => Some(t.as_str()),
            None => None,
        };
        match self.job_for_event(workspace_id, wanted) {
            Some(job) => {
                let mut job = job;
                job.status = SupervisorJobStatus::WaitingForUser;
                job.waiting_request_id = Some(JsonValue::Text(waited));
                job.waiting_question_ids = Vec::new();
                assert(job.waiting_question_ids.deep_view() =~= Seq::<Seq<char>>::empty());
                let mut event_id = "approval_requested:".to_owned();
                event_id.append(job.id.as_str());
                event_id.append(":");
                event_id.append(request_key);
                let event = SupervisorSubtaskEvent {
                    id: event_id,
                    kind: "waiting_for_user".to_owned(),
                    message: "Approval requested".to_owned(),
                    created_at_ms: at_ms,
                    metadata: request_key_metadata(request_key),
                };
                self.record_job_progress(
                    job,
                    event,
                    "Child task requires approval before it can continue.",
                    "needs_approval",
                    at_ms,
                );
            },
            None => {},
        }
    }

    /// A workspace reported an error.
    pub fn on_error(
        &mut self,
        workspace_id: &str,
        thread_id: Option<String>,
        turn_id: Option<String>,
        message: &str,
        will_retry: bool,
        at_ms: i64,
    )
        ensures
            final(self)@ == error_applied(
                old(self)@,
                workspace_id@,
                thread_id.deep_view(),
                turn_id.deep_view(),
                message@,
                will_retry,
                at_ms,
            ),
    {
        match &thread_id {
            Some(t) => {
                self.apply_thread_activity(
                    workspace_id,
                    t.as_str(),
                    turn_id.clone(),
                    SupervisorThreadStatus::Failed,
                    None,
                    at_ms,
                );
            },
            None => {},
        }
        let thread_text = opt_or_empty(&thread_id);
        let turn_text = opt_or_empty(&turn_id);
        self.push_signal(
            SupervisorSignal {
                id: make_triple_id("error:", workspace_id, thread_text, turn_text),
                kind: SupervisorSignalKind::Failed,
                workspace_id: Some(workspace_id.to_owned()),
                thread_id: thread_id.clone(),
                job_id: None,
                message: message.to_owned(),
                created_at_ms: at_ms,
                acknowledged_at_ms: None,
                context: error_metadata(will_retry, &turn_id),
            },
        );
        self.push_activity(
            SupervisorActivityEntry {
                id: make_timed_id("error:", workspace_id, thread_text, turn_text, at_ms),
                kind: "error".to_owned(),
                message: message.to_owned(),
                created_at_ms: at_ms,
                workspace_id: Some(workspace_id.to_owned()),
                thread_id: thread_id.clone(),
                needs_input: false,
                metadata: error_metadata(will_retry, &turn_id),
            },
        );
        let wanted = match &thread_id {
            Some(t) => Some(t.as_str()),
            None => None,
        };
        match self.job_for_event(workspace_id, wanted) {
            Some(job) => {
                let mut job = job;
                if will_retry {
                    job.status = SupervisorJobStatus::Running;
                } else {
                    job.status = SupervisorJobStatus::Failed;
                    job.error = Some(message.to_owned());
                }
                job.waiting_request_id = None;
                job.waiting_question_ids = Vec::new();
                assert(job.waiting_question_ids.deep_view() =~= Seq::<Seq<char>>::empty());
                let event = SupervisorSubtaskEvent {
                    id: make_triple_id("error:", workspace_id, thread_text, turn_text),
                    kind: "failed".to_owned(),
                    message: message.to_owned(),
                    created_at_ms: at_ms,
                    metadata: error_metadata(will_retry, &turn_id),
                };
                let mut chat = if will_retry {
                    "Child task reported an error but will retry: ".to_owned()
                } else {
                    "Child task failed: ".to_owned()
                };
                chat.append(message);
                self.record_job_progress(job, event, chat.as_str(), "error", at_ms);
            },
            None => {},
        }
    }

    /// Applies an event to the state.
    pub fn apply_supervisor_event(&mut self, event: SupervisorEvent)
        ensures
            final(self)@ == event_applied(old(self)@, event@),
            jobs_consistent(old(self)@.state.jobs) ==> jobs_consistent(final(self)@.state.jobs),
            well_formed(old(self)@.state) ==> well_formed(final(self)@.state),
    {
        proof {
            if jobs_consistent(self@.state.jobs) {
                lemma_event_keeps_jobs_consistent(self@, event@);
            }
            if well_formed(self@.state) {
                lemma_event_keeps_well_formed(self@, event@);
            }
        }
        match event {
            SupervisorEvent::TurnStarted { workspace_id, thread_id, turn_id, task, received_at_ms } => {
                self.on_turn_started(
                    workspace_id.as_str(),
                    thread_id.as_str(),
                    turn_id.as_str(),
                    task,
                    received_at_ms,
                );
            },
            SupervisorEvent::TurnCompleted { workspace_id, thread_id, turn_id, task, received_at_ms } => {
                self.on_turn_completed(
                    workspace_id.as_str(),
                    thread_id.as_str(),
                    turn_id.as_str(),
                    task,
                    received_at_ms,
                );
            },
            SupervisorEvent::ItemStarted {
                workspace_id,
                thread_id,
                item_id,
                item_type,
                task,
                item_content,
                received_at_ms,
            } => {
                self.on_item(
                    true,
                    workspace_id.as_str(),
                    thread_id.as_str(),
                    item_id.as_str(),
                    item_type,
                    task,
                    item_content,
                    received_at_ms,
                );
            },
            SupervisorEvent::ItemCompleted {
                workspace_id,
                thread_id,
                item_id,
                item_type,
                task,
                item_content,
                received_at_ms,
            } => {
                self.on_item(
                    false,
                    workspace_id.as_str(),
                    thread_id.as_str(),
                    item_id.as_str(),
                    item_type,
                    task,
                    item_content,
                    received_at_ms,
                );
            },
            SupervisorEvent::ApprovalRequested {
                workspace_id,
                request_key,
                request_id,
                method,
                thread_id,
                turn_id,
                item_id,
                params,
                received_at_ms,
            } => {
                self.on_approval_requested(
                    workspace_id.as_str(),
                    request_key.as_str(),
                    request_id,
                    method,
                    thread_id,
                    turn_id,
                    item_id,
                    params,
                    received_at_ms,
                );
            },
            SupervisorEvent::UserInputRequested {
                workspace_id,
                request_key,
                request_id,
                request_id_value,
                thread_id,
                turn_id,
                item_id,
                question,
                question_ids,
                params,
                received_at_ms,
            } => {
                self.on_user_input_requested(
                    workspace_id.as_str(),
                    request_key.as_str(),
                    request_id.as_str(),
                    request_id_value,
                    thread_id,
                    turn_id,
                    item_id,
                    question.as_str(),
                    question_ids,
                    params,
                    received_at_ms,
                );
            },
            SupervisorEvent::Error { workspace_id, thread_id, turn_id, message, will_retry, received_at_ms } => {
                self.on_error(workspace_id.as_str(), thread_id, turn_id, message.as_str(), will_retry, received_at_ms);
            },
        }
    }

    /// Takes in a raw message of a workspace.
    pub fn apply_app_server_event(&mut self, workspace_id: &str, message: &JsonValue, received_at_ms: i64)
        ensures
            final(self)@ == message_applied(old(self)@, workspace_id@, message@, received_at_ms),
            jobs_consistent(old(self)@.state.jobs) ==> jobs_consistent(final(self)@.state.jobs),
            well_formed(old(self)@.state) ==> well_formed(final(self)@.state),
    {
        proof {
            if jobs_consistent(self@.state.jobs) {
                lemma_message_keeps_jobs_consistent(self@, workspace_id@, message@, received_at_ms);
            }
            if well_formed(self@.state) {
                lemma_message_keeps_well_formed(self@, workspace_id@, message@, received_at_ms);
            }
        }
        self.record_workspace_heartbeat(workspace_id, received_at_ms);
        match normalize_app_server_event(workspace_id, message, received_at_ms) {
            Some(event) => {
                self.apply_supervisor_event(event);
            },
            None => {
                let connected = match message.get("method") {
                    Some(method) => match method.as_str() {
                        Some(name) => text_eq(name, "codex/connected"),
                        None => false,
                    },
                    None => false,
                };
                if connected {
                    let mut workspace = self.workspace_state(workspace_id);
                    workspace.connected = true;
                    workspace.health = SupervisorHealth::Healthy;
                    workspace.last_activity_at_ms = Some(received_at_ms);
                    apply_update(&mut self.state, SupervisorStateUpdate::UpsertWorkspace(workspace));
                    let mut id = "connected:".to_owned();
                    id.append(workspace_id);
                    id.append(":");
                    id.append(decimal(received_at_ms as i128).as_str());
                    self.push_activity(
                        SupervisorActivityEntry {
                            id,
                            kind: "workspace_connected".to_owned(),
                            message: "Workspace connected".to_owned(),
                            created_at_ms: received_at_ms,
                            workspace_id: Some(workspace_id.to_owned()),
                            thread_id: None,
                            needs_input: false,
                            metadata: JsonValue::Null,
                        },
                    );
                }
            },
        }
    }
}

} // verus!
