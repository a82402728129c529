use vstd::prelude::*;
use vstd::string::*;

use crate::dispatch::{
    present, ActionModel, ResultModel, SupervisorDispatchAction, SupervisorDispatchActionResult,
    SupervisorDispatchBatchResult, SupervisorDispatchStatus,
};
use crate::chat::{
    chat_command_of, parse_supervisor_chat_command, ChatCommandModel, DispatchRequestModel,
    SupervisorChatCommand, SupervisorChatDispatchRequest, SUPERVISOR_CHAT_FEED_LIMIT,
};
use crate::chat_format::{
    dispatch_contract_of, dispatch_lines, health_label, health_name, build_dispatch_contract,
    clarification_lines, feed_lines, format_ack_message, format_dispatch_message, format_feed_message,
    format_help_message, format_route_clarification, format_status_message, help_lines, join_lines,
    join_with, joined, joined_lines, push_line, status_text,
};
use crate::contract::{parse_supervisor_action_contract_value, parsed_contract};
use crate::dispatch::{batch_dispatched, SupervisorDispatchBackend, SupervisorDispatchExecutor};
use crate::event_handlers::message_applied;
use crate::loop_ops::{reply_delivered, reply_delivery_failed, reply_refusal, waiting_jobs_of};
use crate::model::SupervisorChatMessageRole;
use crate::routing::{
    route_kind_label, route_kind_name, route_of, select_supervisor_route, AppSettings, RouteDecisionModel,
    SettingsModel, SupervisorLocalTool, SupervisorRouteDecision, SupervisorRouteKind,
};
use crate::supervisor_loop::{with_activity, with_chat};
use crate::json::{JsonModel, JsonValue};
use crate::json_ops::{new_members, push_member, text_or_null_model, texts_model};
use crate::model::{
    ActivityModel, ChatMessageModel, JobModel, StateModel, SubtaskEventModel, SupervisorActivityEntry,
    SupervisorChatMessage, SupervisorHealth, SupervisorJobState, SupervisorJobStatus, SupervisorSignal,
    SupervisorState, SupervisorSubtaskEvent, WorkspaceModel,
};
use crate::reducer::{find_by_id, ident_index, reduced, UpdateModel};
use crate::routing::{
    sort_candidates, sorted_candidates, RouteWorkspaceModel, SupervisorRouteWorkspaceMetadata,
};
use crate::supervisor_loop::{LoopModel, SupervisorLoop};
use crate::table::{key_index, lemma_key_index, table_get, table_put, Record, Table};
use crate::text::{
    begins_with, decimal, integer_text, is_space, is_space_char, result_model, text_eq,
    text_starts_with, trimmed,
};

use crate::loop_laws::{lemma_outcomes_keep_invariants, loop_sound};

verus! {

/// How many entries a page of the feed has where none is asked for.
pub const SUPERVISOR_FEED_DEFAULT_LIMIT: usize = 100;

/// How many entries a page of the feed has at most.
pub const SUPERVISOR_FEED_MAX_LIMIT: usize = 1000;

/// The name of the file that keeps a snapshot of the state.
pub const SUPERVISOR_STATE_FILE_NAME: &'static str = "supervisor-state.json";

/// A page of the activity feed.
#[derive(Debug, PartialEq, Eq)]
pub struct SupervisorFeedResponse {
    pub items: Vec<SupervisorActivityEntry>,
    pub total: usize,
}

/// Mathematical model of [`SupervisorFeedResponse`].
pub struct FeedResponseModel {
    pub items: Seq<ActivityModel>,
    pub total: usize,
}

impl View for SupervisorFeedResponse {
    type V = FeedResponseModel;

    open spec fn view(&self) -> FeedResponseModel {
        FeedResponseModel {
            items: self.items.deep_view(),
            total: self.total,
        }
    }
}

impl DeepView for SupervisorFeedResponse {
    type V = FeedResponseModel;

    open spec fn deep_view(&self) -> FeedResponseModel {
        self@
    }
}

impl Clone for SupervisorFeedResponse {
    fn clone(&self) -> (copy: Self)
        ensures
            copy@ == self@,
    {
        let copy = SupervisorFeedResponse {
            items: self.items.clone(),
            total: self.total,
        };
        proof {
            assert(copy.items.deep_view() =~= self.items.deep_view());
        }
        copy
    }
}

/// The chat history.
#[derive(Debug, PartialEq, Eq)]
pub struct SupervisorChatHistoryResponse {
    pub messages: Vec<SupervisorChatMessage>,
}

/// Mathematical model of [`SupervisorChatHistoryResponse`].
pub struct ChatHistoryModel {
    pub messages: Seq<ChatMessageModel>,
}

impl View for SupervisorChatHistoryResponse {
    type V = ChatHistoryModel;

    open spec fn view(&self) -> ChatHistoryModel {
        ChatHistoryModel {
            messages: self.messages.deep_view(),
        }
    }
}

impl DeepView for SupervisorChatHistoryResponse {
    type V = ChatHistoryModel;

    open spec fn deep_view(&self) -> ChatHistoryModel {
        self@
    }
}

impl Clone for SupervisorChatHistoryResponse {
    fn clone(&self) -> (copy: Self)
        ensures
            copy@ == self@,
    {
        let copy = SupervisorChatHistoryResponse {
            messages: self.messages.clone(),
        };
        proof {
            assert(copy.messages.deep_view() =~= self.messages.deep_view());
        }
        copy
    }
}

/// The chat history after a message was sent.
#[derive(Debug, PartialEq, Eq)]
pub struct SupervisorChatSendResponse {
    pub messages: Vec<SupervisorChatMessage>,
}

/// Mathematical model of [`SupervisorChatSendResponse`].
pub struct ChatSendModel {
    pub messages: Seq<ChatMessageModel>,
}

impl View for SupervisorChatSendResponse {
    type V = ChatSendModel;

    open spec fn view(&self) -> ChatSendModel {
        ChatSendModel {
            messages: self.messages.deep_view(),
        }
    }
}

impl DeepView for SupervisorChatSendResponse {
    type V = ChatSendModel;

    open spec fn deep_view(&self) -> ChatSendModel {
        self@
    }
}

impl Clone for SupervisorChatSendResponse {
    fn clone(&self) -> (copy: Self)
        ensures
            copy@ == self@,
    {
        let copy = SupervisorChatSendResponse {
            messages: self.messages.clone(),
        };
        proof {
            assert(copy.messages.deep_view() =~= self.messages.deep_view());
        }
        copy
    }
}

/// What the workspace registry holds of a workspace.
#[derive(Debug, PartialEq, Eq)]
pub struct SupervisorWorkspaceEntry {
    pub id: String,
    pub name: String,
    pub path: String,
    pub branch: Option<String>,
}

/// Mathematical model of [`SupervisorWorkspaceEntry`].
pub struct WorkspaceEntryModel {
    pub id: Seq<char>,
    pub name: Seq<char>,
    pub path: Seq<char>,
    pub branch: Option<Seq<char>>,
}

impl View for SupervisorWorkspaceEntry {
    type V = WorkspaceEntryModel;

    open spec fn view(&self) -> WorkspaceEntryModel {
        WorkspaceEntryModel {
            id: self.id@,
            name: self.name@,
            path: self.path@,
            branch: self.branch.deep_view(),
        }
    }
}

impl DeepView for SupervisorWorkspaceEntry {
    type V = WorkspaceEntryModel;

    open spec fn deep_view(&self) -> WorkspaceEntryModel {
        self@
    }
}

impl Clone for SupervisorWorkspaceEntry {
    fn clone(&self) -> (copy: Self)
        ensures
            copy@ == self@,
    {
        let copy = SupervisorWorkspaceEntry {
            id: self.id.clone(),
            name: self.name.clone(),
            path: self.path.clone(),
            branch: self.branch.clone(),
        };
        proof {
            assert(copy.branch.deep_view() =~= self.branch.deep_view());
        }
        copy
    }
}

impl Record for SupervisorRouteWorkspaceMetadata {
    fn copy_record(&self) -> (copy: Self) {
        self.clone()
    }
}

/// A copy of the state of the loop.
pub fn supervisor_snapshot_core(supervisor_loop: &SupervisorLoop) -> (state: SupervisorState)
    ensures
        state@ == supervisor_loop@.state,
{
    supervisor_loop.snapshot()
}

/// The chat history of the loop.
pub fn supervisor_chat_history_core(supervisor_loop: &SupervisorLoop) -> (history: SupervisorChatHistoryResponse)
    ensures
        history@.messages == supervisor_loop@.state.chat_history,
{
    SupervisorChatHistoryResponse { messages: supervisor_loop.chat_history() }
}

/// The test that picks the entries that need input.
pub open spec fn needs_input_picker() -> spec_fn(ActivityModel) -> bool {
    |entry: ActivityModel| entry.needs_input
}

/// How many entries a page has: what is asked for, or the default, and no
/// more than the maximum.
pub open spec fn page_limit(limit: Option<usize>) -> usize {
    let asked = match limit {
        Some(n) => n,
        None => SUPERVISOR_FEED_DEFAULT_LIMIT,
    };
    if asked < SUPERVISOR_FEED_MAX_LIMIT {
        asked
    } else {
        SUPERVISOR_FEED_MAX_LIMIT
    }
}

/// The page of the feed that is asked for: the entries that need input
/// where only those are wanted, their number, and the first of them up to
/// the limit.
pub open spec fn feed_page(feed: Seq<ActivityModel>, limit: Option<usize>, needs_input_only: bool) -> FeedResponseModel {
    let wanted = if needs_input_only {
        feed.filter(needs_input_picker())
    } else {
        feed
    };
    FeedResponseModel {
        items: if wanted.len() > page_limit(limit) {
            wanted.take(page_limit(limit) as int)
        } else {
            wanted
        },
        total: wanted.len() as usize,
    }
}

/// A page of the activity feed.
pub fn supervisor_feed_core(supervisor_loop: &SupervisorLoop, limit: Option<usize>, needs_input_only: bool) -> (page:
    SupervisorFeedResponse)
    ensures
        page@ == feed_page(supervisor_loop@.state.activity_feed, limit, needs_input_only),
{
    let ghost feed = supervisor_loop@.state.activity_feed;
    let ghost picker = needs_input_picker();
    let source = &supervisor_loop.state.activity_feed;
    let mut items: Vec<SupervisorActivityEntry> = Vec::new();
    let mut i: usize = 0;
    assert(feed.take(0) =~= Seq::<ActivityModel>::empty());
    assert(feed.take(0).filter(picker) =~= Seq::<ActivityModel>::empty()) by {
        reveal(Seq::filter);
    }
    assert(items.deep_view() =~= Seq::<ActivityModel>::empty());
    while i < source.len()
        invariant
            i <= source.len(),
            feed == source.deep_view(),
            picker == needs_input_picker(),
            items@.len() <= i,
            items.deep_view() == if needs_input_only {
                feed.take(i as int).filter(picker)
            } else {
                feed.take(i as int)
            },
        decreases source.len() - i,
    {
        let ghost before = items.deep_view();
        proof {
            assert(feed.take(i + 1) =~= feed.take(i as int).push(feed[i as int]));
            feed.take(i as int).lemma_filter_push(feed[i as int], picker);
            assert(picker(feed[i as int]) == feed[i as int].needs_input);
        }
        if !needs_input_only || source[i].needs_input {
            items.push(source[i].clone());
            assert(items.deep_view() =~= before.push(feed[i as int]));
        }
        i += 1;
    }
    assert(feed.take(i as int) =~= feed);
    let total = items.len();
    let asked = match limit {
        Some(n) => n,
        None => SUPERVISOR_FEED_DEFAULT_LIMIT,
    };
    let cut = if asked < SUPERVISOR_FEED_MAX_LIMIT {
        asked
    } else {
        SUPERVISOR_FEED_MAX_LIMIT
    };
    if items.len() > cut {
        let ghost all = items.deep_view();
        items.truncate(cut);
        assert(items.deep_view() =~= all.take(cut as int));
    }
    SupervisorFeedResponse { items, total }
}

/// Why a signal cannot be acknowledged, if it cannot: no id is given, or no
/// signal has the id.
pub open spec fn ack_refusal(state: StateModel, signal_id: Seq<char>) -> Option<Seq<char>> {
    if trimmed(signal_id).len() == 0 {
        Some("signal_id is required"@)
    } else if ident_index::<SupervisorSignal>(state.signals, trimmed(signal_id)) is None {
        Some("signal `"@ + trimmed(signal_id) + "` not found"@)
    } else {
        None
    }
}

/// Acknowledges a signal that is there.
pub fn supervisor_ack_signal_core(supervisor_loop: &mut SupervisorLoop, signal_id: &str, acknowledged_at_ms: i64) -> (outcome:
    Result<(), String>)
    ensures
        match outcome {
            Ok(_) => ack_refusal(old(supervisor_loop)@.state, signal_id@) is None && final(supervisor_loop)@
                == (LoopModel {
                state: reduced(
                    old(supervisor_loop)@.state,
                    UpdateModel::AckSignal { signal_id: trimmed(signal_id@), acknowledged_at_ms },
                ),
                ..old(supervisor_loop)@
            }),
            Err(reason) => ack_refusal(old(supervisor_loop)@.state, signal_id@) == Some(reason@)
                && final(supervisor_loop)@ == old(supervisor_loop)@,
        },
        loop_sound(old(supervisor_loop)@) ==> loop_sound(final(supervisor_loop)@),
{
    let id = signal_id.trim();
    if id.unicode_len() == 0 {
        return Err("signal_id is required".to_owned());
    }
    match find_by_id(&supervisor_loop.state.signals, id) {
        None => {
            let mut reason = "signal `".to_owned();
            reason.append(id);
            reason.append("` not found");
            Err(reason)
        },
        Some(_) => {
            supervisor_loop.ack_signal(id, acknowledged_at_ms);
            Ok(())
        },
    }
}

/// The action with the id: the last one, where several have it.
pub open spec fn action_with_id(actions: Seq<ActionModel>, action_id: Seq<char>) -> Option<ActionModel>
    decreases actions.len(),
{
    if actions.len() == 0 {
        None
    } else if actions.last().action_id == action_id {
        Some(actions.last())
    } else {
        action_with_id(actions.drop_last(), action_id)
    }
}

/// What a job's event tells of the workspace and the thread.
pub open spec fn place_meta(workspace_id: Seq<char>, thread_id: Option<Seq<char>>) -> JsonModel {
    JsonModel::Object(
        Seq::empty().push(("workspaceId"@, JsonModel::Text(workspace_id))).push(
            ("threadId"@, text_or_null_model(thread_id)),
        ),
    )
}

/// What a job's event tells of the workspace, the thread and the turn.
pub open spec fn turn_place_meta(workspace_id: Seq<char>, thread_id: Option<Seq<char>>, turn_id: Option<Seq<char>>) -> JsonModel {
    JsonModel::Object(
        Seq::empty().push(("workspaceId"@, JsonModel::Text(workspace_id))).push(
            ("threadId"@, text_or_null_model(thread_id)),
        ).push(("turnId"@, text_or_null_model(turn_id))),
    )
}

/// The event that tells that a job was queued.
pub open spec fn queued_event(job_id: Seq<char>, at_ms: i64, metadata: JsonModel) -> SubtaskEventModel {
    SubtaskEventModel {
        id: "queued:"@ + job_id + ":"@ + integer_text(at_ms as int),
        kind: "queued"@,
        message: "Subtask queued for execution"@,
        created_at_ms: at_ms,
        metadata,
    }
}

/// The job that records an outcome of a dispatch.
pub open spec fn outcome_job(result: ResultModel, action: Option<ActionModel>, at_ms: i64) -> JobModel {
    let base = JobModel {
        id: result.action_id,
        workspace_id: result.workspace_id,
        thread_id: result.thread_id,
        dedupe_key: Some(result.dedupe_key),
        description: match action {
            Some(a) => if trimmed(a.prompt).len() > 0 {
                trimmed(a.prompt)
            } else {
                "Delegated subtask"@
            },
            None => "Delegated subtask"@,
        },
        status: SupervisorJobStatus::Queued,
        requested_at_ms: at_ms,
        started_at_ms: None,
        completed_at_ms: None,
        error: None,
        route_kind: match action {
            Some(a) => a.route_kind,
            None => None,
        },
        route_reason: match action {
            Some(a) => a.route_reason,
            None => None,
        },
        route_target: Some(result.workspace_id),
        route_fallback: match action {
            Some(a) => a.route_fallback,
            None => None,
        },
        model: match action {
            Some(a) => a.model,
            None => None,
        },
        effort: match action {
            Some(a) => a.effort,
            None => None,
        },
        access_mode: match action {
            Some(a) => a.access_mode,
            None => None,
        },
        waiting_request_id: None,
        waiting_question_ids: Seq::empty(),
        recent_events: Seq::empty(),
    };
    match result.status {
        SupervisorDispatchStatus::Dispatched => JobModel {
            status: SupervisorJobStatus::Running,
            started_at_ms: Some(at_ms),
            recent_events: Seq::empty().push(
                queued_event(result.action_id, at_ms, place_meta(result.workspace_id, result.thread_id)),
            ).push(
                SubtaskEventModel {
                    id: "running:"@ + result.action_id + ":"@ + integer_text(at_ms as int),
                    kind: "running"@,
                    message: "Subtask dispatch accepted"@,
                    created_at_ms: at_ms,
                    metadata: turn_place_meta(result.workspace_id, result.thread_id, result.turn_id),
                },
            ),
            ..base
        },
        SupervisorDispatchStatus::Failed => JobModel {
            status: SupervisorJobStatus::Failed,
            error: Some(failure_text(result)),
            completed_at_ms: Some(at_ms),
            recent_events: Seq::empty().push(
                queued_event(
                    result.action_id,
                    at_ms,
                    JsonModel::Object(Seq::empty().push(("workspaceId"@, JsonModel::Text(result.workspace_id)))),
                ),
            ).push(
                SubtaskEventModel {
                    id: "failed:"@ + result.action_id + ":"@ + integer_text(at_ms as int),
                    kind: "failed"@,
                    message: failure_text(result),
                    created_at_ms: at_ms,
                    metadata: place_meta(result.workspace_id, result.thread_id),
                },
            ),
            ..base
        },
    }
}

/// Why a dispatch failed, as its outcome tells.
pub open spec fn failure_text(result: ResultModel) -> Seq<char> {
    match result.error {
        Some(message) => message,
        None => "Supervisor dispatch failed"@,
    }
}

/// The message that stands for the start of the turn of a dispatch.
pub open spec fn started_message(thread_id: Seq<char>, turn_id: Seq<char>) -> JsonModel {
    JsonModel::Object(
        Seq::empty().push(("method"@, JsonModel::Text("turn/started"@))).push(
            (
                "params"@,
                JsonModel::Object(
                    Seq::empty().push(("threadId"@, JsonModel::Text(thread_id))).push(
                        ("turnId"@, JsonModel::Text(turn_id)),
                    ),
                ),
            ),
        ),
    )
}

/// The message that stands for the failure of a dispatch.
pub open spec fn failed_message(thread_id: Option<Seq<char>>, message: Seq<char>) -> JsonModel {
    JsonModel::Object(
        Seq::empty().push(("method"@, JsonModel::Text("error"@))).push(
            (
                "params"@,
                JsonModel::Object(
                    Seq::empty().push(("threadId"@, text_or_null_model(thread_id))).push(
                        (
                            "error"@,
                            JsonModel::Object(Seq::empty().push(("message"@, JsonModel::Text(message)))),
                        ),
                    ),
                ),
            ),
        ),
    )
}

/// The loop after one outcome of a dispatch was taken in: a job records the
/// outcome, and the loop sees the start of the turn, or the error.
pub open spec fn outcome_applied(lp: LoopModel, result: ResultModel, action: Option<ActionModel>, at_ms: i64) -> LoopModel {
    let stored = LoopModel {
        state: reduced(lp.state, UpdateModel::UpsertJob(outcome_job(result, action, at_ms))),
        ..lp
    };
    match result.status {
        SupervisorDispatchStatus::Dispatched => if result.thread_id is Some && result.turn_id is Some {
            message_applied(
                stored,
                result.workspace_id,
                started_message(result.thread_id->0, result.turn_id->0),
                at_ms,
            )
        } else {
            stored
        },
        SupervisorDispatchStatus::Failed => message_applied(
            stored,
            result.workspace_id,
            failed_message(result.thread_id, failure_text(result)),
            at_ms,
        ),
    }
}

/// The loop after the outcomes of a batch were taken in, in their order.
pub open spec fn outcomes_applied(lp: LoopModel, results: Seq<ResultModel>, actions: Seq<ActionModel>, at_ms: i64) -> LoopModel
    decreases results.len(),
{
    if results.len() == 0 {
        lp
    } else {
        outcome_applied(
            outcomes_applied(lp, results.drop_last(), actions, at_ms),
            results.last(),
            action_with_id(actions, results.last().action_id),
            at_ms,
        )
    }
}

fn find_action<'a>(actions: &'a Vec<SupervisorDispatchAction>, action_id: &str) -> (found: Option<
    &'a SupervisorDispatchAction,
>)
    ensures
        found.deep_view() == action_with_id(actions.deep_view(), action_id@),
{
    let ghost models = actions.deep_view();
    let mut i: usize = actions.len();
    assert(models.take(i as int) =~= models);
    while i > 0
        invariant
            i <= actions.len(),
            models == actions.deep_view(),
            action_with_id(models, action_id@) == action_with_id(models.take(i as int), action_id@),
        decreases i,
    {
        proof {
            assert(models.take(i as int).drop_last() =~= models.take(i - 1));
            assert(models.take(i as int).last() == models[i - 1]);
        }
        if text_eq(actions[i - 1].action_id.as_str(), action_id) {
            return Some(&actions[i - 1]);
        }
        i -= 1;
    }
    None
}

fn place_metadata(workspace_id: &str, thread_id: &Option<String>) -> (meta: JsonValue)
    ensures
        meta@ == place_meta(workspace_id@, thread_id.deep_view()),
{
    let mut members = new_members();
    push_member(&mut members, "workspaceId", JsonValue::text(workspace_id));
    push_member(&mut members, "threadId", JsonValue::text_or_null(thread_id));
    JsonValue::object(members)
}

fn stamped_id(prefix: &str, job_id: &str, at_ms: i64) -> (id: String)
    ensures
        id@ == prefix@ + job_id@ + ":"@ + integer_text(at_ms as int),
{
    let mut id = prefix.to_owned();
    id.append(job_id);
    id.append(":");
    id.append(decimal(at_ms as i128).as_str());
    id
}

fn build_outcome_job(result: &SupervisorDispatchActionResult, action: Option<&SupervisorDispatchAction>, at_ms: i64) -> (job:
    SupervisorJobState)
    ensures
        job@ == outcome_job(result@, action.deep_view(), at_ms),
{
    let description = match action {
        Some(a) => {
            let cut = a.prompt.as_str().trim();
            if cut.unicode_len() > 0 {
                cut.to_owned()
            } else {
                "Delegated subtask".to_owned()
            }
        },
        None => "Delegated subtask".to_owned(),
    };
    let mut events: Vec<SupervisorSubtaskEvent> = Vec::new();
    let status;
    let mut started_at_ms = None;
    let mut completed_at_ms = None;
    let mut error = None;
    match result.status {
        SupervisorDispatchStatus::Dispatched => {
            status = SupervisorJobStatus::Running;
            started_at_ms = Some(at_ms);
            events.push(
                SupervisorSubtaskEvent {
                    id: stamped_id("queued:", result.action_id.as_str(), at_ms),
                    kind: "queued".to_owned(),
                    message: "Subtask queued for execution".to_owned(),
                    created_at_ms: at_ms,
                    metadata: place_metadata(result.workspace_id.as_str(), &result.thread_id),
                },
            );
            let mut members = new_members();
            push_member(&mut members, "workspaceId", JsonValue::text(result.workspace_id.as_str()));
            push_member(&mut members, "threadId", JsonValue::text_or_null(&result.thread_id));
            push_member(&mut members, "turnId", JsonValue::text_or_null(&result.turn_id));
            events.push(
                SupervisorSubtaskEvent {
                    id: stamped_id("running:", result.action_id.as_str(), at_ms),
                    kind: "running".to_owned(),
                    message: "Subtask dispatch accepted".to_owned(),
                    created_at_ms: at_ms,
                    metadata: JsonValue::object(members),
                },
            );
        },
        SupervisorDispatchStatus::Failed => {
            let message = match &result.error {
                Some(m) => m.clone(),
                None => "Supervisor dispatch failed".to_owned(),
            };
            status = SupervisorJobStatus::Failed;
            error = Some(message.clone());
            completed_at_ms = Some(at_ms);
            let mut members = new_members();
            push_member(&mut members, "workspaceId", JsonValue::text(result.workspace_id.as_str()));
            events.push(
                SupervisorSubtaskEvent {
                    id: stamped_id("queued:", result.action_id.as_str(), at_ms),
                    kind: "queued".to_owned(),
                    message: "Subtask queued for execution".to_owned(),
                    created_at_ms: at_ms,
                    metadata: JsonValue::object(members),
                },
            );
            events.push(
                SupervisorSubtaskEvent {
                    id: stamped_id("failed:", result.action_id.as_str(), at_ms),
                    kind: "failed".to_owned(),
                    message,
                    created_at_ms: at_ms,
                    metadata: place_metadata(result.workspace_id.as_str(), &result.thread_id),
                },
            );
        },
    }
    let no_ids: Vec<String> = Vec::new();
    let job = SupervisorJobState {
        id: result.action_id.clone(),
        workspace_id: result.workspace_id.clone(),
        thread_id: result.thread_id.clone(),
        dedupe_key: Some(result.dedupe_key.clone()),
        description,
        status,
        requested_at_ms: at_ms,
        started_at_ms,
        completed_at_ms,
        error,
        route_kind: match action {
            Some(a) => a.route_kind.clone(),
            None => None,
        },
        route_reason: match action {
            Some(a) => a.route_reason.clone(),
            None => None,
        },
        route_target: Some(result.workspace_id.clone()),
        route_fallback: match action {
            Some(a) => a.route_fallback.clone(),
            None => None,
        },
        model: match action {
            Some(a) => a.model.clone(),
            None => None,
        },
        effort: match action {
            Some(a) => a.effort.clone(),
            None => None,
        },
        access_mode: match action {
            Some(a) => a.access_mode.clone(),
            None => None,
        },
        waiting_request_id: None,
        waiting_question_ids: no_ids,
        recent_events: events,
    };
    proof {
        assert(job.waiting_question_ids.deep_view() =~= Seq::<Seq<char>>::empty());
        assert(job.recent_events.deep_view() =~= outcome_job(result@, action.deep_view(), at_ms).recent_events);
    }
    job
}

fn build_started_message(thread_id: &str, turn_id: &str) -> (message: JsonValue)
    ensures
        message@ == started_message(thread_id@, turn_id@),
{
    let mut params = new_members();
    push_member(&mut params, "threadId", JsonValue::text(thread_id));
    push_member(&mut params, "turnId", JsonValue::text(turn_id));
    let mut members = new_members();
    push_member(&mut members, "method", JsonValue::text("turn/started"));
    push_member(&mut members, "params", JsonValue::object(params));
    JsonValue::object(members)
}

fn build_failed_message(thread_id: &Option<String>, message: &str) -> (raw: JsonValue)
    ensures
        raw@ == failed_message(thread_id.deep_view(), message@),
{
    let mut error = new_members();
    push_member(&mut error, "message", JsonValue::text(message));
    let mut params = new_members();
    push_member(&mut params, "threadId", JsonValue::text_or_null(thread_id));
    push_member(&mut params, "error", JsonValue::object(error));
    let mut members = new_members();
    push_member(&mut members, "method", JsonValue::text("error"));
    push_member(&mut members, "params", JsonValue::object(params));
    JsonValue::object(members)
}

/// Takes the outcomes of a batch into the loop: a job for each outcome, and
/// the start of the turn or the error as the loop would have seen it.
pub fn apply_dispatch_outcome_events(
    supervisor_loop: &mut SupervisorLoop,
    dispatch_result: &SupervisorDispatchBatchResult,
    dispatch_actions: &Vec<SupervisorDispatchAction>,
    timestamp_ms: i64,
)
    ensures
        final(supervisor_loop)@ == outcomes_applied(
            old(supervisor_loop)@,
            dispatch_result@.results,
            dispatch_actions.deep_view(),
            timestamp_ms,
        ),
        loop_sound(old(supervisor_loop)@) ==> loop_sound(final(supervisor_loop)@),
{
    proof {
        if loop_sound(supervisor_loop@) {
            lemma_outcomes_keep_invariants(
                supervisor_loop@,
                dispatch_result@.results,
                dispatch_actions.deep_view(),
                timestamp_ms,
            );
        }
    }
    let ghost results = dispatch_result@.results;
    let ghost start = supervisor_loop@;
    let mut i: usize = 0;
    assert(results.take(0) =~= Seq::<ResultModel>::empty());
    while i < dispatch_result.results.len()
        invariant
            i <= dispatch_result.results.len(),
            results == dispatch_result@.results,
            supervisor_loop@ == outcomes_applied(
                start,
                results.take(i as int),
                dispatch_actions.deep_view(),
                timestamp_ms,
            ),
        decreases dispatch_result.results.len() - i,
    {
        proof {
            assert(results.take(i + 1).drop_last() =~= results.take(i as int));
            assert(results.take(i + 1).last() == results[i as int]);
        }
        let result = &dispatch_result.results[i];
        let action = find_action(dispatch_actions, result.action_id.as_str());
        let job = build_outcome_job(result, action, timestamp_ms);
        supervisor_loop.upsert_job(job);
        match result.status {
            SupervisorDispatchStatus::Dispatched => {
                match (&result.thread_id, &result.turn_id) {
                    (Some(thread_id), Some(turn_id)) => {
                        let message = build_started_message(thread_id.as_str(), turn_id.as_str());
                        supervisor_loop.apply_app_server_event(result.workspace_id.as_str(), &message, timestamp_ms);
                    },
                    _ => {},
                }
            },
            SupervisorDispatchStatus::Failed => {
                let text = match &result.error {
                    Some(m) => m.clone(),
                    None => "Supervisor dispatch failed".to_owned(),
                };
                let message = build_failed_message(&result.thread_id, text.as_str());
                supervisor_loop.apply_app_server_event(result.workspace_id.as_str(), &message, timestamp_ms);
            },
        }
        i += 1;
    }
    assert(results.take(i as int) =~= results);
}

/// Whether one of the ids is the given one.
pub open spec fn has_id(ids: Seq<Seq<char>>, id: Seq<char>) -> bool {
    exists|i: int| 0 <= i < ids.len() && #[trigger] ids[i] == id
}

fn contains_id(ids: &Vec<String>, id: &str) -> (found: bool)
    ensures
        found == has_id(ids.deep_view(), id@),
{
    let mut i: usize = 0;
    while i < ids.len()
        invariant
            i <= ids.len(),
            forall|j: int| 0 <= j < i ==> #[trigger] ids.deep_view()[j] != id@,
        decreases ids.len() - i,
    {
        if text_eq(ids[i].as_str(), id) {
            assert(ids.deep_view()[i as int] == id@);
            return true;
        }
        i += 1;
    }
    false
}

/// What a workspace with a session can do.
pub open spec fn session_capabilities(available: bool) -> Seq<Seq<char>> {
    if available {
        Seq::empty().push("thread_start"@).push("thread_resume"@).push("turn_start"@).push(
            "respond_to_server_request"@,
        )
    } else {
        Seq::empty()
    }
}

/// What a workspace of the registry can do.
pub open spec fn entry_capabilities(available: bool, entry: WorkspaceEntryModel) -> Seq<Seq<char>> {
    let base = session_capabilities(available);
    let with_fs = if trimmed(entry.path).len() > 0 {
        base.push("workspace_fs"@)
    } else {
        base
    };
    if entry.branch is Some && trimmed(entry.branch->0).len() > 0 {
        with_fs.push("branch_context"@)
    } else {
        with_fs
    }
}

/// What the router knows of a workspace of the registry.
pub open spec fn entry_metadata(state: StateModel, connected_ids: Seq<Seq<char>>, entry: WorkspaceEntryModel) -> RouteWorkspaceModel {
    let known = table_get(state.workspaces, entry.id);
    let available = has_id(connected_ids, entry.id);
    let connected = available || match known {
        Some(w) => w.connected,
        None => false,
    };
    RouteWorkspaceModel {
        workspace_id: entry.id,
        name: entry.name,
        path: entry.path,
        branch: entry.branch,
        connected,
        available,
        health: match known {
            Some(w) => w.health,
            None => if connected {
                SupervisorHealth::Healthy
            } else {
                SupervisorHealth::Disconnected
            },
        },
        capabilities: entry_capabilities(available, entry),
    }
}

/// What the router knows of a workspace that only the state holds.
pub open spec fn state_metadata(connected_ids: Seq<Seq<char>>, workspace: WorkspaceModel) -> RouteWorkspaceModel {
    let available = has_id(connected_ids, workspace.id);
    RouteWorkspaceModel {
        workspace_id: workspace.id,
        name: workspace.name,
        path: Seq::empty(),
        branch: None,
        connected: workspace.connected || available,
        available,
        health: workspace.health,
        capabilities: session_capabilities(available),
    }
}

/// What the router knows of the workspaces of the registry, by id.
pub open spec fn entries_metadata(state: StateModel, connected_ids: Seq<Seq<char>>, entries: Seq<WorkspaceEntryModel>) -> Seq<
    (Seq<char>, RouteWorkspaceModel),
>
    decreases entries.len(),
{
    if entries.len() == 0 {
        Seq::empty()
    } else {
        table_put(
            entries_metadata(state, connected_ids, entries.drop_last()),
            entries.last().id,
            entry_metadata(state, connected_ids, entries.last()),
        )
    }
}

/// `known` with the workspaces of the state that it lacks.
pub open spec fn with_state_metadata(
    known: Seq<(Seq<char>, RouteWorkspaceModel)>,
    connected_ids: Seq<Seq<char>>,
    workspaces: Seq<(Seq<char>, WorkspaceModel)>,
) -> Seq<(Seq<char>, RouteWorkspaceModel)>
    decreases workspaces.len(),
{
    if workspaces.len() == 0 {
        known
    } else {
        let before = with_state_metadata(known, connected_ids, workspaces.drop_last());
        let workspace = workspaces.last().1;
        if table_get(before, workspace.id) is Some {
            before
        } else {
            table_put(before, workspace.id, state_metadata(connected_ids, workspace))
        }
    }
}

/// What the router knows of all workspaces, by id: those of the registry,
/// then those that only the state holds.
pub open spec fn route_metadata_of(state: StateModel, connected_ids: Seq<Seq<char>>, entries: Seq<WorkspaceEntryModel>) -> Seq<
    RouteWorkspaceModel,
> {
    let table = with_state_metadata(entries_metadata(state, connected_ids, entries), connected_ids, state.workspaces);
    sorted_candidates(Seq::new(table.len(), |i: int| table[i].1))
}

fn session_capability_list(available: bool) -> (capabilities: Vec<String>)
    ensures
        capabilities.deep_view() == session_capabilities(available),
{
    let mut capabilities: Vec<String> = Vec::new();
    if available {
        capabilities.push("thread_start".to_owned());
        capabilities.push("thread_resume".to_owned());
        capabilities.push("turn_start".to_owned());
        capabilities.push("respond_to_server_request".to_owned());
    }
    assert(capabilities.deep_view() =~= session_capabilities(available));
    capabilities
}

fn describe_entry(state: &SupervisorState, connected_ids: &Vec<String>, entry: &SupervisorWorkspaceEntry) -> (meta:
    SupervisorRouteWorkspaceMetadata)
    ensures
        meta@ == entry_metadata(state@, connected_ids.deep_view(), entry@),
{
    let known = state.workspaces.get(entry.id.as_str());
    let available = contains_id(connected_ids, entry.id.as_str());
    let connected = available || match known {
        Some(w) => w.connected,
        None => false,
    };
    let health = match known {
        Some(w) => w.health,
        None => if connected {
            SupervisorHealth::Healthy
        } else {
            SupervisorHealth::Disconnected
        },
    };
    let mut capabilities = session_capability_list(available);
    let ghost base = capabilities.deep_view();
    if entry.path.as_str().trim().unicode_len() > 0 {
        capabilities.push("workspace_fs".to_owned());
        assert(capabilities.deep_view() =~= base.push("workspace_fs"@));
    }
    let ghost with_fs = capabilities.deep_view();
    let has_branch = match &entry.branch {
        Some(branch) => branch.as_str().trim().unicode_len() > 0,
        None => false,
    };
    if has_branch {
        capabilities.push("branch_context".to_owned());
        assert(capabilities.deep_view() =~= with_fs.push("branch_context"@));
    }
    SupervisorRouteWorkspaceMetadata {
        workspace_id: entry.id.clone(),
        name: entry.name.clone(),
        path: entry.path.clone(),
        branch: entry.branch.clone(),
        connected,
        available,
        health,
        capabilities,
    }
}

/// What the router knows of all workspaces, by id.
pub fn collect_route_workspace_metadata(
    supervisor_loop: &SupervisorLoop,
    connected_workspace_ids: &Vec<String>,
    workspace_entries: &Vec<SupervisorWorkspaceEntry>,
) -> (metadata: Vec<SupervisorRouteWorkspaceMetadata>)
    ensures
        metadata.deep_view() == route_metadata_of(
            supervisor_loop@.state,
            connected_workspace_ids.deep_view(),
            workspace_entries.deep_view(),
        ),
{
    let state = &supervisor_loop.state;
    let ghost connected = connected_workspace_ids.deep_view();
    let ghost entries = workspace_entries.deep_view();
    let mut by_id: Table<SupervisorRouteWorkspaceMetadata> = Table::new();
    let mut i: usize = 0;
    assert(entries.take(0) =~= Seq::<WorkspaceEntryModel>::empty());
    while i < workspace_entries.len()
        invariant
            i <= workspace_entries.len(),
            entries == workspace_entries.deep_view(),
            connected == connected_workspace_ids.deep_view(),
            by_id@ == entries_metadata(state@, connected, entries.take(i as int)),
        decreases workspace_entries.len() - i,
    {
        proof {
            assert(entries.take(i + 1).drop_last() =~= entries.take(i as int));
            assert(entries.take(i + 1).last() == entries[i as int]);
        }
        let entry = &workspace_entries[i];
        by_id.put(entry.id.clone(), describe_entry(state, connected_workspace_ids, entry));
        i += 1;
    }
    assert(entries.take(i as int) =~= entries);
    let ghost known = by_id@;
    let ghost workspaces = state.workspaces@;
    let mut k: usize = 0;
    assert(workspaces.take(0) =~= Seq::<(Seq<char>, WorkspaceModel)>::empty());
    while k < state.workspaces.len()
        invariant
            k <= workspaces.len(),
            workspaces == state.workspaces@,
            connected == connected_workspace_ids.deep_view(),
            by_id@ == with_state_metadata(known, connected, workspaces.take(k as int)),
        decreases workspaces.len() - k,
    {
        proof {
            assert(workspaces.take(k + 1).drop_last() =~= workspaces.take(k as int));
            assert(workspaces.take(k + 1).last() == workspaces[k as int]);
        }
        let workspace = state.workspaces.value_at(k);
        if !by_id.contains_key(workspace.id.as_str()) {
            let available = contains_id(connected_workspace_ids, workspace.id.as_str());
            by_id.put(
                workspace.id.clone(),
                SupervisorRouteWorkspaceMetadata {
                    workspace_id: workspace.id.clone(),
                    name: workspace.name.clone(),
                    path: String::new(),
                    branch: None,
                    connected: workspace.connected || available,
                    available,
                    health: workspace.health,
                    capabilities: session_capability_list(available),
                },
            );
        }
        k += 1;
    }
    assert(workspaces.take(k as int) =~= workspaces);
    let mut values: Vec<SupervisorRouteWorkspaceMetadata> = Vec::new();
    let mut n: usize = 0;
    while n < by_id.len()
        invariant
            n <= by_id@.len(),
            values@.len() == n,
            forall|j: int| 0 <= j < n ==> (#[trigger] values@[j])@ == by_id@[j].1,
        decreases by_id@.len() - n,
    {
        values.push(by_id.value_at(n).clone());
        n += 1;
    }
    assert(values.deep_view() =~= Seq::new(by_id@.len(), |i: int| by_id@[i].1));
    sort_candidates(&values)
}

/// How many characters stand before the first white space of a text.
pub open spec fn word_end(s: Seq<char>) -> int
    decreases s.len(),
{
    if s.len() == 0 || is_space(s[0]) {
        0
    } else {
        1 + word_end(s.drop_first())
    }
}

/// What `word_end` is: no white space before it, white space at it.
pub proof fn lemma_word_end(s: Seq<char>)
    ensures
        0 <= word_end(s) <= s.len(),
        forall|j: int| 0 <= j < word_end(s) ==> !is_space(#[trigger] s[j]),
        word_end(s) < s.len() ==> is_space(s[word_end(s)]),
    decreases s.len(),
{
    if !(s.len() == 0 || is_space(s[0])) {
        let rest = s.drop_first();
        lemma_word_end(rest);
        assert forall|j: int| 0 <= j < word_end(s) implies !is_space(#[trigger] s[j]) by {
            if j > 0 {
                assert(s[j] == rest[j - 1]);
            }
        }
        if word_end(s) < s.len() {
            assert(s[word_end(s)] == rest[word_end(s) - 1]);
        }
    }
}

/// The subtask and the reply that a line of the form `@<subtask_id> <reply>` names.
pub open spec fn targeted_reply_of(input: Seq<char>) -> Option<(Seq<char>, Seq<char>)> {
    let line = trimmed(input);
    if !begins_with(line, "@"@) {
        None
    } else {
        let rest = trimmed(line.subrange(1, line.len() as int));
        let n = word_end(rest);
        if n >= rest.len() {
            None
        } else {
            let subtask_id = trimmed(rest.subrange(0, n));
            let reply = trimmed(rest.subrange(n + 1, rest.len() as int));
            if subtask_id.len() == 0 || reply.len() == 0 {
                None
            } else {
                Some((subtask_id, reply))
            }
        }
    }
}

/// The model of an optional pair of texts.
pub open spec fn pair_model(pair: Option<(String, String)>) -> Option<(Seq<char>, Seq<char>)> {
    match pair {
        Some(p) => Some((p.0@, p.1@)),
        None => None,
    }
}

/// The subtask and the reply that a line of the form `@<subtask_id> <reply>` names.
pub fn parse_targeted_subtask_reply(input: &str) -> (target: Option<(String, String)>)
    ensures
        pair_model(target) == targeted_reply_of(input@),
{
    let line = input.trim();
    if !text_starts_with(line, "@") {
        return None;
    }
    proof {
        reveal_strlit("@");
    }
    let rest = line.substring_char(1, line.unicode_len()).trim();
    let length = rest.unicode_len();
    let mut n: usize = 0;
    while n < length && !is_space_char(rest.get_char(n))
        invariant
            n <= length,
            length == rest@.len(),
            forall|j: int| 0 <= j < n ==> !is_space(#[trigger] rest@[j]),
        decreases length - n,
    {
        n += 1;
    }
    proof {
        lemma_word_end(rest@);
        let found = word_end(rest@);
        if found < n {
            assert(!is_space(rest@[found]));
        } else if n < found {
            assert(!is_space(rest@[n as int]));
        }
    }
    if n >= length {
        return None;
    }
    let subtask_id = rest.substring_char(0, n).trim();
    let reply = rest.substring_char(n + 1, length).trim();
    if subtask_id.unicode_len() == 0 || reply.unicode_len() == 0 {
        return None;
    }
    Some((subtask_id.to_owned(), reply.to_owned()))
}

/// One answer: an object with the reply as its one answer.
pub open spec fn answer_of(reply_text: Seq<char>) -> JsonModel {
    JsonModel::Object(
        Seq::empty().push(("answers"@, JsonModel::Array(Seq::empty().push(JsonModel::Text(reply_text))))),
    )
}

/// The answers to the questions with the ids: the same reply to each.
pub open spec fn answers_to(question_ids: Seq<Seq<char>>, reply_text: Seq<char>) -> Seq<(Seq<char>, JsonModel)>
    decreases question_ids.len(),
{
    if question_ids.len() == 0 {
        Seq::empty()
    } else {
        table_put(answers_to(question_ids.drop_last(), reply_text), question_ids.last(), answer_of(reply_text))
    }
}

/// What is sent to a child task in answer to its request: the reply under
/// each question id, or under `response` where the request named no question.
pub open spec fn reply_payload_of(question_ids: Seq<Seq<char>>, reply_text: Seq<char>) -> JsonModel {
    JsonModel::Object(
        Seq::empty().push(
            (
                "answers"@,
                JsonModel::Object(
                    if question_ids.len() == 0 {
                        Seq::empty().push(("response"@, answer_of(reply_text)))
                    } else {
                        answers_to(question_ids, reply_text)
                    },
                ),
            ),
        ),
    )
}

fn build_answer(reply_text: &str) -> (answer: JsonValue)
    ensures
        answer@ == answer_of(reply_text@),
{
    let mut items: Vec<JsonValue> = Vec::new();
    items.push(JsonValue::text(reply_text));
    let list = JsonValue::Array(items);
    assert(list@->Array_0 =~= Seq::empty().push(JsonModel::Text(reply_text@)));
    let mut members = new_members();
    push_member(&mut members, "answers", list);
    JsonValue::object(members)
}

impl Record for JsonValue {
    fn copy_record(&self) -> (copy: Self) {
        self.clone()
    }
}

/// What is sent to a child task in answer to its request.
pub fn build_reply_payload(question_ids: &Vec<String>, reply_text: &str) -> (payload: JsonValue)
    ensures
        payload@ == reply_payload_of(question_ids.deep_view(), reply_text@),
{
    let ghost ids = question_ids.deep_view();
    let answers = if question_ids.len() == 0 {
        let mut members = new_members();
        push_member(&mut members, "response", build_answer(reply_text));
        JsonValue::object(members)
    } else {
        let mut table: Table<JsonValue> = Table::new();
        let mut i: usize = 0;
        assert(ids.take(0) =~= Seq::<Seq<char>>::empty());
        while i < question_ids.len()
            invariant
                i <= question_ids.len(),
                ids == question_ids.deep_view(),
                table@ == answers_to(ids.take(i as int), reply_text@),
            decreases question_ids.len() - i,
        {
            proof {
                assert(ids.take(i + 1).drop_last() =~= ids.take(i as int));
                assert(ids.take(i + 1).last() == ids[i as int]);
            }
            table.put(question_ids[i].clone(), build_answer(reply_text));
            i += 1;
        }
        assert(ids.take(i as int) =~= ids);
        let ghost members_model = table@;
        let object = JsonValue::object(table.entries);
        assert(object@->Object_0 =~= members_model);
        object
    };
    let mut members = new_members();
    push_member(&mut members, "answers", answers);
    JsonValue::object(members)
}

/// The part of a session backend that carries replies to child tasks.
pub trait SupervisorReplyBackend {
    /// Whether the workspace has a session.
    fn has_session(&self, workspace_id: &str) -> bool;

    /// Sends the answer to a request of a child task.
    fn send_response(&self, workspace_id: &str, request_id: &JsonValue, payload: &JsonValue) -> Result<(), String>;
}

/// `SystemTime::now` as milliseconds since the Unix epoch; zero where the
/// clock stands before the epoch.
#[verifier::external_body]
pub fn now_timestamp_ms() -> (now: i64) {
    std::time::SystemTime::now().duration_since(std::time::UNIX_EPOCH).map(|d| d.as_millis() as i64).unwrap_or_default()
}

/// `uuid::Uuid::new_v4`, written in its simple form: a fresh random token.
#[verifier::external_body]
pub(crate) fn fresh_token() -> (token: String) {
    uuid::Uuid::new_v4().simple().to_string()
}

/// Why a reply cannot be sent to a job, before anything is sent: the job
/// holds no request, or the reply is blank.
pub open spec fn reply_precheck(job: JobModel, reply_text: Seq<char>) -> Option<Seq<char>> {
    if job.waiting_request_id is None {
        Some("subtask `"@ + job.id + "` no longer has a waiting request"@)
    } else if trimmed(reply_text).len() == 0 {
        Some("reply text is required"@)
    } else {
        None
    }
}

/// The loop and the answer after a reply was sent to a job: recorded as
/// delivered where the backend took it, as failed where it did not.
pub open spec fn reply_finished(
    lp: LoopModel,
    job: JobModel,
    request_id: JsonModel,
    reply_text: Seq<char>,
    sent: Result<(), Seq<char>>,
    at_ms: i64,
) -> (LoopModel, Result<Seq<char>, Seq<char>>) {
    match sent {
        Ok(_) => match reply_refusal(lp.state, job.id, request_id) {
            Some(reason) => (lp, Err(reason)),
            None => (
                reply_delivered(lp, job.id, request_id, reply_text, at_ms),
                Ok("Reply routed to subtask `"@ + job.id + "` in workspace `"@ + job.workspace_id + "`."@),
            ),
        },
        Err(error) => (
            reply_delivery_failed(lp, job.id, request_id, error, at_ms),
            Err("failed to deliver reply to subtask `"@ + job.id + "`: "@ + error),
        ),
    }
}

/// The model of what a backend said of a reply.
pub open spec fn sent_model(sent: Result<(), String>) -> Result<(), Seq<char>> {
    match sent {
        Ok(_) => Ok(()),
        Err(error) => Err(error@),
    }
}

/// Records what became of a reply that was sent to a job.
pub fn finish_reply_delivery(
    supervisor_loop: &mut SupervisorLoop,
    job: &SupervisorJobState,
    request_id: &JsonValue,
    reply_text: &str,
    sent: Result<(), String>,
    delivered_at_ms: i64,
) -> (answer: Result<String, String>)
    ensures
        (final(supervisor_loop)@, result_model(answer)) == reply_finished(
            old(supervisor_loop)@,
            job@,
            request_id@,
            reply_text@,
            sent_model(sent),
            delivered_at_ms,
        ),
        loop_sound(old(supervisor_loop)@) ==> loop_sound(final(supervisor_loop)@),
{
    match sent {
        Ok(_) => {
            match supervisor_loop.mark_reply_delivered(job.id.as_str(), request_id, reply_text, delivered_at_ms) {
                Err(reason) => Err(reason),
                Ok(_) => {
                    let mut text = "Reply routed to subtask `".to_owned();
                    text.append(job.id.as_str());
                    text.append("` in workspace `");
                    text.append(job.workspace_id.as_str());
                    text.append("`.");
                    Ok(text)
                },
            }
        },
        Err(error) => {
            supervisor_loop.mark_reply_delivery_failed(job.id.as_str(), request_id, error.as_str(), delivered_at_ms);
            let mut text = "failed to deliver reply to subtask `".to_owned();
            text.append(job.id.as_str());
            text.append("`: ");
            text.append(error.as_str());
            Err(text)
        },
    }
}

/// What may become of a reply to a job: refused before anything is sent,
/// refused for want of a session, or sent and recorded.
pub open spec fn reply_attempted(
    before: LoopModel,
    job: JobModel,
    reply_text: Seq<char>,
    at_ms: i64,
    after: LoopModel,
    answer: Result<Seq<char>, Seq<char>>,
) -> bool {
    match reply_precheck(job, reply_text) {
        Some(reason) => answer == Err::<Seq<char>, Seq<char>>(reason) && after == before,
        None => (answer == Err::<Seq<char>, Seq<char>>("workspace `"@ + job.workspace_id + "` is not connected"@)
            && after == before) || exists|sent: Result<(), Seq<char>>|
            (after, answer) == #[trigger] reply_finished(
                before,
                job,
                job.waiting_request_id->0,
                trimmed(reply_text),
                sent,
                at_ms,
            ),
    }
}

/// Sends the operator's reply to the job and records what became of it.
pub fn deliver_reply_to_waiting_subtask<B: SupervisorReplyBackend>(
    supervisor_loop: &mut SupervisorLoop,
    backend: &B,
    job: &SupervisorJobState,
    reply_text: &str,
    delivered_at_ms: i64,
) -> (answer: Result<String, String>)
    ensures
        reply_attempted(
            old(supervisor_loop)@,
            job@,
            reply_text@,
            delivered_at_ms,
            final(supervisor_loop)@,
            result_model(answer),
        ),
        loop_sound(old(supervisor_loop)@) ==> loop_sound(final(supervisor_loop)@),
{
    let request_id = match &job.waiting_request_id {
        Some(id) => id,
        None => {
            let mut text = "subtask `".to_owned();
            text.append(job.id.as_str());
            text.append("` no longer has a waiting request");
            return Err(text);
        },
    };
    let reply = reply_text.trim();
    if reply.unicode_len() == 0 {
        return Err("reply text is required".to_owned());
    }
    let payload = build_reply_payload(&job.waiting_question_ids, reply);
    if !backend.has_session(job.workspace_id.as_str()) {
        let mut text = "workspace `".to_owned();
        text.append(job.workspace_id.as_str());
        text.append("` is not connected");
        return Err(text);
    }
    let sent = backend.send_response(job.workspace_id.as_str(), request_id, &payload);
    let ghost told = sent_model(sent);
    let ghost before = supervisor_loop@;
    let answer = finish_reply_delivery(supervisor_loop, job, request_id, reply, sent, delivered_at_ms);
    assert((supervisor_loop@, result_model(answer)) == reply_finished(
        before,
        job@,
        job@.waiting_request_id->0,
        trimmed(reply_text@),
        told,
        delivered_at_ms,
    ));
    answer
}

/// What a free-form line means where jobs may wait for the operator.
pub enum ReplyPlanModel {
    /// The line is no reply: it is routed as a new message.
    NotAReply,
    /// The line is answered with a text.
    Answer(Seq<char>),
    /// The line is a reply to a job.
    Deliver { job: JobModel, reply_text: Seq<char> },
}

/// What a free-form line means where jobs may wait for the operator.
#[derive(Debug, PartialEq, Eq)]
pub enum SupervisorReplyPlan {
    NotAReply,
    Answer(String),
    Deliver { job: SupervisorJobState, reply_text: String },
}

impl View for SupervisorReplyPlan {
    type V = ReplyPlanModel;

    open spec fn view(&self) -> ReplyPlanModel {
        match self {
            SupervisorReplyPlan::NotAReply => ReplyPlanModel::NotAReply,
            SupervisorReplyPlan::Answer(text) => ReplyPlanModel::Answer(text@),
            SupervisorReplyPlan::Deliver { job, reply_text } => ReplyPlanModel::Deliver {
                job: job@,
                reply_text: reply_text@,
            },
        }
    }
}

/// The first of the jobs with the id.
pub open spec fn job_with_id(jobs: Seq<JobModel>, job_id: Seq<char>) -> Option<JobModel>
    decreases jobs.len(),
{
    if jobs.len() == 0 {
        None
    } else {
        match job_with_id(jobs.drop_last(), job_id) {
            Some(job) => Some(job),
            None => if jobs.last().id == job_id {
                Some(jobs.last())
            } else {
                None
            },
        }
    }
}

/// A job found among the first `n` is the one found among all.
pub proof fn lemma_job_stays(jobs: Seq<JobModel>, job_id: Seq<char>, n: int)
    requires
        0 <= n <= jobs.len(),
        job_with_id(jobs.take(n), job_id) is Some,
    ensures
        job_with_id(jobs, job_id) == job_with_id(jobs.take(n), job_id),
    decreases jobs.len() - n,
{
    if n < jobs.len() {
        assert(jobs.take(n + 1).drop_last() =~= jobs.take(n));
        lemma_job_stays(jobs, job_id, n + 1);
    } else {
        assert(jobs.take(n) =~= jobs);
    }
}

/// The ids of the jobs, in their order.
pub open spec fn job_ids(jobs: Seq<JobModel>) -> Seq<Seq<char>> {
    Seq::new(jobs.len(), |i: int| jobs[i].id)
}

/// The line that names a waiting job.
pub open spec fn waiting_hint(job: JobModel) -> Seq<char> {
    "- "@ + job.id + " (workspace: "@ + job.workspace_id + ", thread: "@ + (match job.thread_id {
        Some(t) => t,
        None => "-"@,
    }) + ")"@
}

/// The answer that asks the operator which waiting job a reply is for.
pub open spec fn disambiguation_text(waiting: Seq<JobModel>) -> Seq<char> {
    joined_lines(
        Seq::empty().push("Multiple child subtasks are waiting for input."@).push(
            "Reply with an explicit target: `@<subtask_id> your reply`."@,
        ).push("Waiting subtasks:"@).push(joined_lines(Seq::new(waiting.len(), |i: int| waiting_hint(waiting[i])))),
    )
}

/// What a free-form line means, given the jobs that wait: a reply to the
/// job that it names, a reply to the one job that waits, an answer that
/// tells why it cannot be a reply, or no reply at all.
pub open spec fn reply_plan_of(state: StateModel, command: Seq<char>) -> ReplyPlanModel {
    let targeted = crate::service::targeted_reply_of(command);
    let waiting = waiting_jobs_of(state.jobs);
    if waiting.len() == 0 {
        match targeted {
            Some(target) => ReplyPlanModel::Answer(
                if table_get(state.jobs, target.0) is Some {
                    "Subtask `"@ + target.0
                        + "` is no longer waiting for user input. Run `/status` and submit a new instruction."@
                } else {
                    "Subtask `"@ + target.0 + "` is unknown. Run `/status` to inspect active subtasks."@
                },
            ),
            None => ReplyPlanModel::NotAReply,
        }
    } else {
        match targeted {
            Some(target) => match job_with_id(waiting, target.0) {
                Some(job) => ReplyPlanModel::Deliver { job, reply_text: target.1 },
                None => ReplyPlanModel::Answer(
                    "Subtask `"@ + target.0 + "` is not waiting for input. Waiting subtasks: "@ + joined(
                        job_ids(waiting),
                        ", "@,
                    ),
                ),
            },
            None => if waiting.len() > 1 {
                ReplyPlanModel::Answer(disambiguation_text(waiting))
            } else {
                ReplyPlanModel::Deliver { job: waiting[0], reply_text: command }
            },
        }
    }
}

fn pick_job(jobs: &Vec<SupervisorJobState>, job_id: &str) -> (found: Option<SupervisorJobState>)
    ensures
        found.deep_view() == job_with_id(jobs.deep_view(), job_id@),
{
    let ghost models = jobs.deep_view();
    let mut i: usize = 0;
    assert(models.take(0) =~= Seq::<JobModel>::empty());
    while i < jobs.len()
        invariant
            i <= jobs.len(),
            models == jobs.deep_view(),
            job_with_id(models.take(i as int), job_id@) is None,
        decreases jobs.len() - i,
    {
        proof {
            assert(models.take(i + 1).drop_last() =~= models.take(i as int));
            assert(models.take(i + 1).last() == models[i as int]);
        }
        if text_eq(jobs[i].id.as_str(), job_id) {
            proof {
                lemma_job_stays(models, job_id@, i + 1);
            }
            return Some(jobs[i].clone());
        }
        i += 1;
    }
    assert(models.take(i as int) =~= models);
    None
}

/// What a free-form line means, given the jobs that wait.
pub fn plan_reply(supervisor_loop: &SupervisorLoop, command: &str) -> (plan: SupervisorReplyPlan)
    ensures
        plan@ == reply_plan_of(supervisor_loop@.state, command@),
{
    let targeted = parse_targeted_subtask_reply(command);
    let waiting = supervisor_loop.waiting_jobs();
    if waiting.len() == 0 {
        return match targeted {
            Some(target) => {
                let mut text = "Subtask `".to_owned();
                text.append(target.0.as_str());
                if supervisor_loop.state.jobs.contains_key(target.0.as_str()) {
                    text.append(
                        "` is no longer waiting for user input. Run `/status` and submit a new instruction.",
                    );
                } else {
                    text.append("` is unknown. Run `/status` to inspect active subtasks.");
                }
                SupervisorReplyPlan::Answer(text)
            },
            None => SupervisorReplyPlan::NotAReply,
        };
    }
    match targeted {
        Some(target) => {
            match pick_job(&waiting, target.0.as_str()) {
                Some(job) => SupervisorReplyPlan::Deliver { job, reply_text: target.1 },
                None => {
                    let mut ids: Vec<String> = Vec::new();
                    let mut i: usize = 0;
                    while i < waiting.len()
                        invariant
                            i <= waiting.len(),
                            ids@.len() == i,
                            forall|j: int| 0 <= j < i ==> (#[trigger] ids@[j])@ == waiting@[j].id@,
                        decreases waiting.len() - i,
                    {
                        ids.push(waiting[i].id.clone());
                        i += 1;
                    }
                    assert(ids.deep_view() =~= job_ids(waiting.deep_view()));
                    let mut text = "Subtask `".to_owned();
                    text.append(target.0.as_str());
                    text.append("` is not waiting for input. Waiting subtasks: ");
                    text.append(join_with(&ids, ", ").as_str());
                    SupervisorReplyPlan::Answer(text)
                },
            }
        },
        None => {
            if waiting.len() > 1 {
                let mut hints: Vec<String> = Vec::new();
                let mut i: usize = 0;
                while i < waiting.len()
                    invariant
                        i <= waiting.len(),
                        hints@.len() == i,
                        forall|j: int| 0 <= j < i ==> (#[trigger] hints@[j])@ == waiting_hint(waiting@[j]@),
                    decreases waiting.len() - i,
                {
                    let job = &waiting[i];
                    let mut hint = "- ".to_owned();
                    hint.append(job.id.as_str());
                    hint.append(" (workspace: ");
                    hint.append(job.workspace_id.as_str());
                    hint.append(", thread: ");
                    match &job.thread_id {
                        Some(t) => {
                            hint.append(t.as_str());
                        },
                        None => {
                            hint.append("-");
                        },
                    }
                    hint.append(")");
                    hints.push(hint);
                    i += 1;
                }
                assert(hints.deep_view() =~= Seq::new(
                    waiting.deep_view().len(),
                    |i: int| waiting_hint(waiting.deep_view()[i]),
                ));
                let mut lines: Vec<String> = Vec::new();
                assert(lines.deep_view() =~= Seq::<Seq<char>>::empty());
                push_line(&mut lines, "Multiple child subtasks are waiting for input.".to_owned());
                push_line(&mut lines, "Reply with an explicit target: `@<subtask_id> your reply`.".to_owned());
                push_line(&mut lines, "Waiting subtasks:".to_owned());
                push_line(&mut lines, join_lines(&hints));
                SupervisorReplyPlan::Answer(join_lines(&lines))
            } else {
                SupervisorReplyPlan::Deliver { job: waiting[0].clone(), reply_text: command.to_owned() }
            }
        },
    }
}

/// What may become of a free-form line as a reply: nothing where it is no
/// reply, an answer, or an attempt to deliver it.
pub open spec fn reply_routed(
    before: LoopModel,
    command: Seq<char>,
    at_ms: i64,
    after: LoopModel,
    outcome: Result<Option<Seq<char>>, Seq<char>>,
) -> bool {
    let plan = reply_plan_of(before.state, command);
    if plan is NotAReply {
        outcome == Ok::<Option<Seq<char>>, Seq<char>>(None) && after == before
    } else if plan is Answer {
        outcome == Ok::<Option<Seq<char>>, Seq<char>>(Some(plan->Answer_0)) && after == before
    } else {
        delivery_routed(before, plan->job, plan->reply_text, at_ms, after, outcome)
    }
}

/// What may become of a reply to a job: an attempt to deliver it, whose
/// answer is handed on.
pub open spec fn delivery_routed(
    before: LoopModel,
    job: JobModel,
    reply_text: Seq<char>,
    at_ms: i64,
    after: LoopModel,
    outcome: Result<Option<Seq<char>>, Seq<char>>,
) -> bool {
    exists|answer: Result<Seq<char>, Seq<char>>|
        #[trigger] reply_attempted(before, job, reply_text, at_ms, after, answer) && outcome == (match answer {
            Ok(text) => Ok::<Option<Seq<char>>, Seq<char>>(Some(text)),
            Err(reason) => Err::<Option<Seq<char>>, Seq<char>>(reason),
        })
}

/// The model of the outcome of routing a reply.
pub open spec fn routed_model(outcome: Result<Option<String>, String>) -> Result<Option<Seq<char>>, Seq<char>> {
    match outcome {
        Ok(text) => Ok(text.deep_view()),
        Err(reason) => Err(reason@),
    }
}

/// Takes a free-form line as a reply to a waiting job, where it is one.
pub fn try_route_reply_to_waiting_subtask<B: SupervisorReplyBackend>(
    supervisor_loop: &mut SupervisorLoop,
    backend: &B,
    command: &str,
    received_at_ms: i64,
) -> (outcome: Result<Option<String>, String>)
    ensures
        reply_routed(old(supervisor_loop)@, command@, received_at_ms, final(supervisor_loop)@, routed_model(outcome)),
        loop_sound(old(supervisor_loop)@) ==> loop_sound(final(supervisor_loop)@),
{
    match plan_reply(supervisor_loop, command) {
        SupervisorReplyPlan::NotAReply => Ok(None),
        SupervisorReplyPlan::Answer(text) => Ok(Some(text)),
        SupervisorReplyPlan::Deliver { job, reply_text } => {
            let ghost before = supervisor_loop@;
            let answer = deliver_reply_to_waiting_subtask(
                supervisor_loop,
                backend,
                &job,
                reply_text.as_str(),
                received_at_ms,
            );
            let ghost witness = result_model(answer);
            let outcome = match answer {
                Ok(text) => Ok(Some(text)),
                Err(reason) => Err(reason),
            };
            assert(reply_attempted(before, job@, reply_text@, received_at_ms, supervisor_loop@, witness)
                && routed_model(outcome) == (match witness {
                Ok(text) => Ok::<Option<Seq<char>>, Seq<char>>(Some(text)),
                Err(reason) => Err::<Option<Seq<char>>, Seq<char>>(reason),
            }));
            outcome
        },
    }
}

/// The name of a local tool in JSON.
pub open spec fn local_tool_name(tool: SupervisorLocalTool) -> Seq<char> {
    match tool {
        SupervisorLocalTool::Status => "status"@,
        SupervisorLocalTool::Feed => "feed"@,
        SupervisorLocalTool::Help => "help"@,
    }
}

/// What the router knows of a workspace, as JSON.
pub open spec fn route_workspace_json(workspace: RouteWorkspaceModel) -> JsonModel {
    JsonModel::Object(
        Seq::empty().push(("workspace_id"@, JsonModel::Text(workspace.workspace_id))).push(
            ("name"@, JsonModel::Text(workspace.name)),
        ).push(("path"@, JsonModel::Text(workspace.path))).push(("branch"@, text_or_null_model(workspace.branch))).push(
            ("connected"@, JsonModel::Bool(workspace.connected)),
        ).push(("available"@, JsonModel::Bool(workspace.available))).push(
            ("health"@, JsonModel::Text(health_name(workspace.health))),
        ).push(("capabilities"@, texts_model(workspace.capabilities))),
    )
}

/// A route decision as JSON.
pub open spec fn route_decision_json(route: RouteDecisionModel) -> JsonModel {
    JsonModel::Object(
        Seq::empty().push(("kind"@, JsonModel::Text(route_kind_name(route.kind)))).push(
            ("reason"@, JsonModel::Text(route.reason)),
        ).push(("workspace_id"@, text_or_null_model(route.workspace_id))).push(
            (
                "local_tool"@,
                match route.local_tool {
                    Some(tool) => JsonModel::Text(local_tool_name(tool)),
                    None => JsonModel::Null,
                },
            ),
        ).push(("model"@, text_or_null_model(route.model))).push(
            ("used_dedicated_workspace"@, JsonModel::Bool(route.used_dedicated_workspace)),
        ).push(("fallback_message"@, text_or_null_model(route.fallback_message))).push(
            ("clarification"@, text_or_null_model(route.clarification)),
        ).push(("options"@, texts_model(route.options))).push(
            (
                "candidates"@,
                JsonModel::Array(Seq::new(route.candidates.len(), |i: int| route_workspace_json(route.candidates[i]))),
            ),
        ),
    )
}

fn route_workspace_value(workspace: &SupervisorRouteWorkspaceMetadata) -> (value: JsonValue)
    ensures
        value@ == route_workspace_json(workspace@),
{
    let mut members = new_members();
    push_member(&mut members, "workspace_id", JsonValue::text(workspace.workspace_id.as_str()));
    push_member(&mut members, "name", JsonValue::text(workspace.name.as_str()));
    push_member(&mut members, "path", JsonValue::text(workspace.path.as_str()));
    push_member(&mut members, "branch", JsonValue::text_or_null(&workspace.branch));
    push_member(&mut members, "connected", JsonValue::Bool(workspace.connected));
    push_member(&mut members, "available", JsonValue::Bool(workspace.available));
    push_member(&mut members, "health", JsonValue::text(health_label(&workspace.health)));
    push_member(&mut members, "capabilities", JsonValue::texts(&workspace.capabilities));
    JsonValue::object(members)
}

/// A route decision as JSON.
pub fn route_decision_value(route: &SupervisorRouteDecision) -> (value: JsonValue)
    ensures
        value@ == route_decision_json(route@),
{
    let mut candidates: Vec<JsonValue> = Vec::new();
    let mut i: usize = 0;
    while i < route.candidates.len()
        invariant
            i <= route.candidates.len(),
            candidates@.len() == i,
            forall|j: int| 0 <= j < i ==> (#[trigger] candidates@[j])@ == route_workspace_json(route@.candidates[j]),
        decreases route.candidates.len() - i,
    {
        candidates.push(route_workspace_value(&route.candidates[i]));
        i += 1;
    }
    let candidates_value = JsonValue::Array(candidates);
    assert(candidates_value@->Array_0 =~= Seq::new(
        route@.candidates.len(),
        |i: int| route_workspace_json(route@.candidates[i]),
    ));
    let tool = match route.local_tool {
        Some(SupervisorLocalTool::Status) => JsonValue::text("status"),
        Some(SupervisorLocalTool::Feed) => JsonValue::text("feed"),
        Some(SupervisorLocalTool::Help) => JsonValue::text("help"),
        None => JsonValue::Null,
    };
    let mut members = new_members();
    push_member(&mut members, "kind", JsonValue::text(route_kind_label(&route.kind)));
    push_member(&mut members, "reason", JsonValue::text(route.reason.as_str()));
    push_member(&mut members, "workspace_id", JsonValue::text_or_null(&route.workspace_id));
    push_member(&mut members, "local_tool", tool);
    push_member(&mut members, "model", JsonValue::text_or_null(&route.model));
    push_member(&mut members, "used_dedicated_workspace", JsonValue::Bool(route.used_dedicated_workspace));
    push_member(&mut members, "fallback_message", JsonValue::text_or_null(&route.fallback_message));
    push_member(&mut members, "clarification", JsonValue::text_or_null(&route.clarification));
    push_member(&mut members, "options", JsonValue::texts(&route.options));
    push_member(&mut members, "candidates", candidates_value);
    JsonValue::object(members)
}

/// Where a free-form message goes: to workspaces as a dispatch, to a local
/// tool, or back to the operator as a question.
#[derive(Debug, PartialEq, Eq)]
pub enum FreeformDispatchOutcome {
    Dispatch(SupervisorChatDispatchRequest),
    LocalTool(SupervisorRouteDecision),
    Clarification(SupervisorRouteDecision),
}

/// Mathematical model of [`FreeformDispatchOutcome`].
pub enum FreeformModel {
    Dispatch(DispatchRequestModel),
    LocalTool(RouteDecisionModel),
    Clarification(RouteDecisionModel),
}

impl View for FreeformDispatchOutcome {
    type V = FreeformModel;

    open spec fn view(&self) -> FreeformModel {
        match self {
            FreeformDispatchOutcome::Dispatch(request) => FreeformModel::Dispatch(request@),
            FreeformDispatchOutcome::LocalTool(route) => FreeformModel::LocalTool(route@),
            FreeformDispatchOutcome::Clarification(route) => FreeformModel::Clarification(route@),
        }
    }
}

impl DeepView for FreeformDispatchOutcome {
    type V = FreeformModel;

    open spec fn deep_view(&self) -> FreeformModel {
        self@
    }
}

/// The loop after a route decision was recorded under `route_id`.
pub open spec fn route_recorded(lp: LoopModel, route: RouteDecisionModel, route_id: Seq<char>, at_ms: i64) -> LoopModel {
    LoopModel {
        state: with_activity(
            lp.state,
            lp.config.activity_feed_limit,
            ActivityModel {
                id: "route_decision:"@ + route_id + ":"@ + integer_text(at_ms as int),
                kind: "route_decision"@,
                message: "Free-form route decision: "@ + route_kind_name(route.kind) + " ("@ + route.reason + ")"@,
                created_at_ms: at_ms,
                workspace_id: None,
                thread_id: None,
                needs_input: false,
                metadata: route_decision_json(route),
            },
        ),
        ..lp
    }
}

/// What a route decision makes of a prompt; `token` makes the dedupe key
/// of a dispatch unique.
pub open spec fn freeform_outcome(route: RouteDecisionModel, prompt: Seq<char>, token: Seq<char>) -> Result<
    FreeformModel,
    Seq<char>,
> {
    match route.kind {
        SupervisorRouteKind::LocalTool => Ok(FreeformModel::LocalTool(route)),
        SupervisorRouteKind::Clarification => Ok(FreeformModel::Clarification(route)),
        SupervisorRouteKind::WorkspaceDelegate => match present(route.workspace_id) {
            None => Err("route decision did not include target workspace"@),
            Some(workspace_id) => Ok(
                FreeformModel::Dispatch(
                    DispatchRequestModel {
                        workspace_ids: Seq::empty().push(workspace_id),
                        prompt: trimmed(prompt),
                        thread_id: None,
                        dedupe_key: Some("freeform:"@ + workspace_id + ":"@ + token),
                        model: route.model,
                        effort: None,
                        access_mode: None,
                        route_kind: Some("workspace_delegate"@),
                        route_reason: Some(route.reason),
                        route_fallback: route.fallback_message,
                    },
                ),
            ),
        },
    }
}

/// What a route decision makes of a prompt.
pub fn freeform_outcome_of(route: SupervisorRouteDecision, prompt: &str, token: &str) -> (outcome: Result<
    FreeformDispatchOutcome,
    String,
>)
    ensures
        result_model(outcome) == freeform_outcome(route@, prompt@, token@),
{
    match route.kind {
        SupervisorRouteKind::LocalTool => Ok(FreeformDispatchOutcome::LocalTool(route)),
        SupervisorRouteKind::Clarification => Ok(FreeformDispatchOutcome::Clarification(route)),
        SupervisorRouteKind::WorkspaceDelegate => {
            let workspace_id = match &route.workspace_id {
                Some(id) => {
                    let cut = id.as_str().trim();
                    if cut.unicode_len() > 0 {
                        cut.to_owned()
                    } else {
                        return Err("route decision did not include target workspace".to_owned());
                    }
                },
                None => {
                    return Err("route decision did not include target workspace".to_owned());
                },
            };
            let mut dedupe_key = "freeform:".to_owned();
            dedupe_key.append(workspace_id.as_str());
            dedupe_key.append(":");
            dedupe_key.append(token);
            let mut workspace_ids: Vec<String> = Vec::new();
            workspace_ids.push(workspace_id);
            assert(workspace_ids.deep_view() =~= Seq::empty().push(workspace_ids@[0]@));
            Ok(
                FreeformDispatchOutcome::Dispatch(
                    SupervisorChatDispatchRequest {
                        workspace_ids,
                        prompt: prompt.trim().to_owned(),
                        thread_id: None,
                        dedupe_key: Some(dedupe_key),
                        model: route.model,
                        effort: None,
                        access_mode: None,
                        route_kind: Some("workspace_delegate".to_owned()),
                        route_reason: Some(route.reason),
                        route_fallback: route.fallback_message,
                    },
                ),
            )
        },
    }
}

/// What routing a free-form prompt does: the decision is recorded in the
/// feed, and it makes a dispatch, a local tool or a question of the prompt.
pub open spec fn freeform_routed(
    before: LoopModel,
    connected_ids: Seq<Seq<char>>,
    entries: Seq<WorkspaceEntryModel>,
    settings: SettingsModel,
    prompt: Seq<char>,
    at_ms: i64,
    after: LoopModel,
    outcome: Result<FreeformModel, Seq<char>>,
) -> bool {
    let route = route_of(prompt, route_metadata_of(before.state, connected_ids, entries), settings);
    exists|route_token: Seq<char>, dedupe_token: Seq<char>|
        after == #[trigger] route_recorded(before, route, integer_text(at_ms as int) + "-"@ + route_token, at_ms)
            && outcome == #[trigger] freeform_outcome(route, prompt, dedupe_token)
}

/// Routes a free-form prompt and records the decision.
pub fn build_freeform_dispatch_request(
    supervisor_loop: &mut SupervisorLoop,
    connected_workspace_ids: &Vec<String>,
    workspace_entries: &Vec<SupervisorWorkspaceEntry>,
    settings: &AppSettings,
    prompt: &str,
    received_at_ms: i64,
) -> (outcome: Result<FreeformDispatchOutcome, String>)
    ensures
        freeform_routed(
            old(supervisor_loop)@,
            connected_workspace_ids.deep_view(),
            workspace_entries.deep_view(),
            settings@,
            prompt@,
            received_at_ms,
            final(supervisor_loop)@,
            result_model(outcome),
        ),
        loop_sound(old(supervisor_loop)@) ==> loop_sound(final(supervisor_loop)@),
{
    let ghost before = supervisor_loop@;
    let metadata = collect_route_workspace_metadata(supervisor_loop, connected_workspace_ids, workspace_entries);
    let route = select_supervisor_route(prompt, &metadata, settings);
    let route_token = fresh_token();
    let mut route_id = decimal(received_at_ms as i128);
    route_id.append("-");
    route_id.append(route_token.as_str());
    let mut message = "Free-form route decision: ".to_owned();
    message.append(route_kind_label(&route.kind));
    message.append(" (");
    message.append(route.reason.as_str());
    message.append(")");
    let decision_metadata = route_decision_value(&route);
    supervisor_loop.record_route_decision(route_id.as_str(), message, received_at_ms, decision_metadata);
    let dedupe_token = fresh_token();
    let ghost decided = route@;
    let outcome = freeform_outcome_of(route, prompt, dedupe_token.as_str());
    assert(supervisor_loop@ == route_recorded(
        before,
        decided,
        integer_text(received_at_ms as int) + "-"@ + route_token@,
        received_at_ms,
    ) && result_model(outcome) == freeform_outcome(decided, prompt@, dedupe_token@));
    outcome
}

/// The answer of a local tool.
pub open spec fn local_tool_answer(state: StateModel, tool: SupervisorLocalTool) -> Result<Seq<char>, Seq<char>> {
    match tool {
        SupervisorLocalTool::Status => status_text(state, None, None),
        SupervisorLocalTool::Feed => Ok(
            joined_lines(
                feed_lines(
                    feed_page(state.activity_feed, Some(SUPERVISOR_CHAT_FEED_LIMIT), false).items,
                    feed_page(state.activity_feed, Some(SUPERVISOR_CHAT_FEED_LIMIT), false).total,
                    false,
                ),
            ),
        ),
        SupervisorLocalTool::Help => Ok(joined_lines(help_lines())),
    }
}

/// The answer of a local tool.
pub fn execute_local_tool_route(supervisor_loop: &SupervisorLoop, tool: SupervisorLocalTool) -> (answer: Result<
    String,
    String,
>)
    ensures
        result_model(answer) == local_tool_answer(supervisor_loop@.state, tool),
{
    match tool {
        SupervisorLocalTool::Status => format_status_message(&supervisor_loop.state, None, None),
        SupervisorLocalTool::Feed => {
            let feed = supervisor_feed_core(supervisor_loop, Some(SUPERVISOR_CHAT_FEED_LIMIT), false);
            Ok(format_feed_message(&feed.items, feed.total, false))
        },
        SupervisorLocalTool::Help => Ok(format_help_message()),
    }
}

/// What a dispatch of a contract does: a contract that is refused changes
/// nothing; otherwise the executor dispatches the actions in their order,
/// and the loop takes in the outcomes at some time.
pub open spec fn contract_dispatched(
    before: LoopModel,
    store: Seq<(Seq<char>, ResultModel)>,
    contract: JsonModel,
    after: LoopModel,
    next_store: Seq<(Seq<char>, ResultModel)>,
    outcome: Result<crate::dispatch::BatchResultModel, Seq<char>>,
) -> bool {
    match parsed_contract(contract) {
        Err(reason) => outcome == Err::<crate::dispatch::BatchResultModel, Seq<char>>(reason) && after == before
            && next_store == store,
        Ok(validated) => outcome is Ok && batch_dispatched(
            store,
            validated.dispatch_actions,
            outcome->Ok_0.results,
            next_store,
        ) && exists|at_ms: i64|
            after == #[trigger] outcomes_applied(before, outcome->Ok_0.results, validated.dispatch_actions, at_ms),
    }
}

/// Checks a contract, dispatches its actions and takes the outcomes into the loop.
pub fn supervisor_dispatch_core<B: SupervisorDispatchBackend>(
    supervisor_loop: &mut SupervisorLoop,
    dispatch_executor: &mut SupervisorDispatchExecutor,
    backend: &B,
    contract: &JsonValue,
) -> (outcome: Result<SupervisorDispatchBatchResult, String>)
    ensures
        contract_dispatched(
            old(supervisor_loop)@,
            old(dispatch_executor)@,
            contract@,
            final(supervisor_loop)@,
            final(dispatch_executor)@,
            result_model(outcome),
        ),
        loop_sound(old(supervisor_loop)@) ==> loop_sound(final(supervisor_loop)@),
{
    let validated = match parse_supervisor_action_contract_value(contract) {
        Ok(validated) => validated,
        Err(reason) => {
            return Err(reason);
        },
    };
    let ghost before = supervisor_loop@;
    let dispatch_actions = validated.dispatch_actions;
    let given = dispatch_actions.clone();
    assert(given.deep_view() =~= dispatch_actions.deep_view());
    let dispatch_result = dispatch_executor.dispatch_batch(backend, given);
    if dispatch_result.results.len() > 0 {
        let timestamp_ms = now_timestamp_ms();
        apply_dispatch_outcome_events(supervisor_loop, &dispatch_result, &dispatch_actions, timestamp_ms);
    } else {
        assert(supervisor_loop@ == outcomes_applied(
            before,
            dispatch_result@.results,
            dispatch_actions.deep_view(),
            0i64,
        ));
    }
    Ok(dispatch_result)
}

/// The workspaces with the name of the workspace `id`, where there is one, replaced.
pub open spec fn renamed(workspaces: Seq<(Seq<char>, WorkspaceModel)>, id: Seq<char>, name: Seq<char>) -> Seq<
    (Seq<char>, WorkspaceModel),
> {
    match key_index(workspaces, id) {
        Some(i) => workspaces.update(i, (workspaces[i].0, WorkspaceModel { name, ..workspaces[i].1 })),
        None => workspaces,
    }
}

/// The workspaces with the names that the registry gives them.
pub open spec fn with_registry_names(workspaces: Seq<(Seq<char>, WorkspaceModel)>, entries: Seq<WorkspaceEntryModel>) -> Seq<
    (Seq<char>, WorkspaceModel),
>
    decreases entries.len(),
{
    if entries.len() == 0 {
        workspaces
    } else {
        renamed(with_registry_names(workspaces, entries.drop_last()), entries.last().id, entries.last().name)
    }
}

/// The state with the names that the registry gives to the workspaces.
pub open spec fn named_state(state: StateModel, entries: Seq<WorkspaceEntryModel>) -> StateModel {
    StateModel { workspaces: with_registry_names(state.workspaces, entries), ..state }
}

/// A copy of the state with the names that the registry gives to the workspaces.
pub fn snapshot_with_registry_names(supervisor_loop: &SupervisorLoop, workspace_entries: &Vec<SupervisorWorkspaceEntry>) -> (state:
    SupervisorState)
    ensures
        state@ == named_state(supervisor_loop@.state, workspace_entries.deep_view()),
{
    let mut state = supervisor_loop.snapshot();
    let ghost start = state@;
    let ghost entries = workspace_entries.deep_view();
    let mut i: usize = 0;
    assert(entries.take(0) =~= Seq::<WorkspaceEntryModel>::empty());
    while i < workspace_entries.len()
        invariant
            i <= workspace_entries.len(),
            entries == workspace_entries.deep_view(),
            state@ == (StateModel { workspaces: with_registry_names(start.workspaces, entries.take(i as int)), ..start }),
        decreases workspace_entries.len() - i,
    {
        proof {
            assert(entries.take(i + 1).drop_last() =~= entries.take(i as int));
            assert(entries.take(i + 1).last() == entries[i as int]);
        }
        let entry = &workspace_entries[i];
        match state.workspaces.position(entry.id.as_str()) {
            Some(place) => {
                proof {
                    lemma_key_index(state.workspaces@, entry.id@);
                }
                let mut workspace = state.workspaces.value_at(place).clone();
                workspace.name = entry.name.clone();
                let key = state.workspaces.key_at(place).clone();
                state.workspaces.put(key, workspace);
            },
            None => {},
        }
        i += 1;
    }
    assert(entries.take(i as int) =~= entries);
    state
}

/// The answer to a command line that could not be carried out.
pub open spec fn command_error_text(reason: Seq<char>) -> Seq<char> {
    "Error: "@ + reason + "\nRun `/help` for command usage."@
}

/// What acknowledging a signal from the chat does, at some time.
pub open spec fn ack_executed(before: LoopModel, signal_id: Seq<char>, after: LoopModel, answer: Result<Seq<char>, Seq<char>>) -> bool {
    match ack_refusal(before.state, signal_id) {
        Some(reason) => answer == Err::<Seq<char>, Seq<char>>(reason) && after == before,
        None => answer == Ok::<Seq<char>, Seq<char>>("Signal `"@ + signal_id + "` acknowledged."@) && exists|at_ms: i64|
            after == #[trigger] acknowledged_loop(before, signal_id, at_ms),
    }
}

/// The loop after a signal was acknowledged.
pub open spec fn acknowledged_loop(lp: LoopModel, signal_id: Seq<char>, at_ms: i64) -> LoopModel {
    LoopModel {
        state: reduced(
            lp.state,
            UpdateModel::AckSignal { signal_id: trimmed(signal_id), acknowledged_at_ms: at_ms },
        ),
        ..lp
    }
}

/// What a `/dispatch` command does: its contract, with action ids after a
/// fresh prefix, is dispatched, and the answer tells of the outcomes.
pub open spec fn dispatch_executed(
    before: LoopModel,
    store: Seq<(Seq<char>, ResultModel)>,
    request: DispatchRequestModel,
    at_ms: i64,
    after: LoopModel,
    next_store: Seq<(Seq<char>, ResultModel)>,
    answer: Result<Seq<char>, Seq<char>>,
) -> bool {
    exists|token: Seq<char>, outcome: Result<crate::dispatch::BatchResultModel, Seq<char>>|
        #[trigger] contract_dispatched(
            before,
            store,
            dispatch_contract_of(request, "chat-dispatch-"@ + integer_text(at_ms as int) + "-"@ + token),
            after,
            next_store,
            outcome,
        ) && answer == (match outcome {
            Ok(batch) => Ok::<Seq<char>, Seq<char>>(joined_lines(dispatch_lines(request, batch.results))),
            Err(reason) => Err::<Seq<char>, Seq<char>>(reason),
        })
}

/// What carrying out a chat command does: help, status and feed answer
/// from the state and change nothing; an acknowledgement and a dispatch do
/// their work and tell of it.
pub open spec fn command_executed(
    before: LoopModel,
    store: Seq<(Seq<char>, ResultModel)>,
    entries: Seq<WorkspaceEntryModel>,
    command: ChatCommandModel,
    at_ms: i64,
    after: LoopModel,
    next_store: Seq<(Seq<char>, ResultModel)>,
    answer: Result<Seq<char>, Seq<char>>,
) -> bool {
    match command {
        ChatCommandModel::Help => answer == Ok::<Seq<char>, Seq<char>>(joined_lines(help_lines())) && after == before
            && next_store == store,
        ChatCommandModel::Status { workspace_id, thread_id } => answer == status_text(
            named_state(before.state, entries),
            workspace_id,
            thread_id,
        ) && after == before && next_store == store,
        ChatCommandModel::Feed { needs_input_only } => answer == Ok::<Seq<char>, Seq<char>>(
            joined_lines(
                feed_lines(
                    feed_page(before.state.activity_feed, Some(SUPERVISOR_CHAT_FEED_LIMIT), needs_input_only).items,
                    feed_page(before.state.activity_feed, Some(SUPERVISOR_CHAT_FEED_LIMIT), needs_input_only).total,
                    needs_input_only,
                ),
            ),
        ) && after == before && next_store == store,
        ChatCommandModel::Ack { signal_id } => ack_executed(before, signal_id, after, answer) && next_store == store,
        ChatCommandModel::Dispatch(request) => dispatch_executed(
            before,
            store,
            request,
            at_ms,
            after,
            next_store,
            answer,
        ),
    }
}

fn as_deref(text: &Option<String>) -> (out: Option<&str>)
    ensures
        out.deep_view() == text.deep_view(),
{
    match text {
        Some(t) => Some(t.as_str()),
        None => None,
    }
}

/// Carries out a `/dispatch` command.
pub fn execute_dispatch_request<B: SupervisorDispatchBackend>(
    supervisor_loop: &mut SupervisorLoop,
    dispatch_executor: &mut SupervisorDispatchExecutor,
    backend: &B,
    request: &SupervisorChatDispatchRequest,
    received_at_ms: i64,
) -> (answer: Result<String, String>)
    ensures
        dispatch_executed(
            old(supervisor_loop)@,
            old(dispatch_executor)@,
            request@,
            received_at_ms,
            final(supervisor_loop)@,
            final(dispatch_executor)@,
            result_model(answer),
        ),
        loop_sound(old(supervisor_loop)@) ==> loop_sound(final(supervisor_loop)@),
{
    let token = fresh_token();
    let mut prefix = "chat-dispatch-".to_owned();
    prefix.append(decimal(received_at_ms as i128).as_str());
    prefix.append("-");
    prefix.append(token.as_str());
    let contract = build_dispatch_contract(request, prefix.as_str());
    let outcome = supervisor_dispatch_core(supervisor_loop, dispatch_executor, backend, &contract);
    let ghost told = result_model(outcome);
    let answer = match outcome {
        Ok(dispatch) => Ok(format_dispatch_message(request, &dispatch)),
        Err(reason) => Err(reason),
    };
    assert(contract_dispatched(
        old(supervisor_loop)@,
        old(dispatch_executor)@,
        dispatch_contract_of(request@, "chat-dispatch-"@ + integer_text(received_at_ms as int) + "-"@ + token@),
        supervisor_loop@,
        dispatch_executor@,
        told,
    ) && result_model(answer) == (match told {
        Ok(batch) => Ok::<Seq<char>, Seq<char>>(joined_lines(dispatch_lines(request@, batch.results))),
        Err(reason) => Err::<Seq<char>, Seq<char>>(reason),
    }));
    answer
}

/// Carries out a chat command.
pub fn execute_parsed_supervisor_chat_command<B: SupervisorDispatchBackend>(
    supervisor_loop: &mut SupervisorLoop,
    dispatch_executor: &mut SupervisorDispatchExecutor,
    backend: &B,
    workspace_entries: &Vec<SupervisorWorkspaceEntry>,
    command: SupervisorChatCommand,
    received_at_ms: i64,
) -> (answer: Result<String, String>)
    ensures
        command_executed(
            old(supervisor_loop)@,
            old(dispatch_executor)@,
            workspace_entries.deep_view(),
            command@,
            received_at_ms,
            final(supervisor_loop)@,
            final(dispatch_executor)@,
            result_model(answer),
        ),
        loop_sound(old(supervisor_loop)@) ==> loop_sound(final(supervisor_loop)@),
{
    match command {
        SupervisorChatCommand::Help => Ok(format_help_message()),
        SupervisorChatCommand::Status { workspace_id, thread_id } => {
            let snapshot = snapshot_with_registry_names(supervisor_loop, workspace_entries);
            format_status_message(&snapshot, as_deref(&workspace_id), as_deref(&thread_id))
        },
        SupervisorChatCommand::Feed { needs_input_only } => {
            let feed = supervisor_feed_core(supervisor_loop, Some(SUPERVISOR_CHAT_FEED_LIMIT), needs_input_only);
            Ok(format_feed_message(&feed.items, feed.total, needs_input_only))
        },
        SupervisorChatCommand::Ack { signal_id } => {
            let at_ms = now_timestamp_ms();
            let ghost before = supervisor_loop@;
            match supervisor_ack_signal_core(supervisor_loop, signal_id.as_str(), at_ms) {
                Err(reason) => Err(reason),
                Ok(_) => {
                    assert(supervisor_loop@ == acknowledged_loop(before, signal_id@, at_ms));
                    Ok(format_ack_message(signal_id.as_str()))
                },
            }
        },
        SupervisorChatCommand::Dispatch(request) => execute_dispatch_request(
            supervisor_loop,
            dispatch_executor,
            backend,
            &request,
            received_at_ms,
        ),
    }
}

/// What becomes of what a route made of a free-form prompt.
pub open spec fn freeform_finished(
    before: LoopModel,
    store: Seq<(Seq<char>, ResultModel)>,
    routed: Result<FreeformModel, Seq<char>>,
    at_ms: i64,
    after: LoopModel,
    next_store: Seq<(Seq<char>, ResultModel)>,
    answer: Result<Seq<char>, Seq<char>>,
) -> bool {
    match routed {
        Err(reason) => answer == Err::<Seq<char>, Seq<char>>(reason) && after == before && next_store == store,
        Ok(FreeformModel::Dispatch(request)) => dispatch_executed(
            before,
            store,
            request,
            at_ms,
            after,
            next_store,
            answer,
        ),
        Ok(FreeformModel::LocalTool(route)) => after == before && next_store == store && answer == (match route.local_tool {
            Some(tool) => local_tool_answer(before.state, tool),
            None => Err("local route decision is missing tool type"@),
        }),
        Ok(FreeformModel::Clarification(route)) => answer == Ok::<Seq<char>, Seq<char>>(
            joined_lines(clarification_lines(route)),
        ) && after == before && next_store == store,
    }
}

/// What becomes of a free-form line that is no reply: it is routed, and
/// what the route makes of it is carried out.
pub open spec fn freeform_continued(
    before: LoopModel,
    store: Seq<(Seq<char>, ResultModel)>,
    connected_ids: Seq<Seq<char>>,
    entries: Seq<WorkspaceEntryModel>,
    settings: SettingsModel,
    command: Seq<char>,
    at_ms: i64,
    after: LoopModel,
    next_store: Seq<(Seq<char>, ResultModel)>,
    answer: Result<Seq<char>, Seq<char>>,
) -> bool {
    exists|mid: LoopModel, routed: Result<FreeformModel, Seq<char>>|
        #[trigger] freeform_routed(before, connected_ids, entries, settings, command, at_ms, mid, routed)
            && freeform_finished(mid, store, routed, at_ms, after, next_store, answer)
}

/// What becomes of a free-form line: a reply to a waiting job where it is
/// one, a routed message otherwise.
pub open spec fn freeform_executed(
    before: LoopModel,
    store: Seq<(Seq<char>, ResultModel)>,
    connected_ids: Seq<Seq<char>>,
    entries: Seq<WorkspaceEntryModel>,
    settings: SettingsModel,
    command: Seq<char>,
    at_ms: i64,
    after: LoopModel,
    next_store: Seq<(Seq<char>, ResultModel)>,
    answer: Result<Seq<char>, Seq<char>>,
) -> bool {
    exists|mid: LoopModel, reply: Result<Option<Seq<char>>, Seq<char>>|
        #[trigger] reply_routed(before, command, at_ms, mid, reply) && (match reply {
            Err(reason) => answer == Err::<Seq<char>, Seq<char>>(reason) && after == mid && next_store == store,
            Ok(Some(text)) => answer == Ok::<Seq<char>, Seq<char>>(text) && after == mid && next_store == store,
            Ok(None) => freeform_continued(
                mid,
                store,
                connected_ids,
                entries,
                settings,
                command,
                at_ms,
                after,
                next_store,
                answer,
            ),
        })
}

/// Carries out a free-form line of the chat.
pub fn execute_freeform_supervisor_chat<B: SupervisorDispatchBackend + SupervisorReplyBackend>(
    supervisor_loop: &mut SupervisorLoop,
    dispatch_executor: &mut SupervisorDispatchExecutor,
    backend: &B,
    connected_workspace_ids: &Vec<String>,
    workspace_entries: &Vec<SupervisorWorkspaceEntry>,
    settings: &AppSettings,
    command: &str,
    received_at_ms: i64,
) -> (answer: Result<String, String>)
    ensures
        freeform_executed(
            old(supervisor_loop)@,
            old(dispatch_executor)@,
            connected_workspace_ids.deep_view(),
            workspace_entries.deep_view(),
            settings@,
            command@,
            received_at_ms,
            final(supervisor_loop)@,
            final(dispatch_executor)@,
            result_model(answer),
        ),
        loop_sound(old(supervisor_loop)@) ==> loop_sound(final(supervisor_loop)@),
{
    let ghost before = supervisor_loop@;
    let ghost store = dispatch_executor@;
    let ghost connected = connected_workspace_ids.deep_view();
    let ghost entries = workspace_entries.deep_view();
    let reply = try_route_reply_to_waiting_subtask(supervisor_loop, backend, command, received_at_ms);
    let ghost mid = supervisor_loop@;
    let ghost replied = routed_model(reply);
    match reply {
        Err(reason) => {
            let answer: Result<String, String> = Err(reason);
            assert(reply_routed(before, command@, received_at_ms, mid, replied) && result_model(answer) == Err::<
                Seq<char>,
                Seq<char>,
            >(reason@));
            return answer;
        },
        Ok(Some(text)) => {
            let answer: Result<String, String> = Ok(text);
            assert(reply_routed(before, command@, received_at_ms, mid, replied) && result_model(answer) == Ok::<
                Seq<char>,
                Seq<char>,
            >(text@));
            return answer;
        },
        Ok(None) => {},
    }
    let routed = build_freeform_dispatch_request(
        supervisor_loop,
        connected_workspace_ids,
        workspace_entries,
        settings,
        command,
        received_at_ms,
    );
    let ghost mid2 = supervisor_loop@;
    let ghost routed_as = result_model(routed);
    let answer = match routed {
        Err(reason) => Err(reason),
        Ok(FreeformDispatchOutcome::Dispatch(request)) => execute_dispatch_request(
            supervisor_loop,
            dispatch_executor,
            backend,
            &request,
            received_at_ms,
        ),
        Ok(FreeformDispatchOutcome::LocalTool(route)) => match route.local_tool {
            Some(tool) => execute_local_tool_route(supervisor_loop, tool),
            None => Err("local route decision is missing tool type".to_owned()),
        },
        Ok(FreeformDispatchOutcome::Clarification(route)) => Ok(format_route_clarification(&route)),
    };
    assert(freeform_routed(mid, connected, entries, settings@, command@, received_at_ms, mid2, routed_as)
        && freeform_finished(
        mid2,
        store,
        routed_as,
        received_at_ms,
        supervisor_loop@,
        dispatch_executor@,
        result_model(answer),
    ));
    assert(freeform_continued(
        mid,
        store,
        connected,
        entries,
        settings@,
        command@,
        received_at_ms,
        supervisor_loop@,
        dispatch_executor@,
        result_model(answer),
    ));
    assert(reply_routed(before, command@, received_at_ms, mid, replied));
    answer
}

/// What a line of the chat does: a line that begins with a slash is a
/// command, any other line is free-form; a fault of either is answered with
/// its reason and a pointer to the help.
pub open spec fn chat_executed(
    before: LoopModel,
    store: Seq<(Seq<char>, ResultModel)>,
    connected_ids: Seq<Seq<char>>,
    entries: Seq<WorkspaceEntryModel>,
    settings: SettingsModel,
    command: Seq<char>,
    at_ms: i64,
    after: LoopModel,
    next_store: Seq<(Seq<char>, ResultModel)>,
    text: Seq<char>,
) -> bool {
    if begins_with(command, "/"@) {
        match chat_command_of(command) {
            Err(reason) => text == command_error_text(reason) && after == before && next_store == store,
            Ok(parsed) => slash_executed(before, store, entries, parsed, at_ms, after, next_store, text),
        }
    } else {
        exists|answer: Result<Seq<char>, Seq<char>>|
            #[trigger] freeform_executed(
                before,
                store,
                connected_ids,
                entries,
                settings,
                command,
                at_ms,
                after,
                next_store,
                answer,
            ) && text == (match answer {
                Ok(t) => t,
                Err(reason) => command_error_text(reason),
            })
    }
}

/// What a command of the chat does, and the text that answers it.
pub open spec fn slash_executed(
    before: LoopModel,
    store: Seq<(Seq<char>, ResultModel)>,
    entries: Seq<WorkspaceEntryModel>,
    command: ChatCommandModel,
    at_ms: i64,
    after: LoopModel,
    next_store: Seq<(Seq<char>, ResultModel)>,
    text: Seq<char>,
) -> bool {
    exists|answer: Result<Seq<char>, Seq<char>>|
        #[trigger] command_executed(before, store, entries, command, at_ms, after, next_store, answer) && text == (match answer {
            Ok(t) => t,
            Err(reason) => command_error_text(reason),
        })
}

fn command_error(reason: &str) -> (text: String)
    ensures
        text@ == command_error_text(reason@),
{
    let mut text = "Error: ".to_owned();
    text.append(reason);
    text.append("\nRun `/help` for command usage.");
    text
}

/// Carries out a line of the chat and gives the text that answers it.
pub fn execute_supervisor_chat_command<B: SupervisorDispatchBackend + SupervisorReplyBackend>(
    supervisor_loop: &mut SupervisorLoop,
    dispatch_executor: &mut SupervisorDispatchExecutor,
    backend: &B,
    connected_workspace_ids: &Vec<String>,
    workspace_entries: &Vec<SupervisorWorkspaceEntry>,
    settings: &AppSettings,
    command: &str,
    received_at_ms: i64,
) -> (text: String)
    ensures
        chat_executed(
            old(supervisor_loop)@,
            old(dispatch_executor)@,
            connected_workspace_ids.deep_view(),
            workspace_entries.deep_view(),
            settings@,
            command@,
            received_at_ms,
            final(supervisor_loop)@,
            final(dispatch_executor)@,
            text@,
        ),
        loop_sound(old(supervisor_loop)@) ==> loop_sound(final(supervisor_loop)@),
{
    let ghost before = supervisor_loop@;
    let ghost store = dispatch_executor@;
    if text_starts_with(command, "/") {
        let parsed = match parse_supervisor_chat_command(command) {
            Ok(parsed) => parsed,
            Err(reason) => {
                return command_error(reason.as_str());
            },
        };
        let ghost parsed_as = parsed@;
        let answer = execute_parsed_supervisor_chat_command(
            supervisor_loop,
            dispatch_executor,
            backend,
            workspace_entries,
            parsed,
            received_at_ms,
        );
        let ghost told = result_model(answer);
        let text = match answer {
            Ok(text) => text,
            Err(reason) => command_error(reason.as_str()),
        };
        assert(command_executed(
            before,
            store,
            workspace_entries.deep_view(),
            parsed_as,
            received_at_ms,
            supervisor_loop@,
            dispatch_executor@,
            told,
        ) && text@ == (match told {
            Ok(t) => t,
            Err(reason) => command_error_text(reason),
        }));
        assert(slash_executed(
            before,
            store,
            workspace_entries.deep_view(),
            parsed_as,
            received_at_ms,
            supervisor_loop@,
            dispatch_executor@,
            text@,
        ));
        return text;
    }
    let answer = execute_freeform_supervisor_chat(
        supervisor_loop,
        dispatch_executor,
        backend,
        connected_workspace_ids,
        workspace_entries,
        settings,
        command,
        received_at_ms,
    );
    let ghost told = result_model(answer);
    let text = match answer {
        Ok(text) => text,
        Err(reason) => command_error(reason.as_str()),
    };
    assert(freeform_executed(
        before,
        store,
        connected_workspace_ids.deep_view(),
        workspace_entries.deep_view(),
        settings@,
        command@,
        received_at_ms,
        supervisor_loop@,
        dispatch_executor@,
        told,
    ) && text@ == (match told {
        Ok(t) => t,
        Err(reason) => command_error_text(reason),
    }));
    text
}

/// The loop after the two messages of an exchange were added to the chat:
/// the operator's line, then the answer.
pub open spec fn exchange_recorded(
    lp: LoopModel,
    command: Seq<char>,
    received_at_ms: i64,
    answer: Seq<char>,
    user_token: Seq<char>,
    system_token: Seq<char>,
    answered_at_ms: i64,
) -> LoopModel {
    let user = ChatMessageModel {
        id: "chat-user-"@ + integer_text(received_at_ms as int) + "-"@ + user_token,
        role: SupervisorChatMessageRole::User,
        text: command,
        created_at_ms: received_at_ms,
    };
    let system = ChatMessageModel {
        id: "chat-system-"@ + integer_text(received_at_ms as int) + "-"@ + system_token,
        role: SupervisorChatMessageRole::System,
        text: answer,
        created_at_ms: answered_at_ms,
    };
    LoopModel { state: with_chat(with_chat(lp.state, user), system), ..lp }
}

/// What sending a line to the chat does: the line is carried out, and the
/// line and its answer are added to the chat history.
pub open spec fn chat_sent(
    before: LoopModel,
    store: Seq<(Seq<char>, ResultModel)>,
    connected_ids: Seq<Seq<char>>,
    entries: Seq<WorkspaceEntryModel>,
    settings: SettingsModel,
    command: Seq<char>,
    at_ms: i64,
    after: LoopModel,
    next_store: Seq<(Seq<char>, ResultModel)>,
) -> bool {
    exists|mid: LoopModel, text: Seq<char>, user_token: Seq<char>, system_token: Seq<char>, answered_at_ms: i64|
        #[trigger] chat_executed(before, store, connected_ids, entries, settings, command, at_ms, mid, next_store, text)
            && after == #[trigger] exchange_recorded(mid, command, at_ms, text, user_token, system_token, answered_at_ms)
}

/// Sends a line to the chat: a blank line is refused; any other line is
/// carried out, and the line and its answer join the chat history, which is
/// handed back.
pub fn supervisor_chat_send_core<B: SupervisorDispatchBackend + SupervisorReplyBackend>(
    supervisor_loop: &mut SupervisorLoop,
    dispatch_executor: &mut SupervisorDispatchExecutor,
    backend: &B,
    connected_workspace_ids: &Vec<String>,
    workspace_entries: &Vec<SupervisorWorkspaceEntry>,
    settings: &AppSettings,
    command: &str,
    received_at_ms: i64,
) -> (outcome: Result<SupervisorChatSendResponse, String>)
    ensures
        match outcome {
            Err(reason) => trimmed(command@).len() == 0 && reason@ == "command is required"@ && final(supervisor_loop)@
                == old(supervisor_loop)@ && final(dispatch_executor)@ == old(dispatch_executor)@,
            Ok(response) => trimmed(command@).len() > 0 && response@.messages == final(supervisor_loop)@.state.chat_history
                && chat_sent(
                old(supervisor_loop)@,
                old(dispatch_executor)@,
                connected_workspace_ids.deep_view(),
                workspace_entries.deep_view(),
                settings@,
                trimmed(command@),
                received_at_ms,
                final(supervisor_loop)@,
                final(dispatch_executor)@,
            ),
        },
        loop_sound(old(supervisor_loop)@) ==> loop_sound(final(supervisor_loop)@),
{
    let ghost before = supervisor_loop@;
    let ghost store = dispatch_executor@;
    let command = command.trim();
    if command.unicode_len() == 0 {
        return Err("command is required".to_owned());
    }
    let user_token = fresh_token();
    let mut user_id = "chat-user-".to_owned();
    user_id.append(decimal(received_at_ms as i128).as_str());
    user_id.append("-");
    user_id.append(user_token.as_str());
    let user_message = SupervisorChatMessage {
        id: user_id,
        role: SupervisorChatMessageRole::User,
        text: command.to_owned(),
        created_at_ms: received_at_ms,
    };
    let response_text = execute_supervisor_chat_command(
        supervisor_loop,
        dispatch_executor,
        backend,
        connected_workspace_ids,
        workspace_entries,
        settings,
        command,
        received_at_ms,
    );
    let ghost mid = supervisor_loop@;
    let ghost answer = response_text@;
    let system_token = fresh_token();
    let mut system_id = "chat-system-".to_owned();
    system_id.append(decimal(received_at_ms as i128).as_str());
    system_id.append("-");
    system_id.append(system_token.as_str());
    let answered_at_ms = now_timestamp_ms();
    let system_message = SupervisorChatMessage {
        id: system_id,
        role: SupervisorChatMessageRole::System,
        text: response_text,
        created_at_ms: answered_at_ms,
    };
    supervisor_loop.append_chat_message(user_message);
    supervisor_loop.append_chat_message(system_message);
    assert(chat_executed(
        before,
        store,
        connected_workspace_ids.deep_view(),
        workspace_entries.deep_view(),
        settings@,
        command@,
        received_at_ms,
        mid,
        dispatch_executor@,
        answer,
    ) && supervisor_loop@ == exchange_recorded(
        mid,
        command@,
        received_at_ms,
        answer,
        user_token@,
        system_token@,
        answered_at_ms,
    ));
    Ok(SupervisorChatSendResponse { messages: supervisor_loop.chat_history() })
}

/// Where the snapshot of the state is kept under a data directory: the
/// directory, a slash unless the directory ends with one, and the name of
/// the state file.
pub open spec fn state_path_of(data_dir: Seq<char>) -> Seq<char> {
    if crate::text::finishes_with(data_dir, "/"@) {
        data_dir + SUPERVISOR_STATE_FILE_NAME@
    } else {
        data_dir + "/"@ + SUPERVISOR_STATE_FILE_NAME@
    }
}

/// Where the snapshot of the state is kept under a data directory.
pub fn supervisor_state_path(data_dir: &str) -> (path: String)
    ensures
        path@ == state_path_of(data_dir@),
{
    let mut path = data_dir.to_owned();
    if !crate::text::text_ends_with(data_dir, "/") {
        path.append("/");
    }
    path.append(SUPERVISOR_STATE_FILE_NAME);
    path
}

} // verus!
