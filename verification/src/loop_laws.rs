use vstd::prelude::*;

use crate::event_handlers::{
    approval_applied, error_applied, event_applied, item_applied, turn_completed_applied,
    turn_started_applied, user_input_applied,
};
use crate::events::EventModel;
use crate::json::JsonModel;
use crate::loop_ops::{
    computed_health, health_signal, health_step, recorded_health, reply_delivered, reply_delivery_failed,
    reply_refusal, HealthInputModel,
};
use crate::model::{
    JobModel, QuestionModel, SupervisorHealth, SupervisorJobStatus, SupervisorSignal, WorkspaceModel,
};
use crate::reducer_laws::lemma_ident_index;
use crate::model::{
    ActivityModel, SignalModel, StateModel, SubtaskEventModel, SUPERVISOR_SUBTASK_EVENT_LIMIT,
    DEFAULT_ACTIVITY_FEED_LIMIT,
};
use crate::reducer::{effective_limit, reduced, UpdateModel};
use crate::reducer_laws::{
    lemma_reduced_keeps_bounds, lemma_reduced_keeps_well_formed, lemma_table_changed, state_bounded, well_formed,
    workspaces_keyed,
};
use crate::supervisor_loop::{
    appended_events, job_matcher, job_ranks, matching_job, with_activity, with_job_progress, with_signal,
    with_thread_activity, LoopModel,
};
use crate::table::{distinct_keys, lemma_get_after_put, lemma_key_index, table_get, table_put};

verus! {

/// After a health check of a workspace the state records the health that
/// the check computed.
pub proof fn lemma_health_step_records(lp: LoopModel, input: HealthInputModel, now_ms: i64)
    requires
        workspaces_keyed(lp.state.workspaces),
    ensures
        recorded_health(health_step(lp, input, now_ms).state, input.workspace_id) == computed_health(
            lp,
            input.workspace_id,
            input.connected,
            now_ms,
        ),
        health_step(lp, input, now_ms).last_event == lp.last_event,
        health_step(lp, input, now_ms).config == lp.config,
{
    lemma_key_index(lp.state.workspaces, input.workspace_id);
    let stored = crate::loop_ops::checked_workspace(lp, input, now_ms);
    assert(stored.id == input.workspace_id);
    lemma_get_after_put(lp.state.workspaces, input.workspace_id, stored);
}

/// A health check raises a signal only on a change: a second check of the
/// same workspace that computes the same health as the first leaves the
/// signals as the first left them.
pub proof fn lemma_health_signal_once(lp: LoopModel, input: HealthInputModel, first_ms: i64, second_ms: i64)
    requires
        workspaces_keyed(lp.state.workspaces),
        computed_health(lp, input.workspace_id, input.connected, first_ms) == computed_health(
            lp,
            input.workspace_id,
            input.connected,
            second_ms,
        ),
    ensures
        health_step(health_step(lp, input, first_ms), input, second_ms).state.signals == health_step(
            lp,
            input,
            first_ms,
        ).state.signals,
{
    lemma_health_step_records(lp, input, first_ms);
}

/// A health check that finds a workspace newly stale or disconnected puts
/// the signal of that change in front of the signals.
pub proof fn lemma_health_change_signals(lp: LoopModel, input: HealthInputModel, now_ms: i64)
    requires
        recorded_health(lp.state, input.workspace_id) != computed_health(
            lp,
            input.workspace_id,
            input.connected,
            now_ms,
        ),
        computed_health(lp, input.workspace_id, input.connected, now_ms) != SupervisorHealth::Healthy,
    ensures
        health_step(lp, input, now_ms).state.signals.len() > 0,
        Some(health_step(lp, input, now_ms).state.signals[0]) == health_signal(
            input.workspace_id,
            computed_health(lp, input.workspace_id, input.connected, now_ms),
            now_ms,
        ),
{
    let next = computed_health(lp, input.workspace_id, input.connected, now_ms);
    let signal = health_signal(input.workspace_id, next, now_ms)->0;
    lemma_ident_index::<SupervisorSignal>(lp.state.signals, signal.id);
}

/// A health check that computes the health that the state records raises no signal.
pub proof fn lemma_health_unchanged_is_silent(lp: LoopModel, input: HealthInputModel, now_ms: i64)
    requires
        recorded_health(lp.state, input.workspace_id) == computed_health(
            lp,
            input.workspace_id,
            input.connected,
            now_ms,
        ),
    ensures
        health_step(lp, input, now_ms).state.signals == lp.state.signals,
{
}

/// A job waits for the operator exactly when it holds the request that it waits on.
pub open spec fn job_consistent(job: JobModel) -> bool {
    (job.status == SupervisorJobStatus::WaitingForUser) == (job.waiting_request_id is Some)
}

/// Every stored job is consistent.
pub open spec fn jobs_consistent(jobs: Seq<(Seq<char>, JobModel)>) -> bool {
    forall|i: int| 0 <= i < jobs.len() ==> job_consistent((#[trigger] jobs[i]).1)
}

/// Storing a consistent job among consistent jobs leaves all of them consistent.
pub proof fn lemma_put_keeps_consistent(jobs: Seq<(Seq<char>, JobModel)>, job: JobModel)
    requires
        jobs_consistent(jobs),
        job_consistent(job),
    ensures
        jobs_consistent(table_put(jobs, job.id, job)),
{
    lemma_key_index(jobs, job.id);
}

/// What the stored job under a key is, it is one of the stored jobs.
pub proof fn lemma_get_is_stored(jobs: Seq<(Seq<char>, JobModel)>, key: Seq<char>)
    requires
        jobs_consistent(jobs),
    ensures
        table_get(jobs, key) is Some ==> job_consistent(table_get(jobs, key)->0),
{
    lemma_key_index(jobs, key);
}

/// Every event leaves every job consistent: it waits for the operator
/// exactly when it holds a request.
pub proof fn lemma_event_keeps_jobs_consistent(lp: LoopModel, event: EventModel)
    requires
        jobs_consistent(lp.state.jobs),
    ensures
        jobs_consistent(event_applied(lp, event).state.jobs),
{
    match event {
        EventModel::TurnStarted { workspace_id, thread_id, .. } => {
            lemma_turn_started_consistent(lp, event);
        },
        EventModel::TurnCompleted { workspace_id, thread_id, .. } => {
            lemma_turn_completed_consistent(lp, event);
        },
        EventModel::ItemStarted { workspace_id, thread_id, .. } => {
            lemma_item_consistent(lp, event);
        },
        EventModel::ItemCompleted { workspace_id, thread_id, .. } => {
            lemma_item_consistent(lp, event);
        },
        EventModel::ApprovalRequested { workspace_id, thread_id, .. } => {
            lemma_approval_consistent(lp, event);
        },
        EventModel::UserInputRequested { workspace_id, thread_id, .. } => {
            lemma_user_input_consistent(lp, event);
        },
        EventModel::Error { workspace_id, thread_id, .. } => {
            lemma_error_consistent(lp, event);
        },
    }
}

proof fn lemma_turn_started_consistent(lp: LoopModel, event: EventModel)
    requires
        jobs_consistent(lp.state.jobs),
        event is TurnStarted,
    ensures
        jobs_consistent(event_applied(lp, event).state.jobs),
{
    let workspace_id = event->TurnStarted_workspace_id;
    let thread_id = event->TurnStarted_thread_id;
    match matching_job(lp.state.jobs, workspace_id, Some(thread_id)) {
        Some(job) => {
            lemma_progress_keeps_consistent(
                lp.state.jobs,
                JobModel {
                    status: SupervisorJobStatus::Running,
                    thread_id: Some(thread_id),
                    error: None,
                    waiting_request_id: None,
                    waiting_question_ids: Seq::empty(),
                    ..job
                },
            );
        },
        None => {},
    }
}

proof fn lemma_turn_completed_consistent(lp: LoopModel, event: EventModel)
    requires
        jobs_consistent(lp.state.jobs),
        event is TurnCompleted,
    ensures
        jobs_consistent(event_applied(lp, event).state.jobs),
{
    let workspace_id = event->TurnCompleted_workspace_id;
    let thread_id = event->TurnCompleted_thread_id;
    match matching_job(lp.state.jobs, workspace_id, Some(thread_id)) {
        Some(job) => {
            lemma_progress_keeps_consistent(
                lp.state.jobs,
                JobModel {
                    status: SupervisorJobStatus::Completed,
                    completed_at_ms: Some(event->TurnCompleted_received_at_ms),
                    waiting_request_id: None,
                    waiting_question_ids: Seq::empty(),
                    ..job
                },
            );
        },
        None => {},
    }
}

proof fn lemma_item_consistent(lp: LoopModel, event: EventModel)
    requires
        jobs_consistent(lp.state.jobs),
        event is ItemStarted || event is ItemCompleted,
    ensures
        jobs_consistent(event_applied(lp, event).state.jobs),
{
    match event {
        EventModel::ItemStarted {
            workspace_id,
            thread_id,
            item_id,
            item_type,
            task,
            item_content,
            received_at_ms,
        } => {
            lemma_item_step_consistent(
                lp,
                true,
                workspace_id,
                thread_id,
                item_id,
                item_type,
                task,
                item_content,
                received_at_ms,
            );
        },
        EventModel::ItemCompleted {
            workspace_id,
            thread_id,
            item_id,
            item_type,
            task,
            item_content,
            received_at_ms,
        } => {
            lemma_item_step_consistent(
                lp,
                false,
                workspace_id,
                thread_id,
                item_id,
                item_type,
                task,
                item_content,
                received_at_ms,
            );
        },
        _ => {},
    }
}

proof fn lemma_item_step_consistent(
    lp: LoopModel,
    started: bool,
    workspace_id: Seq<char>,
    thread_id: Seq<char>,
    item_id: Seq<char>,
    item_type: Option<Seq<char>>,
    task: Option<Seq<char>>,
    item_content: Option<Seq<char>>,
    at_ms: i64,
)
    requires
        jobs_consistent(lp.state.jobs),
    ensures
        jobs_consistent(
            item_applied(lp, started, workspace_id, thread_id, item_id, item_type, task, item_content, at_ms).state.jobs,
        ),
{
    match matching_job(lp.state.jobs, workspace_id, Some(thread_id)) {
        Some(job) => {
            lemma_progress_keeps_consistent(
                lp.state.jobs,
                JobModel {
                    status: SupervisorJobStatus::Running,
                    waiting_request_id: None,
                    waiting_question_ids: Seq::empty(),
                    ..job
                },
            );
        },
        None => {},
    }
}

proof fn lemma_approval_consistent(lp: LoopModel, event: EventModel)
    requires
        jobs_consistent(lp.state.jobs),
        event is ApprovalRequested,
    ensures
        jobs_consistent(event_applied(lp, event).state.jobs),
{
    let workspace_id = event->ApprovalRequested_workspace_id;
    let thread_id = event->ApprovalRequested_thread_id;
    match matching_job(lp.state.jobs, workspace_id, thread_id) {
        Some(job) => {
            lemma_progress_keeps_consistent(
                lp.state.jobs,
                JobModel {
                    status: SupervisorJobStatus::WaitingForUser,
                    waiting_request_id: Some(JsonModel::Text(event->ApprovalRequested_request_id)),
                    waiting_question_ids: Seq::empty(),
                    ..job
                },
            );
        },
        None => {},
    }
}

proof fn lemma_user_input_consistent(lp: LoopModel, event: EventModel)
    requires
        jobs_consistent(lp.state.jobs),
        event is UserInputRequested,
    ensures
        jobs_consistent(event_applied(lp, event).state.jobs),
{
    let workspace_id = event->UserInputRequested_workspace_id;
    let thread_id = event->UserInputRequested_thread_id;
    match matching_job(lp.state.jobs, workspace_id, thread_id) {
        Some(job) => {
            lemma_progress_keeps_consistent(
                lp.state.jobs,
                JobModel {
                    status: SupervisorJobStatus::WaitingForUser,
                    waiting_request_id: Some(event->UserInputRequested_request_id_value),
                    waiting_question_ids: event->UserInputRequested_question_ids,
                    ..job
                },
            );
        },
        None => {},
    }
}

proof fn lemma_error_consistent(lp: LoopModel, event: EventModel)
    requires
        jobs_consistent(lp.state.jobs),
        event is Error,
    ensures
        jobs_consistent(event_applied(lp, event).state.jobs),
{
    let workspace_id = event->Error_workspace_id;
    let thread_id = event->Error_thread_id;
    let will_retry = event->Error_will_retry;
    match matching_job(lp.state.jobs, workspace_id, thread_id) {
        Some(job) => {
            lemma_progress_keeps_consistent(
                lp.state.jobs,
                JobModel {
                    status: if will_retry {
                        SupervisorJobStatus::Running
                    } else {
                        SupervisorJobStatus::Failed
                    },
                    error: if will_retry {
                        job.error
                    } else {
                        Some(event->Error_message)
                    },
                    waiting_request_id: None,
                    waiting_question_ids: Seq::empty(),
                    ..job
                },
            );
        },
        None => {},
    }
}

/// Storing a consistent job with whatever recent events leaves the jobs consistent.
pub proof fn lemma_progress_keeps_consistent(jobs: Seq<(Seq<char>, JobModel)>, job: JobModel)
    requires
        jobs_consistent(jobs),
        job_consistent(job),
    ensures
        forall|events: Seq<crate::model::SubtaskEventModel>|
            jobs_consistent(#[trigger] table_put(jobs, job.id, JobModel { recent_events: events, ..job })),
{
    assert forall|events: Seq<crate::model::SubtaskEventModel>|
        jobs_consistent(#[trigger] table_put(jobs, job.id, JobModel { recent_events: events, ..job })) by {
        lemma_put_keeps_consistent(jobs, JobModel { recent_events: events, ..job });
    }
}

/// A reply that was delivered leaves every job consistent: the job that
/// was answered runs and holds no request.
pub proof fn lemma_reply_keeps_jobs_consistent(
    lp: LoopModel,
    job_id: Seq<char>,
    request_id: JsonModel,
    reply_preview: Seq<char>,
    at_ms: i64,
)
    requires
        jobs_consistent(lp.state.jobs),
        reply_refusal(lp.state, job_id, request_id) is None,
    ensures
        jobs_consistent(reply_delivered(lp, job_id, request_id, reply_preview, at_ms).state.jobs),
{
    let existing = table_get(lp.state.jobs, job_id)->0;
    let running = JobModel {
        status: SupervisorJobStatus::Running,
        waiting_request_id: None,
        waiting_question_ids: Seq::empty(),
        ..existing
    };
    lemma_progress_keeps_consistent(lp.state.jobs, running);
}

/// A reply that could not be delivered leaves every job consistent.
pub proof fn lemma_failed_reply_keeps_jobs_consistent(
    lp: LoopModel,
    job_id: Seq<char>,
    request_id: JsonModel,
    error: Seq<char>,
    at_ms: i64,
)
    requires
        jobs_consistent(lp.state.jobs),
    ensures
        jobs_consistent(reply_delivery_failed(lp, job_id, request_id, error, at_ms).state.jobs),
{
    lemma_get_is_stored(lp.state.jobs, job_id);
    match table_get(lp.state.jobs, job_id) {
        Some(existing) => {
            lemma_progress_keeps_consistent(lp.state.jobs, existing);
        },
        None => {},
    }
}

/// The job that an event is about is one of the stored jobs.
pub proof fn lemma_matching_is_entry(
    jobs: Seq<(Seq<char>, JobModel)>,
    workspace_id: Seq<char>,
    thread_id: Option<Seq<char>>,
)
    requires
        jobs.len() <= usize::MAX,
    ensures
        matching_job(jobs, workspace_id, thread_id) is Some ==> exists|i: int|
            0 <= i < jobs.len() && (#[trigger] jobs[i]).1 == matching_job(jobs, workspace_id, thread_id)->0,
{
    broadcast use vstd::seq::Seq::lemma_filter_contains_rev;

    let matcher = job_matcher(workspace_id, thread_id);
    let candidates = jobs.filter(matcher);
    if candidates.len() > 0 {
        jobs.lemma_filter_len(matcher);
        crate::order::lemma_ranking(job_ranks(candidates));
        let order = crate::order::ranking(job_ranks(candidates));
        let best = order[0] as int;
        assert(candidates.contains(candidates[best]));
        assert(jobs.contains(candidates[best]));
        let i = choose|i: int| 0 <= i < jobs.len() && jobs[i] == candidates[best];
        assert(jobs[i].1 == matching_job(jobs, workspace_id, thread_id)->0);
    }
}

/// The limit that the feed of a loop keeps.
pub open spec fn feed_limit_of(lp: LoopModel) -> usize {
    effective_limit(lp.config.activity_feed_limit, DEFAULT_ACTIVITY_FEED_LIMIT)
}

/// The bounds that a loop keeps: no signal id occurs twice, the feed is
/// within its limit, and no job holds more recent events than the limit.
pub open spec fn loop_bounded(lp: LoopModel) -> bool {
    state_bounded(lp.state, feed_limit_of(lp)) && lp.state.jobs.len() <= usize::MAX
}

/// Appending an event to recent events within the limit leaves them within the limit.
pub proof fn lemma_appended_bounded(events: Seq<SubtaskEventModel>, event: SubtaskEventModel)
    requires
        events.len() <= SUPERVISOR_SUBTASK_EVENT_LIMIT,
    ensures
        appended_events(events, event).len() <= SUPERVISOR_SUBTASK_EVENT_LIMIT,
{
}

/// A push to the feed under the configured limit keeps the bounds.
pub proof fn lemma_activity_keeps_bounds(state: StateModel, limit: usize, entry: ActivityModel)
    requires
        state_bounded(state, effective_limit(limit, DEFAULT_ACTIVITY_FEED_LIMIT)),
    ensures
        state_bounded(with_activity(state, limit, entry), effective_limit(limit, DEFAULT_ACTIVITY_FEED_LIMIT)),
        with_activity(state, limit, entry).jobs == state.jobs,
{
    lemma_reduced_keeps_bounds(
        state,
        UpdateModel::PushActivity { entry, max_items: limit },
        effective_limit(limit, DEFAULT_ACTIVITY_FEED_LIMIT),
    );
}

/// Raising a signal keeps the bounds.
pub proof fn lemma_signal_keeps_bounds(state: StateModel, feed_limit: usize, signal: SignalModel)
    requires
        state_bounded(state, feed_limit),
    ensures
        state_bounded(with_signal(state, signal), feed_limit),
        with_signal(state, signal).jobs == state.jobs,
{
    lemma_reduced_keeps_bounds(state, UpdateModel::PushSignal(signal), feed_limit);
}

/// A step of a job whose recent events are within the limit keeps the bounds.
pub proof fn lemma_job_progress_keeps_bounds(
    state: StateModel,
    feed_limit: usize,
    job: JobModel,
    event: SubtaskEventModel,
    chat_text: Seq<char>,
    kind: Seq<char>,
    at_ms: i64,
)
    requires
        state_bounded(state, feed_limit),
        job.recent_events.len() <= SUPERVISOR_SUBTASK_EVENT_LIMIT,
        state.jobs.len() < usize::MAX,
    ensures
        state_bounded(with_job_progress(state, job, event, chat_text, kind, at_ms), feed_limit),
        with_job_progress(state, job, event, chat_text, kind, at_ms).jobs.len() <= usize::MAX,
{
    let stored = JobModel { recent_events: appended_events(job.recent_events, event), ..job };
    lemma_appended_bounded(job.recent_events, event);
    lemma_reduced_keeps_bounds(state, UpdateModel::UpsertJob(stored), feed_limit);
    let next = reduced(state, UpdateModel::UpsertJob(stored));
    lemma_key_index(state.jobs, stored.id);
    let message = crate::supervisor_loop::bridge_message(stored, chat_text, kind, at_ms);
    lemma_reduced_keeps_bounds(
        next,
        UpdateModel::PushChatMessage { message, max_items: crate::model::DEFAULT_CHAT_HISTORY_LIMIT },
        feed_limit,
    );
}

/// Activity on a thread keeps the bounds and leaves the jobs.
pub proof fn lemma_thread_activity_keeps_bounds(
    lp: LoopModel,
    workspace_id: Seq<char>,
    thread_id: Seq<char>,
    active_turn_id: Option<Seq<char>>,
    status: crate::model::SupervisorThreadStatus,
    task: Option<Seq<char>>,
    at_ms: i64,
)
    requires
        loop_bounded(lp),
    ensures
        loop_bounded(with_thread_activity(lp, workspace_id, thread_id, active_turn_id, status, task, at_ms)),
        with_thread_activity(lp, workspace_id, thread_id, active_turn_id, status, task, at_ms).state.jobs
            == lp.state.jobs,
        with_thread_activity(lp, workspace_id, thread_id, active_turn_id, status, task, at_ms).config == lp.config,
{
}

/// Every event keeps the bounds of the loop: each signal id at most once,
/// the feed within its limit, and the recent events of each job within
/// theirs.
pub proof fn lemma_event_keeps_bounds(lp: LoopModel, event: EventModel)
    requires
        loop_bounded(lp),
        lp.state.jobs.len() < usize::MAX,
    ensures
        loop_bounded(event_applied(lp, event)),
{
    match event {
        EventModel::TurnStarted { workspace_id, thread_id, turn_id, task, received_at_ms } => {
            lemma_turn_started_keeps_bounds(lp, workspace_id, thread_id, turn_id, task, received_at_ms);
        },
        EventModel::TurnCompleted { workspace_id, thread_id, turn_id, task, received_at_ms } => {
            lemma_turn_completed_keeps_bounds(lp, workspace_id, thread_id, turn_id, task, received_at_ms);
        },
        EventModel::ItemStarted { workspace_id, thread_id, item_id, item_type, task, item_content, received_at_ms } => {
            lemma_item_keeps_bounds(
                lp,
                true,
                workspace_id,
                thread_id,
                item_id,
                item_type,
                task,
                item_content,
                received_at_ms,
            );
        },
        EventModel::ItemCompleted { workspace_id, thread_id, item_id, item_type, task, item_content, received_at_ms } => {
            lemma_item_keeps_bounds(
                lp,
                false,
                workspace_id,
                thread_id,
                item_id,
                item_type,
                task,
                item_content,
                received_at_ms,
            );
        },
        EventModel::ApprovalRequested {
            workspace_id,
            request_key,
            request_id,
            method,
            thread_id,
            turn_id,
            item_id,
            params,
            received_at_ms,
        } => {
            lemma_approval_keeps_bounds(
                lp,
                workspace_id,
                request_key,
                request_id,
                method,
                thread_id,
                turn_id,
                item_id,
                params,
                received_at_ms,
            );
        },
        EventModel::UserInputRequested {
            workspace_id,
            request_key,
            request_id,
            request_id_value,
            thread_id,
            turn_id,
            item_id,
            question,
            question_ids,
            params,
            received_at_ms,
        } => {
            lemma_user_input_keeps_bounds(
                lp,
                workspace_id,
                request_key,
                request_id,
                request_id_value,
                thread_id,
                turn_id,
                item_id,
                question,
                question_ids,
                params,
                received_at_ms,
            );
        },
        EventModel::Error { workspace_id, thread_id, turn_id, message, will_retry, received_at_ms } => {
            lemma_error_keeps_bounds(lp, workspace_id, thread_id, turn_id, message, will_retry, received_at_ms);
        },
    }
}

/// The recent events of the job that an event is about are within the limit.
proof fn lemma_matching_is_bounded(jobs: Seq<(Seq<char>, JobModel)>, workspace_id: Seq<char>, thread_id: Option<Seq<char>>)
    requires
        crate::reducer_laws::jobs_bounded(jobs),
        jobs.len() <= usize::MAX,
    ensures
        matching_job(jobs, workspace_id, thread_id) is Some ==> matching_job(
            jobs,
            workspace_id,
            thread_id,
        )->0.recent_events.len() <= SUPERVISOR_SUBTASK_EVENT_LIMIT,
{
    lemma_matching_is_entry(jobs, workspace_id, thread_id);
}

proof fn lemma_turn_started_keeps_bounds(
    lp: LoopModel,
    workspace_id: Seq<char>,
    thread_id: Seq<char>,
    turn_id: Seq<char>,
    task: Option<Seq<char>>,
    at_ms: i64,
)
    requires
        loop_bounded(lp),
        lp.state.jobs.len() < usize::MAX,
    ensures
        loop_bounded(turn_started_applied(lp, workspace_id, thread_id, turn_id, task, at_ms)),
{
    let lp1 = with_thread_activity(
        lp,
        workspace_id,
        thread_id,
        Some(turn_id),
        crate::model::SupervisorThreadStatus::Running,
        task,
        at_ms,
    );
    lemma_thread_activity_keeps_bounds(
        lp,
        workspace_id,
        thread_id,
        Some(turn_id),
        crate::model::SupervisorThreadStatus::Running,
        task,
        at_ms,
    );
    let meta = crate::event_handlers::turn_meta(turn_id, task);
    let entry = ActivityModel {
        id: crate::event_handlers::timed_id("turn_started:"@, workspace_id, thread_id, turn_id, at_ms),
        kind: "turn_started"@,
        message: "Turn started"@,
        created_at_ms: at_ms,
        workspace_id: Some(workspace_id),
        thread_id: Some(thread_id),
        needs_input: false,
        metadata: meta,
    };
    lemma_activity_keeps_bounds(lp1.state, lp1.config.activity_feed_limit, entry);
    let s2 = with_activity(lp1.state, lp1.config.activity_feed_limit, entry);
    lemma_matching_is_bounded(s2.jobs, workspace_id, Some(thread_id));
    match matching_job(s2.jobs, workspace_id, Some(thread_id)) {
        Some(job) => {
            lemma_job_progress_keeps_bounds(
                s2,
                feed_limit_of(lp),
                JobModel {
                    status: SupervisorJobStatus::Running,
                    thread_id: Some(thread_id),
                    error: None,
                    waiting_request_id: None,
                    waiting_question_ids: Seq::empty(),
                    ..job
                },
                SubtaskEventModel {
                    id: crate::event_handlers::triple_id("turn_started:"@, workspace_id, thread_id, turn_id),
                    kind: "running"@,
                    message: "Turn `"@ + turn_id + "` started."@,
                    created_at_ms: at_ms,
                    metadata: meta,
                },
                "Progress update: turn `"@ + turn_id + "` started."@,
                "turn_started"@,
                at_ms,
            );
        },
        None => {},
    }
}

proof fn lemma_turn_completed_keeps_bounds(
    lp: LoopModel,
    workspace_id: Seq<char>,
    thread_id: Seq<char>,
    turn_id: Seq<char>,
    task: Option<Seq<char>>,
    at_ms: i64,
)
    requires
        loop_bounded(lp),
        lp.state.jobs.len() < usize::MAX,
    ensures
        loop_bounded(turn_completed_applied(lp, workspace_id, thread_id, turn_id, task, at_ms)),
{
    let lp1 = with_thread_activity(
        lp,
        workspace_id,
        thread_id,
        None,
        crate::model::SupervisorThreadStatus::Completed,
        task,
        at_ms,
    );
    lemma_thread_activity_keeps_bounds(
        lp,
        workspace_id,
        thread_id,
        None,
        crate::model::SupervisorThreadStatus::Completed,
        task,
        at_ms,
    );
    let meta = crate::event_handlers::turn_meta(turn_id, task);
    let signal = SignalModel {
        id: "turn:"@ + workspace_id + ":"@ + thread_id + ":"@ + turn_id + ":completed"@,
        kind: crate::model::SupervisorSignalKind::Completed,
        workspace_id: Some(workspace_id),
        thread_id: Some(thread_id),
        job_id: None,
        message: "Turn completed"@,
        created_at_ms: at_ms,
        acknowledged_at_ms: None,
        context: meta,
    };
    lemma_signal_keeps_bounds(lp1.state, feed_limit_of(lp), signal);
    let s2 = with_signal(lp1.state, signal);
    let entry = ActivityModel {
        id: crate::event_handlers::timed_id("turn_completed:"@, workspace_id, thread_id, turn_id, at_ms),
        kind: "turn_completed"@,
        message: "Turn completed"@,
        created_at_ms: at_ms,
        workspace_id: Some(workspace_id),
        thread_id: Some(thread_id),
        needs_input: false,
        metadata: meta,
    };
    lemma_activity_keeps_bounds(s2, lp1.config.activity_feed_limit, entry);
    let s3 = with_activity(s2, lp1.config.activity_feed_limit, entry);
    lemma_matching_is_bounded(s3.jobs, workspace_id, Some(thread_id));
    match matching_job(s3.jobs, workspace_id, Some(thread_id)) {
        Some(job) => {
            lemma_job_progress_keeps_bounds(
                s3,
                feed_limit_of(lp),
                JobModel {
                    status: SupervisorJobStatus::Completed,
                    completed_at_ms: Some(at_ms),
                    waiting_request_id: None,
                    waiting_question_ids: Seq::empty(),
                    ..job
                },
                SubtaskEventModel {
                    id: crate::event_handlers::triple_id("turn_completed:"@, workspace_id, thread_id, turn_id),
                    kind: "completed"@,
                    message: "Turn completed"@,
                    created_at_ms: at_ms,
                    metadata: meta,
                },
                "Subtask completed. Next action: review result and send follow-up instructions if needed."@,
                "turn_completed"@,
                at_ms,
            );
        },
        None => {},
    }
}

proof fn lemma_item_keeps_bounds(
    lp: LoopModel,
    started: bool,
    workspace_id: Seq<char>,
    thread_id: Seq<char>,
    item_id: Seq<char>,
    item_type: Option<Seq<char>>,
    task: Option<Seq<char>>,
    item_content: Option<Seq<char>>,
    at_ms: i64,
)
    requires
        loop_bounded(lp),
        lp.state.jobs.len() < usize::MAX,
    ensures
        loop_bounded(
            item_applied(lp, started, workspace_id, thread_id, item_id, item_type, task, item_content, at_ms),
        ),
{
    lemma_thread_activity_keeps_bounds(
        lp,
        workspace_id,
        thread_id,
        None,
        crate::model::SupervisorThreadStatus::Running,
        task,
        at_ms,
    );
    let lp1 = with_thread_activity(
        lp,
        workspace_id,
        thread_id,
        None,
        crate::model::SupervisorThreadStatus::Running,
        task,
        at_ms,
    );
    let meta = crate::event_handlers::item_meta(item_id, item_type, task, item_content);
    let prefix = if started {
        "item_started:"@
    } else {
        "item_completed:"@
    };
    let kind = if started {
        "item_started"@
    } else {
        "item_completed"@
    };
    let entry = ActivityModel {
        id: crate::event_handlers::timed_id(prefix, workspace_id, thread_id, item_id, at_ms),
        kind,
        message: if started {
            "Item started"@
        } else {
            "Item completed"@
        },
        created_at_ms: at_ms,
        workspace_id: Some(workspace_id),
        thread_id: Some(thread_id),
        needs_input: false,
        metadata: meta,
    };
    lemma_activity_keeps_bounds(lp1.state, lp1.config.activity_feed_limit, entry);
    let s2 = with_activity(lp1.state, lp1.config.activity_feed_limit, entry);
    lemma_matching_is_bounded(s2.jobs, workspace_id, Some(thread_id));
    match matching_job(s2.jobs, workspace_id, Some(thread_id)) {
        Some(job) => {
            let changed = JobModel {
                status: SupervisorJobStatus::Running,
                waiting_request_id: None,
                waiting_question_ids: Seq::empty(),
                ..job
            };
            let event = SubtaskEventModel {
                id: crate::event_handlers::triple_id(prefix, workspace_id, thread_id, item_id),
                kind: "running"@,
                message: "Item `"@ + crate::event_handlers::item_type_label(item_type) + (if started {
                    "` started."@
                } else {
                    "` completed."@
                }),
                created_at_ms: at_ms,
                metadata: meta,
            };
            let chat = if started {
                "Progress update: item `"@ + crate::event_handlers::item_type_label(item_type) + "` started."@
            } else {
                crate::event_handlers::item_completed_chat(item_type, item_content)
            };
            lemma_job_progress_keeps_bounds(s2, feed_limit_of(lp), changed, event, chat, kind, at_ms);
        },
        None => {},
    }
}

proof fn lemma_approval_keeps_bounds(
    lp: LoopModel,
    workspace_id: Seq<char>,
    request_key: Seq<char>,
    request_id: Seq<char>,
    method: Seq<char>,
    thread_id: Option<Seq<char>>,
    turn_id: Option<Seq<char>>,
    item_id: Option<Seq<char>>,
    params: JsonModel,
    at_ms: i64,
)
    requires
        loop_bounded(lp),
        lp.state.jobs.len() < usize::MAX,
    ensures
        loop_bounded(
            approval_applied(
                lp,
                workspace_id,
                request_key,
                request_id,
                method,
                thread_id,
                turn_id,
                item_id,
                params,
                at_ms,
            ),
        ),
{
    let approval = crate::model::ApprovalModel {
        request_key,
        workspace_id,
        thread_id,
        turn_id,
        item_id,
        request_id,
        method,
        params,
        created_at_ms: at_ms,
        resolved_at_ms: None,
    };
    lemma_reduced_keeps_bounds(lp.state, UpdateModel::UpsertPendingApproval(approval), feed_limit_of(lp));
    let s1 = reduced(lp.state, UpdateModel::UpsertPendingApproval(approval));
    let signal = SignalModel {
        id: "approval:"@ + request_key,
        kind: crate::model::SupervisorSignalKind::NeedsApproval,
        workspace_id: Some(workspace_id),
        thread_id,
        job_id: None,
        message: "Action requires approval"@,
        created_at_ms: at_ms,
        acknowledged_at_ms: None,
        context: crate::event_handlers::request_key_meta(request_key),
    };
    lemma_signal_keeps_bounds(s1, feed_limit_of(lp), signal);
    let s2 = with_signal(s1, signal);
    let entry = ActivityModel {
        id: "approval:"@ + request_key + ":"@ + crate::text::integer_text(at_ms as int),
        kind: "needs_approval"@,
        message: "Approval requested"@,
        created_at_ms: at_ms,
        workspace_id: Some(workspace_id),
        thread_id,
        needs_input: true,
        metadata: params,
    };
    lemma_activity_keeps_bounds(s2, lp.config.activity_feed_limit, entry);
    let s3 = with_activity(s2, lp.config.activity_feed_limit, entry);
    lemma_matching_is_bounded(s3.jobs, workspace_id, thread_id);
    match matching_job(s3.jobs, workspace_id, thread_id) {
        Some(job) => {
            lemma_job_progress_keeps_bounds(
                s3,
                feed_limit_of(lp),
                JobModel {
                    status: SupervisorJobStatus::WaitingForUser,
                    waiting_request_id: Some(JsonModel::Text(request_id)),
                    waiting_question_ids: Seq::empty(),
                    ..job
                },
                SubtaskEventModel {
                    id: "approval_requested:"@ + job.id + ":"@ + request_key,
                    kind: "waiting_for_user"@,
                    message: "Approval requested"@,
                    created_at_ms: at_ms,
                    metadata: crate::event_handlers::request_key_meta(request_key),
                },
                "Child task requires approval before it can continue."@,
                "needs_approval"@,
                at_ms,
            );
        },
        None => {},
    }
}

proof fn lemma_user_input_keeps_bounds(
    lp: LoopModel,
    workspace_id: Seq<char>,
    request_key: Seq<char>,
    request_id: Seq<char>,
    request_id_value: JsonModel,
    thread_id: Option<Seq<char>>,
    turn_id: Option<Seq<char>>,
    item_id: Option<Seq<char>>,
    question: Seq<char>,
    question_ids: Seq<Seq<char>>,
    params: JsonModel,
    at_ms: i64,
)
    requires
        loop_bounded(lp),
        lp.state.jobs.len() < usize::MAX,
    ensures
        loop_bounded(
            user_input_applied(
                lp,
                workspace_id,
                request_key,
                request_id,
                request_id_value,
                thread_id,
                turn_id,
                item_id,
                question,
                question_ids,
                params,
                at_ms,
            ),
        ),
{
    let asked = crate::model::QuestionModel {
        id: request_key,
        workspace_id,
        thread_id: match thread_id {
            Some(t) => t,
            None => "-"@,
        },
        question,
        created_at_ms: at_ms,
        resolved_at_ms: None,
        context: crate::event_handlers::question_context(request_id_value, turn_id, item_id, question_ids, params),
    };
    lemma_reduced_keeps_bounds(lp.state, UpdateModel::UpsertOpenQuestion(asked), feed_limit_of(lp));
    let s1 = reduced(lp.state, UpdateModel::UpsertOpenQuestion(asked));
    let entry = ActivityModel {
        id: "waiting_for_user:"@ + request_key + ":"@ + crate::text::integer_text(at_ms as int),
        kind: "waiting_for_user"@,
        message: "Child task is waiting for user input"@,
        created_at_ms: at_ms,
        workspace_id: Some(workspace_id),
        thread_id,
        needs_input: true,
        metadata: crate::event_handlers::waiting_activity_meta(
            request_key,
            request_id,
            turn_id,
            item_id,
            question,
            question_ids,
            params,
        ),
    };
    lemma_activity_keeps_bounds(s1, lp.config.activity_feed_limit, entry);
    let s2 = with_activity(s1, lp.config.activity_feed_limit, entry);
    lemma_matching_is_bounded(s2.jobs, workspace_id, thread_id);
    match matching_job(s2.jobs, workspace_id, thread_id) {
        Some(job) => {
            lemma_job_progress_keeps_bounds(
                s2,
                feed_limit_of(lp),
                JobModel {
                    status: SupervisorJobStatus::WaitingForUser,
                    waiting_request_id: Some(request_id_value),
                    waiting_question_ids: question_ids,
                    ..job
                },
                SubtaskEventModel {
                    id: "waiting_for_user:"@ + job.id + ":"@ + request_key,
                    kind: "waiting_for_user"@,
                    message: "Child question: "@ + question,
                    created_at_ms: at_ms,
                    metadata: crate::event_handlers::waiting_event_meta(request_key, request_id, question_ids),
                },
                "Child task asks: "@ + question + "\nReply in this chat to continue (subtask `"@ + job.id + "`)."@,
                "waiting_for_user"@,
                at_ms,
            );
        },
        None => {},
    }
}

proof fn lemma_error_keeps_bounds(
    lp: LoopModel,
    workspace_id: Seq<char>,
    thread_id: Option<Seq<char>>,
    turn_id: Option<Seq<char>>,
    message: Seq<char>,
    will_retry: bool,
    at_ms: i64,
)
    requires
        loop_bounded(lp),
        lp.state.jobs.len() < usize::MAX,
    ensures
        loop_bounded(error_applied(lp, workspace_id, thread_id, turn_id, message, will_retry, at_ms)),
{
    match thread_id {
        Some(t) => {
            lemma_thread_activity_keeps_bounds(
                lp,
                workspace_id,
                t,
                turn_id,
                crate::model::SupervisorThreadStatus::Failed,
                None,
                at_ms,
            );
        },
        None => {},
    }
    let lp1 = match thread_id {
        Some(t) => with_thread_activity(
            lp,
            workspace_id,
            t,
            turn_id,
            crate::model::SupervisorThreadStatus::Failed,
            None,
            at_ms,
        ),
        None => lp,
    };
    assert(loop_bounded(lp1) && lp1.state.jobs == lp.state.jobs && lp1.config == lp.config);
    let meta = crate::event_handlers::error_meta(will_retry, turn_id);
    let id = crate::event_handlers::triple_id(
        "error:"@,
        workspace_id,
        crate::event_handlers::text_or_empty(thread_id),
        crate::event_handlers::text_or_empty(turn_id),
    );
    let signal = SignalModel {
        id,
        kind: crate::model::SupervisorSignalKind::Failed,
        workspace_id: Some(workspace_id),
        thread_id,
        job_id: None,
        message,
        created_at_ms: at_ms,
        acknowledged_at_ms: None,
        context: meta,
    };
    lemma_signal_keeps_bounds(lp1.state, feed_limit_of(lp), signal);
    let s2 = with_signal(lp1.state, signal);
    let entry = ActivityModel {
        id: crate::event_handlers::timed_id(
            "error:"@,
            workspace_id,
            crate::event_handlers::text_or_empty(thread_id),
            crate::event_handlers::text_or_empty(turn_id),
            at_ms,
        ),
        kind: "error"@,
        message,
        created_at_ms: at_ms,
        workspace_id: Some(workspace_id),
        thread_id,
        needs_input: false,
        metadata: meta,
    };
    lemma_activity_keeps_bounds(s2, lp1.config.activity_feed_limit, entry);
    let s3 = with_activity(s2, lp1.config.activity_feed_limit, entry);
    match matching_job(s3.jobs, workspace_id, thread_id) {
        Some(job) => {
            lemma_matching_is_entry(s3.jobs, workspace_id, thread_id);
            let changed = JobModel {
                status: if will_retry {
                    SupervisorJobStatus::Running
                } else {
                    SupervisorJobStatus::Failed
                },
                error: if will_retry {
                    job.error
                } else {
                    Some(message)
                },
                waiting_request_id: None,
                waiting_question_ids: Seq::empty(),
                ..job
            };
            let event = SubtaskEventModel { id, kind: "failed"@, message, created_at_ms: at_ms, metadata: meta };
            let chat = if will_retry {
                "Child task reported an error but will retry: "@ + message
            } else {
                "Child task failed: "@ + message
            };
            lemma_job_progress_keeps_bounds(s3, feed_limit_of(lp), changed, event, chat, "error"@, at_ms);
        },
        None => {},
    }
}

/// Every raw message keeps the bounds of the loop.
pub proof fn lemma_message_keeps_bounds(lp: LoopModel, workspace_id: Seq<char>, message: JsonModel, at_ms: i64)
    requires
        loop_bounded(lp),
        lp.state.jobs.len() < usize::MAX,
    ensures
        loop_bounded(crate::event_handlers::message_applied(lp, workspace_id, message, at_ms)),
{
    let beat = crate::supervisor_loop::with_heartbeat(lp, workspace_id, at_ms);
    match crate::events::normalized(workspace_id, message, at_ms) {
        Some(event) => {
            lemma_event_keeps_bounds(beat, event);
        },
        None => {
            if crate::event_handlers::announces_connection(message) {
                let known = crate::supervisor_loop::workspace_or_blank(beat.state, workspace_id);
                let workspace = WorkspaceModel {
                    connected: true,
                    health: SupervisorHealth::Healthy,
                    last_activity_at_ms: Some(at_ms),
                    ..known
                };
                lemma_reduced_keeps_bounds(beat.state, UpdateModel::UpsertWorkspace(workspace), feed_limit_of(lp));
                let s1 = reduced(beat.state, UpdateModel::UpsertWorkspace(workspace));
                lemma_activity_keeps_bounds(
                    s1,
                    lp.config.activity_feed_limit,
                    ActivityModel {
                        id: "connected:"@ + workspace_id + ":"@ + crate::text::integer_text(at_ms as int),
                        kind: "workspace_connected"@,
                        message: "Workspace connected"@,
                        created_at_ms: at_ms,
                        workspace_id: Some(workspace_id),
                        thread_id: None,
                        needs_input: false,
                        metadata: JsonModel::Null,
                    },
                );
            }
        },
    }
}

/// A health check of one workspace keeps the bounds of the loop.
pub proof fn lemma_health_step_keeps_bounds(lp: LoopModel, input: HealthInputModel, now_ms: i64)
    requires
        loop_bounded(lp),
    ensures
        loop_bounded(health_step(lp, input, now_ms)),
        health_step(lp, input, now_ms).state.jobs == lp.state.jobs,
{
    let stored = reduced(
        lp.state,
        UpdateModel::UpsertWorkspace(crate::loop_ops::checked_workspace(lp, input, now_ms)),
    );
    lemma_reduced_keeps_bounds(
        lp.state,
        UpdateModel::UpsertWorkspace(crate::loop_ops::checked_workspace(lp, input, now_ms)),
        feed_limit_of(lp),
    );
    match health_signal(input.workspace_id, computed_health(lp, input.workspace_id, input.connected, now_ms), now_ms) {
        Some(signal) => {
            lemma_signal_keeps_bounds(stored, feed_limit_of(lp), signal);
        },
        None => {},
    }
}

/// A health check of any number of workspaces keeps the bounds of the loop.
pub proof fn lemma_health_check_keeps_bounds(lp: LoopModel, inputs: Seq<HealthInputModel>, now_ms: i64)
    requires
        loop_bounded(lp),
    ensures
        loop_bounded(crate::loop_ops::health_checked(lp, inputs, now_ms)),
    decreases inputs.len(),
{
    if inputs.len() > 0 {
        lemma_health_check_keeps_bounds(lp, inputs.drop_last(), now_ms);
        lemma_health_step_keeps_bounds(
            crate::loop_ops::health_checked(lp, inputs.drop_last(), now_ms),
            inputs.last(),
            now_ms,
        );
    }
}

/// A raw message leaves every job consistent.
pub proof fn lemma_message_keeps_jobs_consistent(lp: LoopModel, workspace_id: Seq<char>, message: JsonModel, at_ms: i64)
    requires
        jobs_consistent(lp.state.jobs),
    ensures
        jobs_consistent(crate::event_handlers::message_applied(lp, workspace_id, message, at_ms).state.jobs),
{
    let beat = crate::supervisor_loop::with_heartbeat(lp, workspace_id, at_ms);
    match crate::events::normalized(workspace_id, message, at_ms) {
        Some(event) => {
            lemma_event_keeps_jobs_consistent(beat, event);
        },
        None => {},
    }
}

/// Every update leaves every well-formed state well formed.
proof fn lemma_updates_keep_well_formed()
    ensures
        forall|state: StateModel, update: UpdateModel|
            well_formed(state) ==> well_formed(#[trigger] reduced(state, update)),
{
    assert forall|state: StateModel, update: UpdateModel| well_formed(state) implies well_formed(
        #[trigger] reduced(state, update),
    ) by {
        lemma_reduced_keeps_well_formed(state, update);
    }
}

/// Every event leaves a well-formed state well formed: no key occurs
/// twice, and every entry is stored under its own key.
pub proof fn lemma_event_keeps_well_formed(lp: LoopModel, event: EventModel)
    requires
        well_formed(lp.state),
    ensures
        well_formed(event_applied(lp, event).state),
{
    match event {
        EventModel::TurnStarted { workspace_id, thread_id, turn_id, task, received_at_ms } => {
            lemma_turn_started_keeps_well_formed(lp, workspace_id, thread_id, turn_id, task, received_at_ms);
        },
        EventModel::TurnCompleted { workspace_id, thread_id, turn_id, task, received_at_ms } => {
            lemma_turn_completed_keeps_well_formed(lp, workspace_id, thread_id, turn_id, task, received_at_ms);
        },
        EventModel::ItemStarted {
            workspace_id,
            thread_id,
            item_id,
            item_type,
            task,
            item_content,
            received_at_ms,
        } => {
            lemma_item_keeps_well_formed(
                lp,
                true,
                workspace_id,
                thread_id,
                item_id,
                item_type,
                task,
                item_content,
                received_at_ms,
            );
        },
        EventModel::ItemCompleted {
            workspace_id,
            thread_id,
            item_id,
            item_type,
            task,
            item_content,
            received_at_ms,
        } => {
            lemma_item_keeps_well_formed(
                lp,
                false,
                workspace_id,
                thread_id,
                item_id,
                item_type,
                task,
                item_content,
                received_at_ms,
            );
        },
        EventModel::ApprovalRequested {
            workspace_id,
            request_key,
            request_id,
            method,
            thread_id,
            turn_id,
            item_id,
            params,
            received_at_ms,
        } => {
            lemma_approval_keeps_well_formed(
                lp,
                workspace_id,
                request_key,
                request_id,
                method,
                thread_id,
                turn_id,
                item_id,
                params,
                received_at_ms,
            );
        },
        EventModel::UserInputRequested {
            workspace_id,
            request_key,
            request_id,
            request_id_value,
            thread_id,
            turn_id,
            item_id,
            question,
            question_ids,
            params,
            received_at_ms,
        } => {
            lemma_user_input_keeps_well_formed(
                lp,
                workspace_id,
                request_key,
                request_id,
                request_id_value,
                thread_id,
                turn_id,
                item_id,
                question,
                question_ids,
                params,
                received_at_ms,
            );
        },
        EventModel::Error { workspace_id, thread_id, turn_id, message, will_retry, received_at_ms } => {
            lemma_error_keeps_well_formed(lp, workspace_id, thread_id, turn_id, message, will_retry, received_at_ms);
        },
    }
}

proof fn lemma_turn_started_keeps_well_formed(
    lp: LoopModel,
    workspace_id: Seq<char>,
    thread_id: Seq<char>,
    turn_id: Seq<char>,
    task: Option<Seq<char>>,
    at_ms: i64,
)
    requires
        well_formed(lp.state),
    ensures
        well_formed(turn_started_applied(lp, workspace_id, thread_id, turn_id, task, at_ms).state),
{
    lemma_updates_keep_well_formed();
}

proof fn lemma_turn_completed_keeps_well_formed(
    lp: LoopModel,
    workspace_id: Seq<char>,
    thread_id: Seq<char>,
    turn_id: Seq<char>,
    task: Option<Seq<char>>,
    at_ms: i64,
)
    requires
        well_formed(lp.state),
    ensures
        well_formed(turn_completed_applied(lp, workspace_id, thread_id, turn_id, task, at_ms).state),
{
    lemma_updates_keep_well_formed();
}

proof fn lemma_item_keeps_well_formed(
    lp: LoopModel,
    started: bool,
    workspace_id: Seq<char>,
    thread_id: Seq<char>,
    item_id: Seq<char>,
    item_type: Option<Seq<char>>,
    task: Option<Seq<char>>,
    item_content: Option<Seq<char>>,
    at_ms: i64,
)
    requires
        well_formed(lp.state),
    ensures
        well_formed(
            item_applied(lp, started, workspace_id, thread_id, item_id, item_type, task, item_content, at_ms).state,
        ),
{
    lemma_updates_keep_well_formed();
}

proof fn lemma_approval_keeps_well_formed(
    lp: LoopModel,
    workspace_id: Seq<char>,
    request_key: Seq<char>,
    request_id: Seq<char>,
    method: Seq<char>,
    thread_id: Option<Seq<char>>,
    turn_id: Option<Seq<char>>,
    item_id: Option<Seq<char>>,
    params: JsonModel,
    at_ms: i64,
)
    requires
        well_formed(lp.state),
    ensures
        well_formed(
            approval_applied(
                lp,
                workspace_id,
                request_key,
                request_id,
                method,
                thread_id,
                turn_id,
                item_id,
                params,
                at_ms,
            ).state,
        ),
{
    lemma_updates_keep_well_formed();
}

proof fn lemma_user_input_keeps_well_formed(
    lp: LoopModel,
    workspace_id: Seq<char>,
    request_key: Seq<char>,
    request_id: Seq<char>,
    request_id_value: JsonModel,
    thread_id: Option<Seq<char>>,
    turn_id: Option<Seq<char>>,
    item_id: Option<Seq<char>>,
    question: Seq<char>,
    question_ids: Seq<Seq<char>>,
    params: JsonModel,
    at_ms: i64,
)
    requires
        well_formed(lp.state),
    ensures
        well_formed(
            user_input_applied(
                lp,
                workspace_id,
                request_key,
                request_id,
                request_id_value,
                thread_id,
                turn_id,
                item_id,
                question,
                question_ids,
                params,
                at_ms,
            ).state,
        ),
{
    lemma_updates_keep_well_formed();
}

proof fn lemma_error_keeps_well_formed(
    lp: LoopModel,
    workspace_id: Seq<char>,
    thread_id: Option<Seq<char>>,
    turn_id: Option<Seq<char>>,
    message: Seq<char>,
    will_retry: bool,
    at_ms: i64,
)
    requires
        well_formed(lp.state),
    ensures
        well_formed(error_applied(lp, workspace_id, thread_id, turn_id, message, will_retry, at_ms).state),
{
    lemma_updates_keep_well_formed();
}

/// A raw message leaves a well-formed state well formed.
pub proof fn lemma_message_keeps_well_formed(lp: LoopModel, workspace_id: Seq<char>, message: JsonModel, at_ms: i64)
    requires
        well_formed(lp.state),
    ensures
        well_formed(crate::event_handlers::message_applied(lp, workspace_id, message, at_ms).state),
{
    lemma_updates_keep_well_formed();
    let beat = crate::supervisor_loop::with_heartbeat(lp, workspace_id, at_ms);
    match crate::events::normalized(workspace_id, message, at_ms) {
        Some(event) => {
            lemma_event_keeps_well_formed(beat, event);
        },
        None => {},
    }
}

/// A health check of one workspace leaves a well-formed state well formed.
pub proof fn lemma_health_step_keeps_well_formed(lp: LoopModel, input: HealthInputModel, now_ms: i64)
    requires
        well_formed(lp.state),
    ensures
        well_formed(health_step(lp, input, now_ms).state),
{
    lemma_updates_keep_well_formed();
}

/// A health check of any number of workspaces leaves a well-formed state well formed.
pub proof fn lemma_health_check_keeps_well_formed(lp: LoopModel, inputs: Seq<HealthInputModel>, now_ms: i64)
    requires
        well_formed(lp.state),
    ensures
        well_formed(crate::loop_ops::health_checked(lp, inputs, now_ms).state),
    decreases inputs.len(),
{
    if inputs.len() > 0 {
        lemma_health_check_keeps_well_formed(lp, inputs.drop_last(), now_ms);
        lemma_health_step_keeps_well_formed(
            crate::loop_ops::health_checked(lp, inputs.drop_last(), now_ms),
            inputs.last(),
            now_ms,
        );
    }
}

/// A reply that was delivered, or one that could not be, leaves a
/// well-formed state well formed.
pub proof fn lemma_reply_keeps_well_formed(
    lp: LoopModel,
    job_id: Seq<char>,
    request_id: JsonModel,
    text: Seq<char>,
    at_ms: i64,
)
    requires
        well_formed(lp.state),
    ensures
        well_formed(reply_delivered(lp, job_id, request_id, text, at_ms).state),
        well_formed(reply_delivery_failed(lp, job_id, request_id, text, at_ms).state),
{
    lemma_updates_keep_well_formed();
}

/// Storing a job with whatever recent events puts it under its id
/// and leaves what is stored under every other key.
pub proof fn lemma_put_job_with_events(jobs: Seq<(Seq<char>, JobModel)>, job: JobModel, other: Seq<char>)
    requires
        distinct_keys(jobs),
    ensures
        forall|events: Seq<SubtaskEventModel>|
            table_get(
                #[trigger] table_put(jobs, job.id, JobModel { recent_events: events, ..job }),
                job.id,
            ) == Some(JobModel { recent_events: events, ..job }),
        forall|events: Seq<SubtaskEventModel>|
            other != job.id ==> table_get(
                #[trigger] table_put(jobs, job.id, JobModel { recent_events: events, ..job }),
                other,
            ) == table_get(jobs, other),
{
    assert forall|events: Seq<SubtaskEventModel>|
        table_get(#[trigger] table_put(jobs, job.id, JobModel { recent_events: events, ..job }), job.id) == Some(
            JobModel { recent_events: events, ..job },
        ) && (other != job.id ==> table_get(
            table_put(jobs, job.id, JobModel { recent_events: events, ..job }),
            other,
        ) == table_get(jobs, other)) by {
        crate::table::lemma_table_put(jobs, job.id, JobModel { recent_events: events, ..job }, other);
    }
}

/// In a well-formed state a delivered reply changes the job that it
/// names: that job runs again and holds no request, and every other job is
/// as it was.
pub proof fn lemma_reply_frees_named_job(
    lp: LoopModel,
    job_id: Seq<char>,
    request_id: JsonModel,
    reply_preview: Seq<char>,
    at_ms: i64,
    other: Seq<char>,
)
    requires
        well_formed(lp.state),
        reply_refusal(lp.state, job_id, request_id) is None,
    ensures
        table_get(reply_delivered(lp, job_id, request_id, reply_preview, at_ms).state.jobs, job_id) is Some,
        table_get(reply_delivered(lp, job_id, request_id, reply_preview, at_ms).state.jobs, job_id)->0.status
            == SupervisorJobStatus::Running,
        table_get(
            reply_delivered(lp, job_id, request_id, reply_preview, at_ms).state.jobs,
            job_id,
        )->0.waiting_request_id is None,
        table_get(
            reply_delivered(lp, job_id, request_id, reply_preview, at_ms).state.jobs,
            job_id,
        )->0.waiting_question_ids.len() == 0,
        other != job_id ==> table_get(
            reply_delivered(lp, job_id, request_id, reply_preview, at_ms).state.jobs,
            other,
        ) == table_get(lp.state.jobs, other),
{
    lemma_key_index(lp.state.jobs, job_id);
    let existing = table_get(lp.state.jobs, job_id)->0;
    assert(existing.id == job_id);
    let running = JobModel {
        status: SupervisorJobStatus::Running,
        waiting_request_id: None,
        waiting_question_ids: Seq::empty(),
        ..existing
    };
    lemma_put_job_with_events(lp.state.jobs, running, other);
}

/// No workspace occurs twice among the inputs of a health check.
pub open spec fn distinct_inputs(inputs: Seq<HealthInputModel>) -> bool {
    forall|i: int, j: int| 0 <= i < j < inputs.len() ==> inputs[i].workspace_id != inputs[j].workspace_id
}

/// The workspace is stored as a health check at `now_ms` would leave it.
pub open spec fn settled(lp: LoopModel, input: HealthInputModel, now_ms: i64) -> bool {
    table_get(lp.state.workspaces, input.workspace_id) == Some(
        crate::loop_ops::checked_workspace(lp, input, now_ms),
    )
}

/// A loop is sound where its state is well formed and every job is consistent.
pub open spec fn loop_sound(lp: LoopModel) -> bool {
    well_formed(lp.state) && jobs_consistent(lp.state.jobs)
}

/// A health check changes no job.
pub proof fn lemma_health_check_keeps_jobs(lp: LoopModel, inputs: Seq<HealthInputModel>, now_ms: i64)
    ensures
        crate::loop_ops::health_checked(lp, inputs, now_ms).state.jobs == lp.state.jobs,
    decreases inputs.len(),
{
    if inputs.len() > 0 {
        lemma_health_check_keeps_jobs(lp, inputs.drop_last(), now_ms);
    }
}

/// A health check changes neither the times of the last events nor the configuration.
pub proof fn lemma_health_check_keeps_clock(lp: LoopModel, inputs: Seq<HealthInputModel>, now_ms: i64)
    ensures
        crate::loop_ops::health_checked(lp, inputs, now_ms).last_event == lp.last_event,
        crate::loop_ops::health_checked(lp, inputs, now_ms).config == lp.config,
    decreases inputs.len(),
{
    if inputs.len() > 0 {
        lemma_health_check_keeps_clock(lp, inputs.drop_last(), now_ms);
    }
}

/// After the check of a workspace it is stored as the check leaves it.
proof fn lemma_health_step_settles(lp: LoopModel, input: HealthInputModel, now_ms: i64)
    requires
        well_formed(lp.state),
    ensures
        settled(health_step(lp, input, now_ms), input, now_ms),
{
    lemma_key_index(lp.state.workspaces, input.workspace_id);
    let stored = crate::loop_ops::checked_workspace(lp, input, now_ms);
    assert(stored.id == input.workspace_id);
    lemma_get_after_put(lp.state.workspaces, input.workspace_id, stored);
    let after = health_step(lp, input, now_ms);
    assert(table_get(after.state.workspaces, input.workspace_id) == Some(stored));
    assert(crate::loop_ops::checked_workspace(after, input, now_ms) == stored);
}

/// The check of one workspace leaves another as it is stored.
proof fn lemma_health_step_keeps_settled(lp: LoopModel, input: HealthInputModel, other: HealthInputModel, now_ms: i64)
    requires
        well_formed(lp.state),
        other.workspace_id != input.workspace_id,
        settled(lp, other, now_ms),
    ensures
        settled(health_step(lp, input, now_ms), other, now_ms),
{
    lemma_key_index(lp.state.workspaces, input.workspace_id);
    let stored = crate::loop_ops::checked_workspace(lp, input, now_ms);
    assert(stored.id == input.workspace_id);
    crate::table::lemma_table_put(lp.state.workspaces, input.workspace_id, stored, other.workspace_id);
}

/// After a health check of distinct workspaces each of them is stored as its check leaves it.
proof fn lemma_health_check_settles(lp: LoopModel, inputs: Seq<HealthInputModel>, now_ms: i64, i: int)
    requires
        well_formed(lp.state),
        distinct_inputs(inputs),
        0 <= i < inputs.len(),
    ensures
        settled(crate::loop_ops::health_checked(lp, inputs, now_ms), inputs[i], now_ms),
    decreases inputs.len(),
{
    let before = crate::loop_ops::health_checked(lp, inputs.drop_last(), now_ms);
    lemma_health_check_keeps_well_formed(lp, inputs.drop_last(), now_ms);
    if i == inputs.len() - 1 {
        lemma_health_step_settles(before, inputs.last(), now_ms);
    } else {
        assert(inputs.drop_last()[i] == inputs[i]);
        lemma_health_check_settles(lp, inputs.drop_last(), now_ms, i);
        lemma_health_step_keeps_settled(before, inputs.last(), inputs[i], now_ms);
    }
}

/// The check of a workspace that is stored as an earlier check left it,
/// and that computes the same health, changes nothing.
proof fn lemma_settled_step_changes_nothing(lp: LoopModel, input: HealthInputModel, first_ms: i64, second_ms: i64)
    requires
        well_formed(lp.state),
        settled(lp, input, first_ms),
        computed_health(lp, input.workspace_id, input.connected, first_ms) == computed_health(
            lp,
            input.workspace_id,
            input.connected,
            second_ms,
        ),
    ensures
        health_step(lp, input, second_ms) == lp,
{
    lemma_key_index(lp.state.workspaces, input.workspace_id);
    let stored = crate::loop_ops::checked_workspace(lp, input, first_ms);
    assert(crate::loop_ops::checked_workspace(lp, input, second_ms) == stored);
    assert(stored.id == input.workspace_id);
    assert(table_put(lp.state.workspaces, stored.id, stored) =~= lp.state.workspaces);
}

/// A check of workspaces that are all stored as an earlier check left
/// them, and that compute the same health, changes nothing.
proof fn lemma_settled_check_changes_nothing(
    lp: LoopModel,
    inputs: Seq<HealthInputModel>,
    first_ms: i64,
    second_ms: i64,
)
    requires
        well_formed(lp.state),
        forall|i: int| 0 <= i < inputs.len() ==> settled(lp, #[trigger] inputs[i], first_ms),
        forall|i: int|
            0 <= i < inputs.len() ==> computed_health(
                lp,
                (#[trigger] inputs[i]).workspace_id,
                inputs[i].connected,
                first_ms,
            ) == computed_health(lp, inputs[i].workspace_id, inputs[i].connected, second_ms),
    ensures
        crate::loop_ops::health_checked(lp, inputs, second_ms) == lp,
    decreases inputs.len(),
{
    if inputs.len() > 0 {
        let rest = inputs.drop_last();
        assert forall|i: int| 0 <= i < rest.len() implies settled(lp, #[trigger] rest[i], first_ms) by {
            assert(rest[i] == inputs[i]);
        }
        assert forall|i: int| 0 <= i < rest.len() implies computed_health(
            lp,
            (#[trigger] rest[i]).workspace_id,
            rest[i].connected,
            first_ms,
        ) == computed_health(lp, rest[i].workspace_id, rest[i].connected, second_ms) by {
            assert(rest[i] == inputs[i]);
        }
        lemma_settled_check_changes_nothing(lp, rest, first_ms, second_ms);
        assert(inputs.last() == inputs[inputs.len() - 1]);
        lemma_settled_step_changes_nothing(lp, inputs.last(), first_ms, second_ms);
    }
}

/// A health check raises a signal only on a change: a second check of
/// the same distinct workspaces that computes for each the health that the
/// first computed changes nothing, so no signal is raised, moved or
/// removed, and every workspace stays as the first check left it.
pub proof fn lemma_health_check_once(lp: LoopModel, inputs: Seq<HealthInputModel>, first_ms: i64, second_ms: i64)
    requires
        well_formed(lp.state),
        distinct_inputs(inputs),
        forall|i: int|
            0 <= i < inputs.len() ==> computed_health(
                lp,
                (#[trigger] inputs[i]).workspace_id,
                inputs[i].connected,
                first_ms,
            ) == computed_health(lp, inputs[i].workspace_id, inputs[i].connected, second_ms),
    ensures
        crate::loop_ops::health_checked(crate::loop_ops::health_checked(lp, inputs, first_ms), inputs, second_ms)
            == crate::loop_ops::health_checked(lp, inputs, first_ms),
{
    let checked = crate::loop_ops::health_checked(lp, inputs, first_ms);
    lemma_health_check_keeps_clock(lp, inputs, first_ms);
    lemma_health_check_keeps_well_formed(lp, inputs, first_ms);
    assert forall|i: int| 0 <= i < inputs.len() implies settled(checked, #[trigger] inputs[i], first_ms) by {
        lemma_health_check_settles(lp, inputs, first_ms, i);
    }
    assert forall|i: int| 0 <= i < inputs.len() implies computed_health(
        checked,
        (#[trigger] inputs[i]).workspace_id,
        inputs[i].connected,
        first_ms,
    ) == computed_health(checked, inputs[i].workspace_id, inputs[i].connected, second_ms) by {
        assert(computed_health(checked, inputs[i].workspace_id, inputs[i].connected, first_ms) == computed_health(
            lp,
            inputs[i].workspace_id,
            inputs[i].connected,
            first_ms,
        ));
        assert(computed_health(checked, inputs[i].workspace_id, inputs[i].connected, second_ms) == computed_health(
            lp,
            inputs[i].workspace_id,
            inputs[i].connected,
            second_ms,
        ));
    }
    lemma_settled_check_changes_nothing(checked, inputs, first_ms, second_ms);
}

/// An update that stores consistent jobs: a job that is stored waits
/// exactly when it holds a request, and a new status is that of waiting
/// exactly when the job holds one.
pub open spec fn update_stores_consistent(state: StateModel, update: UpdateModel) -> bool {
    match update {
        UpdateModel::UpsertJob(job) => job_consistent(job),
        UpdateModel::UpdateJobStatus { job_id, status, at_ms, error } => match table_get(state.jobs, job_id) {
            Some(job) => (status == SupervisorJobStatus::WaitingForUser) == (job.waiting_request_id is Some),
            None => true,
        },
        _ => true,
    }
}

/// An update that stores consistent jobs leaves every job consistent.
pub proof fn lemma_reduced_keeps_jobs_consistent(state: StateModel, update: UpdateModel)
    requires
        jobs_consistent(state.jobs),
        update_stores_consistent(state, update),
    ensures
        jobs_consistent(reduced(state, update).jobs),
{
    broadcast use vstd::seq::Seq::lemma_filter_contains_rev;

    let after = reduced(state, update).jobs;
    match update {
        UpdateModel::UpsertJob(job) => {
            lemma_put_keeps_consistent(state.jobs, job);
        },
        UpdateModel::RemoveJob { job_id } => {
            lemma_key_index(state.jobs, job_id);
            match crate::table::key_index(state.jobs, job_id) {
                Some(i) => {
                    assert forall|k: int| 0 <= k < after.len() implies job_consistent((#[trigger] after[k]).1) by {
                        if k < i {
                            assert(after[k] == state.jobs[k]);
                        } else {
                            assert(after[k] == state.jobs[k + 1]);
                        }
                    }
                },
                None => {},
            }
        },
        UpdateModel::UpdateJobStatus { job_id, status, at_ms, error } => {
            lemma_key_index(state.jobs, job_id);
        },
        UpdateModel::RemoveWorkspace { workspace_id } => {
            assert forall|k: int| 0 <= k < after.len() implies job_consistent((#[trigger] after[k]).1) by {
                assert(after.contains(after[k]));
                assert(state.jobs.contains(after[k]));
            }
        },
        UpdateModel::RemoveThread { workspace_id, thread_id } => {
            assert forall|k: int| 0 <= k < after.len() implies job_consistent((#[trigger] after[k]).1) by {
                assert(after.contains(after[k]));
                assert(state.jobs.contains(after[k]));
            }
        },
        _ => {},
    }
}

/// Taking in one outcome of a dispatch leaves a well-formed state well
/// formed and every job consistent.
pub proof fn lemma_outcome_keeps_invariants(
    lp: LoopModel,
    result: crate::dispatch::ResultModel,
    action: Option<crate::dispatch::ActionModel>,
    at_ms: i64,
)
    requires
        well_formed(lp.state),
        jobs_consistent(lp.state.jobs),
    ensures
        well_formed(crate::service::outcome_applied(lp, result, action, at_ms).state),
        jobs_consistent(crate::service::outcome_applied(lp, result, action, at_ms).state.jobs),
{
    let job = crate::service::outcome_job(result, action, at_ms);
    let stored = LoopModel { state: reduced(lp.state, UpdateModel::UpsertJob(job)), ..lp };
    lemma_reduced_keeps_well_formed(lp.state, UpdateModel::UpsertJob(job));
    lemma_put_keeps_consistent(lp.state.jobs, job);
    match result.status {
        crate::dispatch::SupervisorDispatchStatus::Dispatched => {
            if result.thread_id is Some && result.turn_id is Some {
                let message = crate::service::started_message(result.thread_id->0, result.turn_id->0);
                lemma_message_keeps_well_formed(stored, result.workspace_id, message, at_ms);
                lemma_message_keeps_jobs_consistent(stored, result.workspace_id, message, at_ms);
            }
        },
        crate::dispatch::SupervisorDispatchStatus::Failed => {
            let message = crate::service::failed_message(result.thread_id, crate::service::failure_text(result));
            lemma_message_keeps_well_formed(stored, result.workspace_id, message, at_ms);
            lemma_message_keeps_jobs_consistent(stored, result.workspace_id, message, at_ms);
        },
    }
}

/// Taking in the outcomes of a batch leaves a well-formed state well
/// formed and every job consistent.
pub proof fn lemma_outcomes_keep_invariants(
    lp: LoopModel,
    results: Seq<crate::dispatch::ResultModel>,
    actions: Seq<crate::dispatch::ActionModel>,
    at_ms: i64,
)
    requires
        well_formed(lp.state),
        jobs_consistent(lp.state.jobs),
    ensures
        well_formed(crate::service::outcomes_applied(lp, results, actions, at_ms).state),
        jobs_consistent(crate::service::outcomes_applied(lp, results, actions, at_ms).state.jobs),
    decreases results.len(),
{
    if results.len() > 0 {
        lemma_outcomes_keep_invariants(lp, results.drop_last(), actions, at_ms);
        lemma_outcome_keeps_invariants(
            crate::service::outcomes_applied(lp, results.drop_last(), actions, at_ms),
            results.last(),
            crate::service::action_with_id(actions, results.last().action_id),
            at_ms,
        );
    }
}

/// A question as it is once it was resolved at `at_ms`.
pub open spec fn resolved_question(question: QuestionModel, at_ms: i64) -> QuestionModel {
    QuestionModel { resolved_at_ms: Some(at_ms), ..question }
}

/// A delivered reply resolves the question that the job waited on, at
/// the time of the delivery, and changes nothing else of the open questions:
/// none comes or goes, and every other question stays as it was.
pub proof fn lemma_reply_resolves_question(
    lp: LoopModel,
    job_id: Seq<char>,
    request_id: JsonModel,
    reply_preview: Seq<char>,
    at_ms: i64,
    other: Seq<char>,
)
    requires
        table_get(lp.state.jobs, job_id) is Some,
    ensures
        ({
            let key = crate::loop_ops::request_value_key_of(table_get(lp.state.jobs, job_id)->0.workspace_id, request_id);
            let after = reply_delivered(lp, job_id, request_id, reply_preview, at_ms).state.open_questions;
            &&& after.len() == lp.state.open_questions.len()
            &&& table_get(after, key) == match table_get(lp.state.open_questions, key) {
                Some(question) => Some(resolved_question(question, at_ms)),
                None => None,
            }
            &&& other != key ==> table_get(after, other) == table_get(lp.state.open_questions, other)
        }),
{
    let key = crate::loop_ops::request_value_key_of(table_get(lp.state.jobs, job_id)->0.workspace_id, request_id);
    lemma_table_changed(
        lp.state.open_questions,
        key,
        |q: QuestionModel| QuestionModel { resolved_at_ms: Some(at_ms), ..q },
        other,
    );
}

/// A reply that could not be delivered leaves the open questions as they
/// were, and in a well-formed state it leaves the job with the request that
/// it holds.
pub proof fn lemma_failed_reply_keeps_request(
    lp: LoopModel,
    job_id: Seq<char>,
    request_id: JsonModel,
    error: Seq<char>,
    at_ms: i64,
)
    requires
        well_formed(lp.state),
        table_get(lp.state.jobs, job_id) is Some,
    ensures
        reply_delivery_failed(lp, job_id, request_id, error, at_ms).state.open_questions == lp.state.open_questions,
        table_get(reply_delivery_failed(lp, job_id, request_id, error, at_ms).state.jobs, job_id) is Some,
        table_get(reply_delivery_failed(lp, job_id, request_id, error, at_ms).state.jobs, job_id)->0.waiting_request_id
            == table_get(lp.state.jobs, job_id)->0.waiting_request_id,
        table_get(reply_delivery_failed(lp, job_id, request_id, error, at_ms).state.jobs, job_id)->0.status == table_get(
            lp.state.jobs,
            job_id,
        )->0.status,
{
    lemma_key_index(lp.state.jobs, job_id);
    let existing = table_get(lp.state.jobs, job_id)->0;
    assert(existing.id == job_id);
    lemma_put_job_with_events(lp.state.jobs, existing, job_id);
}

} // verus!
