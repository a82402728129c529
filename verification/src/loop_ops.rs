use vstd::prelude::*;
use vstd::string::*;

use crate::json::{JsonModel, JsonValue};
use crate::json_ops::{json_compact_text, json_same, new_members, push_member};
use crate::model::{
    ActivityModel, JobModel, SignalModel, StateModel, SubtaskEventModel, SupervisorActivityEntry,
    SupervisorHealth, SupervisorJobState, SupervisorJobStatus, SupervisorSignal, SupervisorSignalKind,
    SupervisorState, SupervisorSubtaskEvent, WorkspaceModel,
};
use crate::order::{rank_order, ranking, RankKey, RankKeyModel};
use crate::reducer::{apply_update, reduced, SupervisorStateUpdate, UpdateModel};
use crate::supervisor_loop::{
    appended_events, bridge_message, has_event, with_activity, with_chat, with_signal, workspace_or_blank,
    LoopModel, SupervisorLoop, SupervisorLoopConfig,
};
use crate::table::{table_get, table_put, Table};
use crate::text::{decimal, integer_text, summarize_text, summary_of, trimmed};

use crate::loop_laws::{
    jobs_consistent, lemma_failed_reply_keeps_jobs_consistent, lemma_health_check_keeps_jobs,
    lemma_health_check_keeps_well_formed, lemma_reply_keeps_jobs_consistent, lemma_reply_keeps_well_formed,
};
use crate::reducer_laws::well_formed;

verus! {

/// What a health check is told of one workspace.
#[derive(Debug, PartialEq, Eq)]
pub struct SupervisorWorkspaceHealthInput {
    pub workspace_id: String,
    pub workspace_name: Option<String>,
    pub connected: bool,
}

/// Mathematical model of [`SupervisorWorkspaceHealthInput`].
pub struct HealthInputModel {
    pub workspace_id: Seq<char>,
    pub workspace_name: Option<Seq<char>>,
    pub connected: bool,
}

impl View for SupervisorWorkspaceHealthInput {
    type V = HealthInputModel;

    open spec fn view(&self) -> HealthInputModel {
        HealthInputModel {
            workspace_id: self.workspace_id@,
            workspace_name: self.workspace_name.deep_view(),
            connected: self.connected,
        }
    }
}

impl DeepView for SupervisorWorkspaceHealthInput {
    type V = HealthInputModel;

    open spec fn deep_view(&self) -> HealthInputModel {
        self@
    }
}

impl Clone for SupervisorWorkspaceHealthInput {
    fn clone(&self) -> (copy: Self)
        ensures
            copy@ == self@,
    {
        let copy = SupervisorWorkspaceHealthInput {
            workspace_id: self.workspace_id.clone(),
            workspace_name: self.workspace_name.clone(),
            connected: self.connected,
        };
        proof {
            assert(copy.workspace_name.deep_view() =~= self.workspace_name.deep_view());
        }
        copy
    }
}


/// The time from `last` to `now`, kept within the range of the type.
pub open spec fn elapsed(now: i64, last: i64) -> i64 {
    if now - last > i64::MAX {
        i64::MAX
    } else if now - last < i64::MIN {
        i64::MIN
    } else {
        (now - last) as i64
    }
}

/// The health of a workspace at `now_ms`: disconnected where it is not
/// connected, stale where no event of it is known, and otherwise by the age
/// of its last event.
pub open spec fn computed_health(lp: LoopModel, workspace_id: Seq<char>, connected: bool, now_ms: i64) -> SupervisorHealth {
    if !connected {
        SupervisorHealth::Disconnected
    } else {
        match table_get(lp.last_event, workspace_id) {
            None => SupervisorHealth::Stale,
            Some(last) => {
                let age = elapsed(now_ms, last);
                if age >= lp.config.disconnected_after_ms {
                    SupervisorHealth::Disconnected
                } else if age >= lp.config.stale_after_ms {
                    SupervisorHealth::Stale
                } else {
                    SupervisorHealth::Healthy
                }
            },
        }
    }
}

/// An object with the one member `health`.
pub open spec fn health_meta(label: Seq<char>) -> JsonModel {
    JsonModel::Object(Seq::empty().push(("health"@, JsonModel::Text(label))))
}

/// The signal that tells of a workspace that became stale or disconnected.
pub open spec fn health_signal(workspace_id: Seq<char>, health: SupervisorHealth, now_ms: i64) -> Option<SignalModel> {
    match health {
        SupervisorHealth::Stale => Some(
            SignalModel {
                id: "health:"@ + workspace_id + ":stalled"@,
                kind: SupervisorSignalKind::Stalled,
                workspace_id: Some(workspace_id),
                thread_id: None,
                job_id: None,
                message: "Workspace is stale (no recent events)."@,
                created_at_ms: now_ms,
                acknowledged_at_ms: None,
                context: health_meta("stale"@),
            },
        ),
        SupervisorHealth::Disconnected => Some(
            SignalModel {
                id: "health:"@ + workspace_id + ":disconnected"@,
                kind: SupervisorSignalKind::Disconnected,
                workspace_id: Some(workspace_id),
                thread_id: None,
                job_id: None,
                message: "Workspace appears disconnected."@,
                created_at_ms: now_ms,
                acknowledged_at_ms: None,
                context: health_meta("disconnected"@),
            },
        ),
        SupervisorHealth::Healthy => None,
    }
}

/// The health that the state records for a workspace; healthy where it
/// records none.
pub open spec fn recorded_health(state: StateModel, workspace_id: Seq<char>) -> SupervisorHealth {
    match table_get(state.workspaces, workspace_id) {
        Some(w) => w.health,
        None => SupervisorHealth::Healthy,
    }
}

/// The workspace as a health check leaves it.
pub open spec fn checked_workspace(lp: LoopModel, input: HealthInputModel, now_ms: i64) -> WorkspaceModel {
    let known = workspace_or_blank(lp.state, input.workspace_id);
    WorkspaceModel {
        name: match input.workspace_name {
            Some(name) => if trimmed(name).len() > 0 {
                trimmed(name)
            } else {
                known.name
            },
            None => known.name,
        },
        connected: input.connected,
        health: computed_health(lp, input.workspace_id, input.connected, now_ms),
        last_activity_at_ms: match table_get(lp.last_event, input.workspace_id) {
            Some(last) => Some(last),
            None => known.last_activity_at_ms,
        },
        ..known
    }
}

/// The loop after the health of one workspace was checked: the workspace is
/// stored with its health, and a signal is raised where the health changed
/// to stale or disconnected.
pub open spec fn health_step(lp: LoopModel, input: HealthInputModel, now_ms: i64) -> LoopModel {
    let previous = recorded_health(lp.state, input.workspace_id);
    let next = computed_health(lp, input.workspace_id, input.connected, now_ms);
    let stored = reduced(lp.state, UpdateModel::UpsertWorkspace(checked_workspace(lp, input, now_ms)));
    if previous == next {
        LoopModel { state: stored, ..lp }
    } else {
        match health_signal(input.workspace_id, next, now_ms) {
            Some(signal) => LoopModel { state: with_signal(stored, signal), ..lp },
            None => LoopModel { state: stored, ..lp },
        }
    }
}

/// The loop after the health of the workspaces was checked, one after the other.
pub open spec fn health_checked(lp: LoopModel, inputs: Seq<HealthInputModel>, now_ms: i64) -> LoopModel
    decreases inputs.len(),
{
    if inputs.len() == 0 {
        lp
    } else {
        health_step(health_checked(lp, inputs.drop_last(), now_ms), inputs.last(), now_ms)
    }
}

/// The text of a request id: the trimmed text of a string that is not
/// blank, the numeral of an integer, and otherwise the compact JSON text.
pub open spec fn request_id_text(request_id: JsonModel) -> Seq<char> {
    match request_id {
        JsonModel::Text(t) => if trimmed(t).len() > 0 {
            trimmed(t)
        } else {
            json_compact_text(request_id)
        },
        JsonModel::Int(n) => if i64::MIN <= n <= u64::MAX {
            integer_text(n)
        } else {
            json_compact_text(request_id)
        },
        _ => json_compact_text(request_id),
    }
}

/// The key of a request whose id is a JSON value.
pub open spec fn request_value_key_of(workspace_id: Seq<char>, request_id: JsonModel) -> Seq<char> {
    workspace_id + ":"@ + request_id_text(request_id)
}

/// The key of a request whose id is a JSON value.
pub fn request_value_key(workspace_id: &str, request_id: &JsonValue) -> (key: String)
    ensures
        key@ == request_value_key_of(workspace_id@, request_id@),
{
    let text = match request_id.as_str() {
        Some(t) => {
            let cut = t.trim();
            if cut.unicode_len() > 0 {
                cut.to_owned()
            } else {
                request_id.compact_text()
            }
        },
        None => match request_id.as_i64() {
            Some(n) => decimal(n as i128),
            None => match request_id.as_u64() {
                Some(n) => decimal(n as i128),
                None => request_id.compact_text(),
            },
        },
    };
    let mut key = workspace_id.to_owned();
    key.append(":");
    key.append(text.as_str());
    key
}

/// Whether a job waits for a reply of the operator that can be delivered.
pub open spec fn job_awaits_reply(job: JobModel) -> bool {
    job.status == SupervisorJobStatus::WaitingForUser && job.waiting_request_id is Some && trimmed(
        job.workspace_id,
    ).len() > 0
}

/// The test that picks the waiting jobs among the stored ones.
pub open spec fn waiting_matcher() -> spec_fn((Seq<char>, JobModel)) -> bool {
    |e: (Seq<char>, JobModel)| job_awaits_reply(e.1)
}

/// What a waiting job is ranked by: the later request first, then the smaller id.
pub open spec fn waiting_ranks(jobs: Seq<(Seq<char>, JobModel)>) -> Seq<RankKeyModel> {
    Seq::new(jobs.len(), |i: int| RankKeyModel { major: jobs[i].1.requested_at_ms, minor: 0, label: jobs[i].1.id })
}

/// The jobs that wait for a reply, the latest request first.
pub open spec fn waiting_jobs_of(jobs: Seq<(Seq<char>, JobModel)>) -> Seq<JobModel> {
    let waiting = jobs.filter(waiting_matcher());
    let order = ranking(waiting_ranks(waiting));
    Seq::new(order.len(), |i: int| waiting[order[i] as int].1)
}

/// The times of the last activity that the workspaces record, by workspace.
pub open spec fn activity_times(workspaces: Seq<(Seq<char>, WorkspaceModel)>) -> Seq<(Seq<char>, i64)>
    decreases workspaces.len(),
{
    if workspaces.len() == 0 {
        Seq::empty()
    } else {
        let before = activity_times(workspaces.drop_last());
        match workspaces.last().1.last_activity_at_ms {
            Some(at) => table_put(before, workspaces.last().0, at),
            None => before,
        }
    }
}

/// What a job's event and the feed tell of a reply that was delivered.
pub open spec fn reply_event_meta(request_key: Seq<char>, summary: Seq<char>) -> JsonModel {
    JsonModel::Object(
        Seq::empty().push(("requestKey"@, JsonModel::Text(request_key))).push(
            ("replySummary"@, JsonModel::Text(summary)),
        ),
    )
}

/// What the feed tells of a reply that was delivered.
pub open spec fn reply_activity_meta(job_id: Seq<char>, request_key: Seq<char>, summary: Seq<char>) -> JsonModel {
    JsonModel::Object(
        Seq::empty().push(("subtaskId"@, JsonModel::Text(job_id))).push(("requestKey"@, JsonModel::Text(request_key))).push(
            ("replySummary"@, JsonModel::Text(summary)),
        ),
    )
}

/// What a job's event tells of a reply that could not be delivered.
pub open spec fn failure_event_meta(request_key: Seq<char>, error: Seq<char>) -> JsonModel {
    JsonModel::Object(
        Seq::empty().push(("requestKey"@, JsonModel::Text(request_key))).push(("error"@, JsonModel::Text(error))),
    )
}

/// What the feed tells of a reply that could not be delivered.
pub open spec fn failure_activity_meta(job_id: Seq<char>, request_key: Seq<char>, error: Seq<char>) -> JsonModel {
    JsonModel::Object(
        Seq::empty().push(("subtaskId"@, JsonModel::Text(job_id))).push(("requestKey"@, JsonModel::Text(request_key))).push(
            ("error"@, JsonModel::Text(error)),
        ),
    )
}

/// Why a reply to a job cannot be recorded as delivered, if it cannot.
pub open spec fn reply_refusal(state: StateModel, job_id: Seq<char>, request_id: JsonModel) -> Option<Seq<char>> {
    match table_get(state.jobs, job_id) {
        None => Some("subtask `"@ + job_id + "` is not tracked"@),
        Some(job) => if job.status != SupervisorJobStatus::WaitingForUser {
            Some("subtask `"@ + job_id + "` is not waiting for user input anymore"@)
        } else {
            match job.waiting_request_id {
                None => Some("subtask `"@ + job_id + "` no longer has a pending request to answer"@),
                Some(waiting) => if waiting != request_id {
                    Some("subtask `"@ + job_id + "` is waiting on a different request id"@)
                } else {
                    None
                },
            }
        },
    }
}

/// The loop after a reply to the job `job_id` was delivered: the job runs
/// again and waits for nothing, its question is resolved, and the feed and
/// the chat tell of it.
pub open spec fn reply_delivered(
    lp: LoopModel,
    job_id: Seq<char>,
    request_id: JsonModel,
    reply_preview: Seq<char>,
    at_ms: i64,
) -> LoopModel {
    let existing = table_get(lp.state.jobs, job_id)->0;
    let request_key = request_value_key_of(existing.workspace_id, request_id);
    let summary = summary_of(reply_preview, 180);
    let running = JobModel {
        status: SupervisorJobStatus::Running,
        waiting_request_id: None,
        waiting_question_ids: Seq::empty(),
        ..existing
    };
    let updated = JobModel {
        recent_events: appended_events(
            running.recent_events,
            SubtaskEventModel {
                id: "reply_delivered:"@ + job_id + ":"@ + request_key,
                kind: "reply_delivered"@,
                message: "Reply delivered to child request `"@ + request_key + "`."@,
                created_at_ms: at_ms,
                metadata: reply_event_meta(request_key, summary),
            },
        ),
        ..running
    };
    let s1 = reduced(lp.state, UpdateModel::UpsertJob(updated));
    let s2 = reduced(s1, UpdateModel::ResolveOpenQuestion { question_id: request_key, resolved_at_ms: at_ms });
    let s3 = with_activity(
        s2,
        lp.config.activity_feed_limit,
        ActivityModel {
            id: "reply_delivered:"@ + updated.id + ":"@ + request_key + ":"@ + integer_text(at_ms as int),
            kind: "reply_delivered"@,
            message: "Reply delivered for subtask `"@ + updated.id + "`."@,
            created_at_ms: at_ms,
            workspace_id: Some(updated.workspace_id),
            thread_id: updated.thread_id,
            needs_input: false,
            metadata: reply_activity_meta(updated.id, request_key, summary),
        },
    );
    LoopModel {
        state: with_chat(
            s3,
            bridge_message(
                updated,
                "Reply delivered to child task request `"@ + request_key + "`. Continuing execution."@,
                "reply_delivered"@,
                at_ms,
            ),
        ),
        ..lp
    }
}

/// The loop after a reply to the job `job_id` could not be delivered: the
/// job keeps its status, and the feed tells that input is needed.
pub open spec fn reply_delivery_failed(
    lp: LoopModel,
    job_id: Seq<char>,
    request_id: JsonModel,
    error: Seq<char>,
    at_ms: i64,
) -> LoopModel {
    match table_get(lp.state.jobs, job_id) {
        None => lp,
        Some(existing) => {
            let request_key = request_value_key_of(existing.workspace_id, request_id);
            let event = SubtaskEventModel {
                id: "reply_delivery_failed:"@ + job_id + ":"@ + request_key,
                kind: "failed"@,
                message: "Reply delivery failed: "@ + error,
                created_at_ms: at_ms,
                metadata: failure_event_meta(request_key, error),
            };
            let added = !has_event(existing.recent_events, event.id);
            let updated = JobModel { recent_events: appended_events(existing.recent_events, event), ..existing };
            let s1 = reduced(lp.state, UpdateModel::UpsertJob(updated));
            let s2 = with_activity(
                s1,
                lp.config.activity_feed_limit,
                ActivityModel {
                    id: "reply_delivery_failed:"@ + job_id + ":"@ + request_key + ":"@ + integer_text(at_ms as int),
                    kind: "reply_delivery_failed"@,
                    message: "Failed to deliver reply for subtask `"@ + job_id + "`."@,
                    created_at_ms: at_ms,
                    workspace_id: Some(updated.workspace_id),
                    thread_id: updated.thread_id,
                    needs_input: true,
                    metadata: failure_activity_meta(job_id, request_key, error),
                },
            );
            if added {
                LoopModel {
                    state: with_chat(
                        s2,
                        bridge_message(updated, "Reply delivery failed: "@ + error, "reply_delivery_failed"@, at_ms),
                    ),
                    ..lp
                }
            } else {
                LoopModel { state: s2, ..lp }
            }
        },
    }
}

fn health_metadata(label: &str) -> (meta: JsonValue)
    ensures
        meta@ == health_meta(label@),
{
    let mut members = new_members();
    push_member(&mut members, "health", JsonValue::text(label));
    JsonValue::object(members)
}

fn two_text_metadata(first_key: &str, first: &str, second_key: &str, second: &str) -> (meta: JsonValue)
    ensures
        meta@ == JsonModel::Object(
            Seq::empty().push((first_key@, JsonModel::Text(first@))).push((second_key@, JsonModel::Text(second@))),
        ),
{
    let mut members = new_members();
    push_member(&mut members, first_key, JsonValue::text(first));
    push_member(&mut members, second_key, JsonValue::text(second));
    JsonValue::object(members)
}

fn three_text_metadata(
    first_key: &str,
    first: &str,
    second_key: &str,
    second: &str,
    third_key: &str,
    third: &str,
) -> (meta: JsonValue)
    ensures
        meta@ == JsonModel::Object(
            Seq::empty().push((first_key@, JsonModel::Text(first@))).push((second_key@, JsonModel::Text(second@))).push(
                (third_key@, JsonModel::Text(third@)),
            ),
        ),
{
    let mut members = new_members();
    push_member(&mut members, first_key, JsonValue::text(first));
    push_member(&mut members, second_key, JsonValue::text(second));
    push_member(&mut members, third_key, JsonValue::text(third));
    JsonValue::object(members)
}

fn join3(a: &str, b: &str, c: &str) -> (text: String)
    ensures
        text@ == a@ + b@ + c@,
{
    let mut text = a.to_owned();
    text.append(b);
    text.append(c);
    text
}

impl SupervisorLoop {
    /// A loop that starts from a state: the times of the last events are
    /// those that the workspaces record.
    pub fn from_state(config: SupervisorLoopConfig, state: SupervisorState) -> (lp: Self)
        ensures
            lp@ == (LoopModel { state: state@, config, last_event: activity_times(state@.workspaces) }),
    {
        let mut times: Table<i64> = Table::new();
        let ghost workspaces = state.workspaces@;
        let mut i: usize = 0;
        assert(workspaces.take(0) =~= Seq::<(Seq<char>, WorkspaceModel)>::empty());
        while i < state.workspaces.len()
            invariant
                i <= workspaces.len(),
                workspaces == state.workspaces@,
                times@ == activity_times(workspaces.take(i as int)),
            decreases workspaces.len() - i,
        {
            proof {
                assert(workspaces.take(i + 1).drop_last() =~= workspaces.take(i as int));
                assert(workspaces.take(i + 1).last() == workspaces[i as int]);
            }
            match state.workspaces.value_at(i).last_activity_at_ms {
                Some(at) => {
                    times.put(state.workspaces.key_at(i).clone(), at);
                },
                None => {},
            }
            i += 1;
        }
        assert(workspaces.take(i as int) =~= workspaces);
        SupervisorLoop { state, config, workspace_last_event_at_ms: times }
    }

    /// The health of a workspace at `now_ms`.
    pub fn compute_health(&self, snapshot: &SupervisorWorkspaceHealthInput, now_ms: i64) -> (health: SupervisorHealth)
        ensures
            health == computed_health(self@, snapshot@.workspace_id, snapshot@.connected, now_ms),
    {
        if !snapshot.connected {
            return SupervisorHealth::Disconnected;
        }
        match self.workspace_last_event_at_ms.get(snapshot.workspace_id.as_str()) {
            None => SupervisorHealth::Stale,
            Some(last) => {
                let wide: i128 = (now_ms as i128) - (*last as i128);
                let age: i64 = if wide > 0x7fff_ffff_ffff_ffffi128 {
                    0x7fff_ffff_ffff_ffffi64
                } else if wide < -0x8000_0000_0000_0000i128 {
                    -0x8000_0000_0000_0000i64
                } else {
                    wide as i64
                };
                if age >= self.config.disconnected_after_ms {
                    SupervisorHealth::Disconnected
                } else if age >= self.config.stale_after_ms {
                    SupervisorHealth::Stale
                } else {
                    SupervisorHealth::Healthy
                }
            },
        }
    }

    /// Checks the health of one workspace.
    pub fn check_workspace_health(&mut self, snapshot: &SupervisorWorkspaceHealthInput, now_ms: i64)
        ensures
            final(self)@ == health_step(old(self)@, snapshot@, now_ms),
    {
        let previous = match self.state.workspaces.get(snapshot.workspace_id.as_str()) {
            Some(w) => w.health,
            None => SupervisorHealth::Healthy,
        };
        let next = self.compute_health(snapshot, now_ms);
        let last_activity = match self.workspace_last_event_at_ms.get(snapshot.workspace_id.as_str()) {
            Some(at) => Some(*at),
            None => None,
        };
        let mut workspace = self.workspace_state(snapshot.workspace_id.as_str());
        match &snapshot.workspace_name {
            Some(name) => {
                let cut = name.as_str().trim();
                if cut.unicode_len() > 0 {
                    workspace.name = cut.to_owned();
                }
            },
            None => {},
        }
        workspace.connected = snapshot.connected;
        workspace.health = next;
        match last_activity {
            Some(at) => {
                workspace.last_activity_at_ms = Some(at);
            },
            None => {},
        }
        apply_update(&mut self.state, SupervisorStateUpdate::UpsertWorkspace(workspace));
        if previous == next {
            return ;
        }
        match next {
            SupervisorHealth::Stale => {
                self.push_signal(
                    SupervisorSignal {
                        id: join3("health:", snapshot.workspace_id.as_str(), ":stalled"),
                        kind: SupervisorSignalKind::Stalled,
                        workspace_id: Some(snapshot.workspace_id.clone()),
                        thread_id: None,
                        job_id: None,
                        message: "Workspace is stale (no recent events).".to_owned(),
                        created_at_ms: now_ms,
                        acknowledged_at_ms: None,
                        context: health_metadata("stale"),
                    },
                );
            },
            SupervisorHealth::Disconnected => {
                self.push_signal(
                    SupervisorSignal {
                        id: join3("health:", snapshot.workspace_id.as_str(), ":disconnected"),
                        kind: SupervisorSignalKind::Disconnected,
                        workspace_id: Some(snapshot.workspace_id.clone()),
                        thread_id: None,
                        job_id: None,
                        message: "Workspace appears disconnected.".to_owned(),
                        created_at_ms: now_ms,
                        acknowledged_at_ms: None,
                        context: health_metadata("disconnected"),
                    },
                );
            },
            SupervisorHealth::Healthy => {},
        }
    }

    /// Checks the health of the workspaces, one after the other.
    pub fn run_health_check(&mut self, snapshots: &Vec<SupervisorWorkspaceHealthInput>, now_ms: i64)
        ensures
            final(self)@ == health_checked(old(self)@, snapshots.deep_view(), now_ms),
            final(self)@.state.jobs == old(self)@.state.jobs,
            well_formed(old(self)@.state) ==> well_formed(final(self)@.state),
    {
        proof {
            lemma_health_check_keeps_jobs(self@, snapshots.deep_view(), now_ms);
            if well_formed(self@.state) {
                lemma_health_check_keeps_well_formed(self@, snapshots.deep_view(), now_ms);
            }
        }
        let ghost inputs = snapshots.deep_view();
        let ghost start = self@;
        let mut i: usize = 0;
        assert(inputs.take(0) =~= Seq::<HealthInputModel>::empty());
        while i < snapshots.len()
            invariant
                i <= snapshots.len(),
                inputs == snapshots.deep_view(),
                self@ == health_checked(start, inputs.take(i as int), now_ms),
            decreases snapshots.len() - i,
        {
            proof {
                assert(inputs.take(i + 1).drop_last() =~= inputs.take(i as int));
                assert(inputs.take(i + 1).last() == inputs[i as int]);
            }
            self.check_workspace_health(&snapshots[i], now_ms);
            i += 1;
        }
        assert(inputs.take(i as int) =~= inputs);
    }

    /// The jobs that wait for a reply of the operator, the latest request first.
    pub fn waiting_jobs(&self) -> (waiting: Vec<SupervisorJobState>)
        ensures
            waiting.deep_view() == waiting_jobs_of(self@.state.jobs),
    {
        let ghost jobs = self.state.jobs@;
        let ghost matcher = waiting_matcher();
        let mut places: Vec<usize> = Vec::new();
        let mut keys: Vec<RankKey> = Vec::new();
        let mut i: usize = 0;
        assert(jobs.take(0) =~= Seq::<(Seq<char>, JobModel)>::empty());
        assert(jobs.take(0).filter(matcher) =~= Seq::<(Seq<char>, JobModel)>::empty()) by {
            reveal(Seq::filter);
        }
        assert(keys.deep_view() =~= waiting_ranks(jobs.take(0).filter(matcher)));
        while i < self.state.jobs.len()
            invariant
                i <= jobs.len(),
                jobs == self.state.jobs@,
                matcher == waiting_matcher(),
                places@.len() == keys@.len(),
                places@.len() == jobs.take(i as int).filter(matcher).len(),
                forall|k: int| 0 <= k < places@.len() ==> (#[trigger] places@[k]) < i && jobs[places@[k] as int]
                    == jobs.take(i as int).filter(matcher)[k],
                keys.deep_view() == waiting_ranks(jobs.take(i as int).filter(matcher)),
            decreases jobs.len() - i,
        {
            let job = self.state.jobs.value_at(i);
            let waits = match job.status {
                SupervisorJobStatus::WaitingForUser => true,
                _ => false,
            } && job.waiting_request_id.is_some() && job.workspace_id.as_str().trim().unicode_len() > 0;
            proof {
                assert(jobs.take(i + 1) =~= jobs.take(i as int).push(jobs[i as int]));
                jobs.take(i as int).lemma_filter_push(jobs[i as int], matcher);
                assert(matcher(jobs[i as int]) == job_awaits_reply(jobs[i as int].1));
            }
            if waits {
                let ghost before_keys = keys.deep_view();
                keys.push(RankKey { major: job.requested_at_ms, minor: 0, label: job.id.clone() });
                places.push(i);
                assert(keys.deep_view() =~= before_keys.push(
                    RankKeyModel { major: jobs[i as int].1.requested_at_ms, minor: 0, label: jobs[i as int].1.id },
                ));
                assert(keys.deep_view() =~= waiting_ranks(jobs.take(i + 1).filter(matcher)));
            }
            i += 1;
        }
        assert(jobs.take(i as int) =~= jobs);
        let ghost waiting_models = jobs.filter(matcher);
        let order = rank_order(&keys);
        let mut out: Vec<SupervisorJobState> = Vec::new();
        let mut k: usize = 0;
        while k < order.len()
            invariant
                k <= order.len(),
                order@.len() == places@.len(),
                jobs == self.state.jobs@,
                waiting_models == jobs.filter(matcher),
                places@.len() == waiting_models.len(),
                forall|n: int| 0 <= n < order@.len() ==> (#[trigger] order@[n]) < places@.len(),
                forall|n: int| 0 <= n < places@.len() ==> (#[trigger] places@[n]) < jobs.len() && jobs[places@[n] as int]
                    == waiting_models[n],
                out@.len() == k,
                forall|n: int| 0 <= n < k ==> (#[trigger] out@[n])@ == waiting_models[order@[n] as int].1,
            decreases order.len() - k,
        {
            let place = places[order[k]];
            out.push(self.state.jobs.value_at(place).clone());
            k += 1;
        }
        assert(out.deep_view() =~= waiting_jobs_of(jobs));
        out
    }

    /// Records how a free-form message was routed.
    pub fn record_route_decision(&mut self, route_id: &str, message: String, created_at_ms: i64, metadata: JsonValue)
        ensures
            final(self)@ == (LoopModel {
                state: with_activity(
                    old(self)@.state,
                    old(self)@.config.activity_feed_limit,
                    ActivityModel {
                        id: "route_decision:"@ + route_id@ + ":"@ + integer_text(created_at_ms as int),
                        kind: "route_decision"@,
                        message: message@,
                        created_at_ms,
                        workspace_id: None,
                        thread_id: None,
                        needs_input: false,
                        metadata: metadata@,
                    },
                ),
                ..old(self)@
            }),
            final(self)@.state.jobs == old(self)@.state.jobs,
            well_formed(old(self)@.state) ==> well_formed(final(self)@.state),
    {
        let mut id = "route_decision:".to_owned();
        id.append(route_id);
        id.append(":");
        id.append(decimal(created_at_ms as i128).as_str());
        self.push_activity(
            SupervisorActivityEntry {
                id,
                kind: "route_decision".to_owned(),
                message,
                created_at_ms,
                workspace_id: None,
                thread_id: None,
                needs_input: false,
                metadata,
            },
        );
    }

    /// Records that the operator's reply reached the job: refused, with the
    /// reason and nothing changed, where the job is unknown, does not wait,
    /// or waits on another request.
    pub fn mark_reply_delivered(
        &mut self,
        job_id: &str,
        request_id: &JsonValue,
        reply_preview: &str,
        delivered_at_ms: i64,
    ) -> (outcome: Result<(), String>)
        ensures
            match outcome {
                Ok(_) => reply_refusal(old(self)@.state, job_id@, request_id@) is None && final(self)@
                    == reply_delivered(old(self)@, job_id@, request_id@, reply_preview@, delivered_at_ms),
                Err(reason) => reply_refusal(old(self)@.state, job_id@, request_id@) == Some(reason@) && final(self)@
                    == old(self)@,
            },
            jobs_consistent(old(self)@.state.jobs) ==> jobs_consistent(final(self)@.state.jobs),
            well_formed(old(self)@.state) ==> well_formed(final(self)@.state),
    {
        proof {
            if reply_refusal(self@.state, job_id@, request_id@) is None {
                if jobs_consistent(self@.state.jobs) {
                    lemma_reply_keeps_jobs_consistent(self@, job_id@, request_id@, reply_preview@, delivered_at_ms);
                }
                if well_formed(self@.state) {
                    lemma_reply_keeps_well_formed(self@, job_id@, request_id@, reply_preview@, delivered_at_ms);
                }
            }
        }
        let existing = match self.state.jobs.get(job_id) {
            Some(job) => job.clone(),
            None => {
                return Err(join3("subtask `", job_id, "` is not tracked"));
            },
        };
        match existing.status {
            SupervisorJobStatus::WaitingForUser => {},
            _ => {
                return Err(join3("subtask `", job_id, "` is not waiting for user input anymore"));
            },
        }
        match &existing.waiting_request_id {
            None => {
                return Err(join3("subtask `", job_id, "` no longer has a pending request to answer"));
            },
            Some(waiting) => {
                if !json_same(waiting, request_id) {
                    return Err(join3("subtask `", job_id, "` is waiting on a different request id"));
                }
            },
        }
        let mut updated = existing;
        updated.status = SupervisorJobStatus::Running;
        updated.waiting_request_id = None;
        updated.waiting_question_ids = Vec::new();
        assert(updated.waiting_question_ids.deep_view() =~= Seq::<Seq<char>>::empty());
        let request_key = request_value_key(updated.workspace_id.as_str(), request_id);
        let summary = summarize_text(reply_preview, 180);
        let mut event_id = "reply_delivered:".to_owned();
        event_id.append(job_id);
        event_id.append(":");
        event_id.append(request_key.as_str());
        let _ = Self::append_subtask_event(
            &mut updated,
            SupervisorSubtaskEvent {
                id: event_id,
                kind: "reply_delivered".to_owned(),
                message: join3("Reply delivered to child request `", request_key.as_str(), "`."),
                created_at_ms: delivered_at_ms,
                metadata: two_text_metadata("requestKey", request_key.as_str(), "replySummary", summary.as_str()),
            },
        );
        let stored = updated.clone();
        self.upsert_job(updated);
        apply_update(
            &mut self.state,
            SupervisorStateUpdate::ResolveOpenQuestion {
                question_id: request_key.clone(),
                resolved_at_ms: delivered_at_ms,
            },
        );
        let mut activity_id = "reply_delivered:".to_owned();
        activity_id.append(stored.id.as_str());
        activity_id.append(":");
        activity_id.append(request_key.as_str());
        activity_id.append(":");
        activity_id.append(decimal(delivered_at_ms as i128).as_str());
        self.push_activity(
            SupervisorActivityEntry {
                id: activity_id,
                kind: "reply_delivered".to_owned(),
                message: join3("Reply delivered for subtask `", stored.id.as_str(), "`."),
                created_at_ms: delivered_at_ms,
                workspace_id: Some(stored.workspace_id.clone()),
                thread_id: stored.thread_id.clone(),
                needs_input: false,
                metadata: three_text_metadata(
                    "subtaskId",
                    stored.id.as_str(),
                    "requestKey",
                    request_key.as_str(),
                    "replySummary",
                    summary.as_str(),
                ),
            },
        );
        let chat = join3("Reply delivered to child task request `", request_key.as_str(), "`. Continuing execution.");
        self.push_subtask_chat_message(&stored, chat.as_str(), "reply_delivered", delivered_at_ms);
        Ok(())
    }

    /// Records that the operator's reply did not reach the job.
    pub fn mark_reply_delivery_failed(&mut self, job_id: &str, request_id: &JsonValue, error: &str, failed_at_ms: i64)
        ensures
            final(self)@ == reply_delivery_failed(old(self)@, job_id@, request_id@, error@, failed_at_ms),
            jobs_consistent(old(self)@.state.jobs) ==> jobs_consistent(final(self)@.state.jobs),
            well_formed(old(self)@.state) ==> well_formed(final(self)@.state),
    {
        proof {
            if jobs_consistent(self@.state.jobs) {
                lemma_failed_reply_keeps_jobs_consistent(self@, job_id@, request_id@, error@, failed_at_ms);
            }
            if well_formed(self@.state) {
                lemma_reply_keeps_well_formed(self@, job_id@, request_id@, error@, failed_at_ms);
            }
        }
        let existing = match self.state.jobs.get(job_id) {
            Some(job) => job.clone(),
            None => {
                return ;
            },
        };
        let request_key = request_value_key(existing.workspace_id.as_str(), request_id);
        let mut updated = existing;
        let mut event_id = "reply_delivery_failed:".to_owned();
        event_id.append(job_id);
        event_id.append(":");
        event_id.append(request_key.as_str());
        let mut message = "Reply delivery failed: ".to_owned();
        message.append(error);
        let added = Self::append_subtask_event(
            &mut updated,
            SupervisorSubtaskEvent {
                id: event_id,
                kind: "failed".to_owned(),
                message: message.clone(),
                created_at_ms: failed_at_ms,
                metadata: two_text_metadata("requestKey", request_key.as_str(), "error", error),
            },
        );
        let stored = updated.clone();
        self.upsert_job(updated);
        let mut activity_id = "reply_delivery_failed:".to_owned();
        activity_id.append(job_id);
        activity_id.append(":");
        activity_id.append(request_key.as_str());
        activity_id.append(":");
        activity_id.append(decimal(failed_at_ms as i128).as_str());
        self.push_activity(
            SupervisorActivityEntry {
                id: activity_id,
                kind: "reply_delivery_failed".to_owned(),
                message: join3("Failed to deliver reply for subtask `", job_id, "`."),
                created_at_ms: failed_at_ms,
                workspace_id: Some(stored.workspace_id.clone()),
                thread_id: stored.thread_id.clone(),
                needs_input: true,
                metadata: three_text_metadata(
                    "subtaskId",
                    job_id,
                    "requestKey",
                    request_key.as_str(),
                    "error",
                    error,
                ),
            },
        );
        if added {
            self.push_subtask_chat_message(&stored, message.as_str(), "reply_delivery_failed", failed_at_ms);
        }
    }
}

} // verus!
