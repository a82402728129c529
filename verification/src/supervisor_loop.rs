use vstd::prelude::*;
use vstd::string::*;

use crate::model::{
    ActivityModel, ChatMessageModel, JobModel, SignalModel, StateModel, SubtaskEventModel,
    SupervisorActivityEntry, SupervisorChatMessage, SupervisorChatMessageRole, SupervisorHealth,
    SupervisorJobState, SupervisorSignal, SupervisorState, SupervisorSubtaskEvent, SupervisorThreadState,
    SupervisorThreadStatus, SupervisorWorkspaceState, ThreadModel, WorkspaceModel,
    DEFAULT_ACTIVITY_FEED_LIMIT, DEFAULT_CHAT_HISTORY_LIMIT, SUPERVISOR_SUBTASK_EVENT_LIMIT,
};
use crate::order::{rank_order, ranking, RankKey, RankKeyModel};
use crate::reducer::{apply_update, reduced, thread_key, thread_map_key, SupervisorStateUpdate, UpdateModel};
use crate::table::{table_get, table_put, Record, Table};
use crate::text::{decimal, integer_text, text_eq};

use crate::loop_laws::jobs_consistent;
use crate::reducer_laws::well_formed;

verus! {

/// How often the health of the workspaces is checked, in milliseconds.
pub const SUPERVISOR_HEALTH_TICK_MS: u64 = 10_000;

/// The thresholds and limits of a supervisor loop.
#[derive(Debug, Clone, Copy, PartialEq, Eq)]
pub struct SupervisorLoopConfig {
    pub stale_after_ms: i64,
    pub disconnected_after_ms: i64,
    pub activity_feed_limit: usize,
}

impl Default for SupervisorLoopConfig {
    fn default() -> (config: Self)
        ensures
            config.stale_after_ms == 90_000,
            config.disconnected_after_ms == 300_000,
            config.activity_feed_limit == DEFAULT_ACTIVITY_FEED_LIMIT,
    {
        SupervisorLoopConfig {
            stale_after_ms: 90_000,
            disconnected_after_ms: 300_000,
            activity_feed_limit: DEFAULT_ACTIVITY_FEED_LIMIT,
        }
    }
}

impl Record for i64 {
    fn copy_record(&self) -> (copy: Self) {
        *self
    }
}

/// The supervisor's state together with the time of the last event of each workspace.
#[derive(Debug)]
pub struct SupervisorLoop {
    pub state: SupervisorState,
    pub config: SupervisorLoopConfig,
    pub workspace_last_event_at_ms: Table<i64>,
}

/// Mathematical model of [`SupervisorLoop`].
pub struct LoopModel {
    pub state: StateModel,
    pub config: SupervisorLoopConfig,
    pub last_event: Seq<(Seq<char>, i64)>,
}

impl View for SupervisorLoop {
    type V = LoopModel;

    open spec fn view(&self) -> LoopModel {
        LoopModel { state: self.state@, config: self.config, last_event: self.workspace_last_event_at_ms@ }
    }
}

impl Clone for SupervisorLoop {
    fn clone(&self) -> (copy: Self)
        ensures
            copy@ == self@,
    {
        SupervisorLoop {
            state: self.state.clone(),
            config: self.config,
            workspace_last_event_at_ms: self.workspace_last_event_at_ms.clone(),
        }
    }
}

impl Default for SupervisorLoop {
    fn default() -> (lp: Self)
        ensures
            lp@.state == SupervisorState::blank(),
            lp@.last_event == Seq::<(Seq<char>, i64)>::empty(),
            lp@.config.stale_after_ms == 90_000,
            lp@.config.disconnected_after_ms == 300_000,
            lp@.config.activity_feed_limit == DEFAULT_ACTIVITY_FEED_LIMIT,
    {
        SupervisorLoop::new(SupervisorLoopConfig::default())
    }
}

/// What the supervisor knows of a workspace, or a blank record with its id.
pub open spec fn workspace_or_blank(state: StateModel, workspace_id: Seq<char>) -> WorkspaceModel {
    match table_get(state.workspaces, workspace_id) {
        Some(w) => w,
        None => WorkspaceModel { id: workspace_id, ..SupervisorWorkspaceState::blank() },
    }
}

/// What the supervisor knows of a thread, or a blank record with its ids.
pub open spec fn thread_or_blank(state: StateModel, workspace_id: Seq<char>, thread_id: Seq<char>) -> ThreadModel {
    match table_get(state.threads, thread_key(workspace_id, thread_id)) {
        Some(t) => t,
        None => ThreadModel { id: thread_id, workspace_id, ..SupervisorThreadState::blank() },
    }
}

/// The state after an entry was pushed to the activity feed.
pub open spec fn with_activity(state: StateModel, limit: usize, entry: ActivityModel) -> StateModel {
    reduced(state, UpdateModel::PushActivity { entry, max_items: limit })
}

/// The state after a signal was raised.
pub open spec fn with_signal(state: StateModel, signal: SignalModel) -> StateModel {
    reduced(state, UpdateModel::PushSignal(signal))
}

/// The state after a message was added to the chat history.
pub open spec fn with_chat(state: StateModel, message: ChatMessageModel) -> StateModel {
    reduced(state, UpdateModel::PushChatMessage { message, max_items: DEFAULT_CHAT_HISTORY_LIMIT })
}

/// Whether one of the events has the given id.
pub open spec fn has_event(events: Seq<SubtaskEventModel>, id: Seq<char>) -> bool {
    exists|i: int| 0 <= i < events.len() && (#[trigger] events[i]).id == id
}

/// The recent events after `event` was appended: unchanged where an event
/// has its id already, and otherwise with `event` at the end and the oldest
/// dropped so that no more than the limit stay.
pub open spec fn appended_events(events: Seq<SubtaskEventModel>, event: SubtaskEventModel) -> Seq<SubtaskEventModel> {
    if has_event(events, event.id) {
        events
    } else {
        let all = events.push(event);
        if all.len() > SUPERVISOR_SUBTASK_EVENT_LIMIT {
            all.skip(all.len() - SUPERVISOR_SUBTASK_EVENT_LIMIT)
        } else {
            all
        }
    }
}

/// The line that carries news of a job into the supervisor chat.
pub open spec fn bridge_message(job: JobModel, message: Seq<char>, kind: Seq<char>, at_ms: i64) -> ChatMessageModel {
    let thread_label = match job.thread_id {
        Some(t) => t,
        None => "-"@,
    };
    ChatMessageModel {
        id: "chat-bridge:"@ + kind + ":"@ + job.id + ":"@ + integer_text(at_ms as int),
        role: SupervisorChatMessageRole::System,
        text: "[subtask:"@ + job.id + " ws:"@ + job.workspace_id + " thread:"@ + thread_label + "]"@ + " "@ + message,
        created_at_ms: at_ms,
    }
}

/// The state after a job took a step: the event joins the job's recent
/// events, the job is stored, and where the event was new a line goes to the
/// chat.
pub open spec fn with_job_progress(
    state: StateModel,
    job: JobModel,
    event: SubtaskEventModel,
    chat_text: Seq<char>,
    kind: Seq<char>,
    at_ms: i64,
) -> StateModel {
    let added = !has_event(job.recent_events, event.id);
    let stored = JobModel { recent_events: appended_events(job.recent_events, event), ..job };
    let next = reduced(state, UpdateModel::UpsertJob(stored));
    if added {
        with_chat(next, bridge_message(stored, chat_text, kind, at_ms))
    } else {
        next
    }
}

/// The loop after the time of an event of a workspace was recorded.
pub open spec fn with_heartbeat(lp: LoopModel, workspace_id: Seq<char>, at_ms: i64) -> LoopModel {
    LoopModel { last_event: table_put(lp.last_event, workspace_id, at_ms), ..lp }
}

/// The loop after activity on a thread: the workspace is connected and
/// healthy, and the thread has the given status and turn.
pub open spec fn with_thread_activity(
    lp: LoopModel,
    workspace_id: Seq<char>,
    thread_id: Seq<char>,
    active_turn_id: Option<Seq<char>>,
    status: SupervisorThreadStatus,
    task: Option<Seq<char>>,
    at_ms: i64,
) -> LoopModel {
    let beat = with_heartbeat(lp, workspace_id, at_ms);
    let known = workspace_or_blank(beat.state, workspace_id);
    let workspace = WorkspaceModel {
        connected: true,
        health: SupervisorHealth::Healthy,
        last_activity_at_ms: Some(at_ms),
        active_thread_id: Some(thread_id),
        current_task: if task is Some {
            task
        } else {
            known.current_task
        },
        ..known
    };
    let s1 = reduced(beat.state, UpdateModel::UpsertWorkspace(workspace));
    let old_thread = thread_or_blank(s1, workspace_id, thread_id);
    let thread = ThreadModel {
        status,
        last_activity_at_ms: Some(at_ms),
        current_task: if task is Some {
            task
        } else {
            old_thread.current_task
        },
        active_turn_id,
        ..old_thread
    };
    LoopModel { state: reduced(s1, UpdateModel::UpsertThread(thread)), ..beat }
}

/// Whether a job is a candidate for an event of the workspace, and of the
/// thread where one is named.
pub open spec fn job_matches(job: JobModel, workspace_id: Seq<char>, thread_id: Option<Seq<char>>) -> bool {
    job.workspace_id == workspace_id && (thread_id is Some ==> job.thread_id == thread_id)
}

/// The test that picks the candidates among the stored jobs.
pub open spec fn job_matcher(workspace_id: Seq<char>, thread_id: Option<Seq<char>>) -> spec_fn(
    (Seq<char>, JobModel),
) -> bool {
    |e: (Seq<char>, JobModel)| job_matches(e.1, workspace_id, thread_id)
}

/// What a job is ranked by: live before ended, then the later request, then the smaller id.
pub open spec fn job_rank(job: JobModel) -> RankKeyModel {
    RankKeyModel {
        major: if job.status.terminal() {
            0
        } else {
            1
        },
        minor: job.requested_at_ms,
        label: job.id,
    }
}

/// The ranks of the jobs, in their order.
pub open spec fn job_ranks(jobs: Seq<(Seq<char>, JobModel)>) -> Seq<RankKeyModel> {
    Seq::new(jobs.len(), |i: int| job_rank(jobs[i].1))
}

/// The job that an event of the workspace (and thread) is about: the first
/// of the candidates by rank.
pub open spec fn matching_job(
    jobs: Seq<(Seq<char>, JobModel)>,
    workspace_id: Seq<char>,
    thread_id: Option<Seq<char>>,
) -> Option<JobModel> {
    let candidates = jobs.filter(job_matcher(workspace_id, thread_id));
    if candidates.len() == 0 {
        None
    } else {
        Some(candidates[ranking(job_ranks(candidates))[0] as int].1)
    }
}

impl SupervisorLoop {
    /// A loop that knows nothing yet.
    pub fn new(config: SupervisorLoopConfig) -> (lp: Self)
        ensures
            lp@ == (LoopModel { state: SupervisorState::blank(), config, last_event: Seq::empty() }),
            well_formed(lp@.state),
            jobs_consistent(lp@.state.jobs),
    {
        SupervisorLoop { state: SupervisorState::default(), config, workspace_last_event_at_ms: Table::new() }
    }

    /// A copy of the state.
    pub fn snapshot(&self) -> (state: SupervisorState)
        ensures
            state@ == self@.state,
    {
        self.state.clone()
    }

    /// Records the time of an event of a workspace.
    pub fn record_workspace_heartbeat(&mut self, workspace_id: &str, timestamp_ms: i64)
        ensures
            final(self)@ == with_heartbeat(old(self)@, workspace_id@, timestamp_ms),
    {
        self.workspace_last_event_at_ms.put(workspace_id.to_owned(), timestamp_ms);
    }

    /// What is known of a workspace, or a blank record with its id.
    pub fn workspace_state(&self, workspace_id: &str) -> (workspace: SupervisorWorkspaceState)
        ensures
            workspace@ == workspace_or_blank(self@.state, workspace_id@),
    {
        match self.state.workspaces.get(workspace_id) {
            Some(w) => w.clone(),
            None => {
                let mut blank = SupervisorWorkspaceState::default();
                blank.id = workspace_id.to_owned();
                blank
            },
        }
    }

    /// What is known of a thread, or a blank record with its ids.
    pub fn thread_state(&self, workspace_id: &str, thread_id: &str) -> (thread: SupervisorThreadState)
        ensures
            thread@ == thread_or_blank(self@.state, workspace_id@, thread_id@),
    {
        let key = thread_map_key(workspace_id, thread_id);
        match self.state.threads.get(key.as_str()) {
            Some(t) => t.clone(),
            None => {
                let mut blank = SupervisorThreadState::default();
                blank.id = thread_id.to_owned();
                blank.workspace_id = workspace_id.to_owned();
                blank
            },
        }
    }

    /// Pushes an entry to the activity feed, under the configured limit.
    pub fn push_activity(&mut self, entry: SupervisorActivityEntry)
        ensures
            final(self)@ == (LoopModel {
                state: with_activity(old(self)@.state, old(self)@.config.activity_feed_limit, entry@),
                ..old(self)@
            }),
            final(self)@.state.jobs == old(self)@.state.jobs,
            well_formed(old(self)@.state) ==> well_formed(final(self)@.state),
    {
        let max_items = self.config.activity_feed_limit;
        apply_update(&mut self.state, SupervisorStateUpdate::PushActivity { entry, max_items });
    }

    /// Raises a signal.
    pub fn push_signal(&mut self, signal: SupervisorSignal)
        ensures
            final(self)@ == (LoopModel { state: with_signal(old(self)@.state, signal@), ..old(self)@ }),
            final(self)@.state.jobs == old(self)@.state.jobs,
            well_formed(old(self)@.state) ==> well_formed(final(self)@.state),
    {
        apply_update(&mut self.state, SupervisorStateUpdate::PushSignal(signal));
    }

    /// Adds a message to the chat history.
    pub fn append_chat_message(&mut self, message: SupervisorChatMessage)
        ensures
            final(self)@ == (LoopModel { state: with_chat(old(self)@.state, message@), ..old(self)@ }),
            final(self)@.state.jobs == old(self)@.state.jobs,
            well_formed(old(self)@.state) ==> well_formed(final(self)@.state),
    {
        apply_update(
            &mut self.state,
            SupervisorStateUpdate::PushChatMessage { message, max_items: DEFAULT_CHAT_HISTORY_LIMIT },
        );
    }

    /// The chat history, newest first.
    pub fn chat_history(&self) -> (history: Vec<SupervisorChatMessage>)
        ensures
            history.deep_view() == self@.state.chat_history,
    {
        let history = self.state.chat_history.clone();
        assert(history.deep_view() =~= self.state.chat_history.deep_view());
        history
    }

    /// Stores a job under its id.
    pub fn upsert_job(&mut self, job: SupervisorJobState)
        ensures
            final(self)@ == (LoopModel {
                state: reduced(old(self)@.state, UpdateModel::UpsertJob(job@)),
                ..old(self)@
            }),
    {
        apply_update(&mut self.state, SupervisorStateUpdate::UpsertJob(job));
    }

    /// Marks a signal as acknowledged.
    pub fn ack_signal(&mut self, signal_id: &str, acknowledged_at_ms: i64)
        ensures
            final(self)@ == (LoopModel {
                state: reduced(
                    old(self)@.state,
                    UpdateModel::AckSignal { signal_id: signal_id@, acknowledged_at_ms },
                ),
                ..old(self)@
            }),
            final(self)@.state.jobs == old(self)@.state.jobs,
            well_formed(old(self)@.state) ==> well_formed(final(self)@.state),
    {
        apply_update(
            &mut self.state,
            SupervisorStateUpdate::AckSignal { signal_id: signal_id.to_owned(), acknowledged_at_ms },
        );
    }

    /// Appends an event to the recent events of a job, unless one with its
    /// id is there; says whether it was added.
    pub fn append_subtask_event(job: &mut SupervisorJobState, event: SupervisorSubtaskEvent) -> (added: bool)
        ensures
            added == !has_event(old(job)@.recent_events, event@.id),
            final(job)@ == (JobModel {
                recent_events: appended_events(old(job)@.recent_events, event@),
                ..old(job)@
            }),
            added ==> final(job)@.recent_events.len() <= SUPERVISOR_SUBTASK_EVENT_LIMIT,
    {
        let ghost before = job.recent_events.deep_view();
        let mut i: usize = 0;
        while i < job.recent_events.len()
            invariant
                i <= job.recent_events.len(),
                before == job.recent_events.deep_view(),
                *job == *old(job),
                forall|j: int| 0 <= j < i ==> (#[trigger] before[j]).id != event@.id,
            decreases job.recent_events.len() - i,
        {
            if text_eq(job.recent_events[i].id.as_str(), event.id.as_str()) {
                assert(before[i as int].id == event@.id);
                return false;
            }
            i += 1;
        }
        assert(!has_event(before, event@.id));
        job.recent_events.push(event);
        assert(job.recent_events.deep_view() =~= before.push(event@));
        assert(before.push(event@).skip(0) =~= before.push(event@));
        while job.recent_events.len() > SUPERVISOR_SUBTASK_EVENT_LIMIT
            invariant
                job.recent_events.deep_view() == before.push(event@).skip(
                    before.push(event@).len() - job.recent_events.len(),
                ),
                job.recent_events.len() <= before.len() + 1,
                before.len() + 1 > SUPERVISOR_SUBTASK_EVENT_LIMIT ==> job.recent_events.len()
                    >= SUPERVISOR_SUBTASK_EVENT_LIMIT,
                before.len() + 1 <= SUPERVISOR_SUBTASK_EVENT_LIMIT ==> job.recent_events.len() == before.len() + 1,
                *job == (SupervisorJobState { recent_events: job.recent_events, ..*old(job) }),
            decreases job.recent_events.len(),
        {
            let ghost current = job.recent_events.deep_view();
            job.recent_events.remove(0);
            assert(job.recent_events.deep_view() =~= current.drop_first());
            assert(job.recent_events.deep_view() =~= before.push(event@).skip(
                before.push(event@).len() - job.recent_events.len(),
            ));
        }
        true
    }

    /// Carries news of a job into the supervisor chat.
    pub fn push_subtask_chat_message(&mut self, job: &SupervisorJobState, message: &str, kind: &str, created_at_ms: i64)
        ensures
            final(self)@ == (LoopModel {
                state: with_chat(old(self)@.state, bridge_message(job@, message@, kind@, created_at_ms)),
                ..old(self)@
            }),
    {
        let mut id = "chat-bridge:".to_owned();
        id.append(kind);
        id.append(":");
        id.append(job.id.as_str());
        id.append(":");
        id.append(decimal(created_at_ms as i128).as_str());
        let mut text = "[subtask:".to_owned();
        text.append(job.id.as_str());
        text.append(" ws:");
        text.append(job.workspace_id.as_str());
        text.append(" thread:");
        match &job.thread_id {
            Some(t) => {
                text.append(t.as_str());
            },
            None => {
                text.append("-");
            },
        }
        text.append("]");
        text.append(" ");
        text.append(message);
        self.append_chat_message(
            SupervisorChatMessage { id, role: SupervisorChatMessageRole::System, text, created_at_ms },
        );
    }

    /// Stores a job that took a step, and tells the chat where the step is new.
    pub fn record_job_progress(
        &mut self,
        job: SupervisorJobState,
        event: SupervisorSubtaskEvent,
        chat_text: &str,
        kind: &str,
        at_ms: i64,
    )
        ensures
            final(self)@ == (LoopModel {
                state: with_job_progress(old(self)@.state, job@, event@, chat_text@, kind@, at_ms),
                ..old(self)@
            }),
    {
        let mut job = job;
        let added = Self::append_subtask_event(&mut job, event);
        let stored = job.clone();
        self.upsert_job(job);
        if added {
            self.push_subtask_chat_message(&stored, chat_text, kind, at_ms);
        }
    }

    /// Records activity on a thread.
    pub fn apply_thread_activity(
        &mut self,
        workspace_id: &str,
        thread_id: &str,
        active_turn_id: Option<String>,
        status: SupervisorThreadStatus,
        task: Option<String>,
        timestamp_ms: i64,
    )
        ensures
            final(self)@ == with_thread_activity(
                old(self)@,
                workspace_id@,
                thread_id@,
                active_turn_id.deep_view(),
                status,
                task.deep_view(),
                timestamp_ms,
            ),
    {
        self.record_workspace_heartbeat(workspace_id, timestamp_ms);
        let mut workspace = self.workspace_state(workspace_id);
        workspace.connected = true;
        workspace.health = SupervisorHealth::Healthy;
        workspace.last_activity_at_ms = Some(timestamp_ms);
        workspace.active_thread_id = Some(thread_id.to_owned());
        if task.is_some() {
            workspace.current_task = task.clone();
        }
        apply_update(&mut self.state, SupervisorStateUpdate::UpsertWorkspace(workspace));
        let mut thread = self.thread_state(workspace_id, thread_id);
        thread.status = status;
        thread.last_activity_at_ms = Some(timestamp_ms);
        if task.is_some() {
            thread.current_task = task;
        }
        thread.active_turn_id = active_turn_id;
        apply_update(&mut self.state, SupervisorStateUpdate::UpsertThread(thread));
    }

    /// The job that an event of the workspace (and thread) is about.
    pub fn job_for_event(&self, workspace_id: &str, thread_id: Option<&str>) -> (job: Option<SupervisorJobState>)
        ensures
            job.deep_view() == matching_job(self@.state.jobs, workspace_id@, thread_id.deep_view()),
    {
        let ghost jobs = self.state.jobs@;
        let ghost matcher = job_matcher(workspace_id@, thread_id.deep_view());
        let mut places: Vec<usize> = Vec::new();
        let mut keys: Vec<RankKey> = Vec::new();
        let mut i: usize = 0;
        assert(jobs.take(0) =~= Seq::<(Seq<char>, JobModel)>::empty());
        assert(jobs.take(0).filter(matcher) =~= Seq::<(Seq<char>, JobModel)>::empty()) by {
            reveal(Seq::filter);
        }
        assert(keys.deep_view() =~= job_ranks(jobs.take(0).filter(matcher)));
        while i < self.state.jobs.len()
            invariant
                i <= jobs.len(),
                jobs == self.state.jobs@,
                matcher == job_matcher(workspace_id@, thread_id.deep_view()),
                places@.len() == keys@.len(),
                places@.len() == jobs.take(i as int).filter(matcher).len(),
                forall|k: int| 0 <= k < places@.len() ==> (#[trigger] places@[k]) < i && jobs[places@[k] as int]
                    == jobs.take(i as int).filter(matcher)[k],
                keys.deep_view() == job_ranks(jobs.take(i as int).filter(matcher)),
            decreases jobs.len() - i,
        {
            let job = self.state.jobs.value_at(i);
            let in_workspace = text_eq(job.workspace_id.as_str(), workspace_id);
            let in_thread = match thread_id {
                Some(wanted) => match &job.thread_id {
                    Some(t) => text_eq(t.as_str(), wanted),
                    None => false,
                },
                None => true,
            };
            proof {
                assert(jobs.take(i + 1) =~= jobs.take(i as int).push(jobs[i as int]));
                jobs.take(i as int).lemma_filter_push(jobs[i as int], matcher);
                assert(matcher(jobs[i as int]) == job_matches(jobs[i as int].1, workspace_id@, thread_id.deep_view()));
            }
            if in_workspace && in_thread {
                let ghost before_keys = keys.deep_view();
                let major: i64 = if job.status.is_terminal() {
                    0
                } else {
                    1
                };
                keys.push(RankKey { major, minor: job.requested_at_ms, label: job.id.clone() });
                places.push(i);
                assert(keys.deep_view() =~= before_keys.push(job_rank(jobs[i as int].1)));
                assert(keys.deep_view() =~= job_ranks(jobs.take(i + 1).filter(matcher)));
            }
            i += 1;
        }
        assert(jobs.take(i as int) =~= jobs);
        if places.len() == 0 {
            None
        } else {
            let order = rank_order(&keys);
            let best = places[order[0]];
            Some(self.state.jobs.value_at(best).clone())
        }
    }
}

} // verus!
