use vstd::prelude::*;

use crate::json::{JsonModel, JsonValue};
use crate::table::{Record, Table};

verus! {

/// How many entries the activity feed keeps where no limit is configured.
pub const DEFAULT_ACTIVITY_FEED_LIMIT: usize = 200;

/// How many messages the chat history keeps.
pub const DEFAULT_CHAT_HISTORY_LIMIT: usize = 500;

/// How many recent events a job keeps.
pub const SUPERVISOR_SUBTASK_EVENT_LIMIT: usize = 24;

/// How lively a workspace session is.
#[derive(Debug, Clone, Copy, PartialEq, Eq, Structural)]
pub enum SupervisorHealth {
    Healthy,
    Stale,
    Disconnected,
}

impl SupervisorHealth {
    /// The value that `default` returns.
    pub open spec fn blank() -> SupervisorHealth {
        SupervisorHealth::Healthy
    }
}

impl Default for SupervisorHealth {
    fn default() -> (blank: Self)
        ensures
            blank == Self::blank(),
    {
        SupervisorHealth::Healthy
    }
}

/// What a thread is doing.
#[derive(Debug, Clone, Copy, PartialEq, Eq, Structural)]
pub enum SupervisorThreadStatus {
    Idle,
    Running,
    WaitingInput,
    Failed,
    Completed,
    Stalled,
}

impl SupervisorThreadStatus {
    /// The value that `default` returns.
    pub open spec fn blank() -> SupervisorThreadStatus {
        SupervisorThreadStatus::Idle
    }
}

impl Default for SupervisorThreadStatus {
    fn default() -> (blank: Self)
        ensures
            blank == Self::blank(),
    {
        SupervisorThreadStatus::Idle
    }
}

/// Where a dispatched job stands.
#[derive(Debug, Clone, Copy, PartialEq, Eq, Structural)]
pub enum SupervisorJobStatus {
    Pending,
    Queued,
    Running,
    WaitingForUser,
    Completed,
    Failed,
}

impl SupervisorJobStatus {
    /// The value that `default` returns.
    pub open spec fn blank() -> SupervisorJobStatus {
        SupervisorJobStatus::Pending
    }
}

impl Default for SupervisorJobStatus {
    fn default() -> (blank: Self)
        ensures
            blank == Self::blank(),
    {
        SupervisorJobStatus::Pending
    }
}

/// What a signal asks the operator to look at.
#[derive(Debug, Clone, Copy, PartialEq, Eq, Structural)]
pub enum SupervisorSignalKind {
    NeedsApproval,
    Failed,
    Completed,
    Stalled,
    Disconnected,
}

/// Who wrote a chat message.
#[derive(Debug, Clone, Copy, PartialEq, Eq, Structural)]
pub enum SupervisorChatMessageRole {
    User,
    System,
}

impl SupervisorJobStatus {
    /// Whether the job has ended.
    pub open spec fn terminal(self) -> bool {
        self == SupervisorJobStatus::Completed || self == SupervisorJobStatus::Failed
    }

    /// Whether the job has ended.
    pub fn is_terminal(&self) -> (ended: bool)
        ensures
            ended == self.terminal(),
    {
        match self {
            SupervisorJobStatus::Completed => true,
            SupervisorJobStatus::Failed => true,
            _ => false,
        }
    }
}

/// What the supervisor knows of one workspace.
#[derive(Debug, PartialEq, Eq)]
pub struct SupervisorWorkspaceState {
    pub id: String,
    pub name: String,
    pub connected: bool,
    pub current_task: Option<String>,
    pub last_activity_at_ms: Option<i64>,
    pub next_expected_step: Option<String>,
    pub blockers: Vec<String>,
    pub health: SupervisorHealth,
    pub active_thread_id: Option<String>,
}

/// Mathematical model of [`SupervisorWorkspaceState`].
pub struct WorkspaceModel {
    pub id: Seq<char>,
    pub name: Seq<char>,
    pub connected: bool,
    pub current_task: Option<Seq<char>>,
    pub last_activity_at_ms: Option<i64>,
    pub next_expected_step: Option<Seq<char>>,
    pub blockers: Seq<Seq<char>>,
    pub health: SupervisorHealth,
    pub active_thread_id: Option<Seq<char>>,
}

impl View for SupervisorWorkspaceState {
    type V = WorkspaceModel;

    open spec fn view(&self) -> WorkspaceModel {
        WorkspaceModel {
            id: self.id@,
            name: self.name@,
            connected: self.connected,
            current_task: self.current_task.deep_view(),
            last_activity_at_ms: self.last_activity_at_ms,
            next_expected_step: self.next_expected_step.deep_view(),
            blockers: self.blockers.deep_view(),
            health: self.health,
            active_thread_id: self.active_thread_id.deep_view(),
        }
    }
}

impl DeepView for SupervisorWorkspaceState {
    type V = WorkspaceModel;

    open spec fn deep_view(&self) -> WorkspaceModel {
        self@
    }
}

impl Clone for SupervisorWorkspaceState {
    fn clone(&self) -> (copy: Self)
        ensures
            copy@ == self@,
    {
        let copy = SupervisorWorkspaceState {
            id: self.id.clone(),
            name: self.name.clone(),
            connected: self.connected,
            current_task: self.current_task.clone(),
            last_activity_at_ms: self.last_activity_at_ms,
            next_expected_step: self.next_expected_step.clone(),
            blockers: self.blockers.clone(),
            health: self.health,
            active_thread_id: self.active_thread_id.clone(),
        };
        proof {
            assert(copy.current_task.deep_view() =~= self.current_task.deep_view());
            assert(copy.next_expected_step.deep_view() =~= self.next_expected_step.deep_view());
            assert(copy.blockers.deep_view() =~= self.blockers.deep_view());
            assert(copy.active_thread_id.deep_view() =~= self.active_thread_id.deep_view());
        }
        copy
    }
}

impl SupervisorWorkspaceState {
    /// The model of the value that `default` returns.
    pub open spec fn blank() -> WorkspaceModel {
        WorkspaceModel {
            id: Seq::<char>::empty(),
            name: Seq::<char>::empty(),
            connected: false,
            current_task: None,
            last_activity_at_ms: None,
            next_expected_step: None,
            blockers: Seq::<Seq<char>>::empty(),
            health: SupervisorHealth::blank(),
            active_thread_id: None,
        }
    }
}

impl Default for SupervisorWorkspaceState {
    fn default() -> (blank: Self)
        ensures
            blank@ == Self::blank(),
    {
        let blank = SupervisorWorkspaceState {
            id: String::new(),
            name: String::new(),
            connected: false,
            current_task: None,
            last_activity_at_ms: None,
            next_expected_step: None,
            blockers: Vec::new(),
            health: SupervisorHealth::default(),
            active_thread_id: None,
        };
        proof {
            assert(blank.blockers.deep_view() =~= Self::blank().blockers);
        }
        blank
    }
}

impl Record for SupervisorWorkspaceState {
    fn copy_record(&self) -> (copy: Self) {
        self.clone()
    }
}

/// What the supervisor knows of one thread of a workspace.
#[derive(Debug, PartialEq, Eq)]
pub struct SupervisorThreadState {
    pub id: String,
    pub workspace_id: String,
    pub name: Option<String>,
    pub status: SupervisorThreadStatus,
    pub current_task: Option<String>,
    pub last_activity_at_ms: Option<i64>,
    pub next_expected_step: Option<String>,
    pub blockers: Vec<String>,
    pub active_turn_id: Option<String>,
}

/// Mathematical model of [`SupervisorThreadState`].
pub struct ThreadModel {
    pub id: Seq<char>,
    pub workspace_id: Seq<char>,
    pub name: Option<Seq<char>>,
    pub status: SupervisorThreadStatus,
    pub current_task: Option<Seq<char>>,
    pub last_activity_at_ms: Option<i64>,
    pub next_expected_step: Option<Seq<char>>,
    pub blockers: Seq<Seq<char>>,
    pub active_turn_id: Option<Seq<char>>,
}

impl View for SupervisorThreadState {
    type V = ThreadModel;

    open spec fn view(&self) -> ThreadModel {
        ThreadModel {
            id: self.id@,
            workspace_id: self.workspace_id@,
            name: self.name.deep_view(),
            status: self.status,
            current_task: self.current_task.deep_view(),
            last_activity_at_ms: self.last_activity_at_ms,
            next_expected_step: self.next_expected_step.deep_view(),
            blockers: self.blockers.deep_view(),
            active_turn_id: self.active_turn_id.deep_view(),
        }
    }
}

impl DeepView for SupervisorThreadState {
    type V = ThreadModel;

    open spec fn deep_view(&self) -> ThreadModel {
        self@
    }
}

impl Clone for SupervisorThreadState {
    fn clone(&self) -> (copy: Self)
        ensures
            copy@ == self@,
    {
        let copy = SupervisorThreadState {
            id: self.id.clone(),
            workspace_id: self.workspace_id.clone(),
            name: self.name.clone(),
            status: self.status,
            current_task: self.current_task.clone(),
            last_activity_at_ms: self.last_activity_at_ms,
            next_expected_step: self.next_expected_step.clone(),
            blockers: self.blockers.clone(),
            active_turn_id: self.active_turn_id.clone(),
        };
        proof {
            assert(copy.name.deep_view() =~= self.name.deep_view());
            assert(copy.current_task.deep_view() =~= self.current_task.deep_view());
            assert(copy.next_expected_step.deep_view() =~= self.next_expected_step.deep_view());
            assert(copy.blockers.deep_view() =~= self.blockers.deep_view());
            assert(copy.active_turn_id.deep_view() =~= self.active_turn_id.deep_view());
        }
        copy
    }
}

impl SupervisorThreadState {
    /// The model of the value that `default` returns.
    pub open spec fn blank() -> ThreadModel {
        ThreadModel {
            id: Seq::<char>::empty(),
            workspace_id: Seq::<char>::empty(),
            name: None,
            status: SupervisorThreadStatus::blank(),
            current_task: None,
            last_activity_at_ms: None,
            next_expected_step: None,
            blockers: Seq::<Seq<char>>::empty(),
            active_turn_id: None,
        }
    }
}

impl Default for SupervisorThreadState {
    fn default() -> (blank: Self)
        ensures
            blank@ == Self::blank(),
    {
        let blank = SupervisorThreadState {
            id: String::new(),
            workspace_id: String::new(),
            name: None,
            status: SupervisorThreadStatus::default(),
            current_task: None,
            last_activity_at_ms: None,
            next_expected_step: None,
            blockers: Vec::new(),
            active_turn_id: None,
        };
        proof {
            assert(blank.blockers.deep_view() =~= Self::blank().blockers);
        }
        blank
    }
}

impl Record for SupervisorThreadState {
    fn copy_record(&self) -> (copy: Self) {
        self.clone()
    }
}

/// One step in the life of a job.
#[derive(Debug, PartialEq, Eq)]
pub struct SupervisorSubtaskEvent {
    pub id: String,
    pub kind: String,
    pub message: String,
    pub created_at_ms: i64,
    pub metadata: JsonValue,
}

/// Mathematical model of [`SupervisorSubtaskEvent`].
pub struct SubtaskEventModel {
    pub id: Seq<char>,
    pub kind: Seq<char>,
    pub message: Seq<char>,
    pub created_at_ms: i64,
    pub metadata: JsonModel,
}

impl View for SupervisorSubtaskEvent {
    type V = SubtaskEventModel;

    open spec fn view(&self) -> SubtaskEventModel {
        SubtaskEventModel {
            id: self.id@,
            kind: self.kind@,
            message: self.message@,
            created_at_ms: self.created_at_ms,
            metadata: self.metadata@,
        }
    }
}

impl DeepView for SupervisorSubtaskEvent {
    type V = SubtaskEventModel;

    open spec fn deep_view(&self) -> SubtaskEventModel {
        self@
    }
}

impl Clone for SupervisorSubtaskEvent {
    fn clone(&self) -> (copy: Self)
        ensures
            copy@ == self@,
    {
        let copy = SupervisorSubtaskEvent {
            id: self.id.clone(),
            kind: self.kind.clone(),
            message: self.message.clone(),
            created_at_ms: self.created_at_ms,
            metadata: self.metadata.clone(),
        };
        copy
    }
}

/// A dispatched unit of work.
#[derive(Debug, PartialEq, Eq)]
pub struct SupervisorJobState {
    pub id: String,
    pub workspace_id: String,
    pub thread_id: Option<String>,
    pub dedupe_key: Option<String>,
    pub description: String,
    pub status: SupervisorJobStatus,
    pub requested_at_ms: i64,
    pub started_at_ms: Option<i64>,
    pub completed_at_ms: Option<i64>,
    pub error: Option<String>,
    pub route_kind: Option<String>,
    pub route_reason: Option<String>,
    pub route_target: Option<String>,
    pub route_fallback: Option<String>,
    pub model: Option<String>,
    pub effort: Option<String>,
    pub access_mode: Option<String>,
    pub waiting_request_id: Option<JsonValue>,
    pub waiting_question_ids: Vec<String>,
    pub recent_events: Vec<SupervisorSubtaskEvent>,
}

/// Mathematical model of [`SupervisorJobState`].
pub struct JobModel {
    pub id: Seq<char>,
    pub workspace_id: Seq<char>,
    pub thread_id: Option<Seq<char>>,
    pub dedupe_key: Option<Seq<char>>,
    pub description: Seq<char>,
    pub status: SupervisorJobStatus,
    pub requested_at_ms: i64,
    pub started_at_ms: Option<i64>,
    pub completed_at_ms: Option<i64>,
    pub error: Option<Seq<char>>,
    pub route_kind: Option<Seq<char>>,
    pub route_reason: Option<Seq<char>>,
    pub route_target: Option<Seq<char>>,
    pub route_fallback: Option<Seq<char>>,
    pub model: Option<Seq<char>>,
    pub effort: Option<Seq<char>>,
    pub access_mode: Option<Seq<char>>,
    pub waiting_request_id: Option<JsonModel>,
    pub waiting_question_ids: Seq<Seq<char>>,
    pub recent_events: Seq<SubtaskEventModel>,
}

impl View for SupervisorJobState {
    type V = JobModel;

    open spec fn view(&self) -> JobModel {
        JobModel {
            id: self.id@,
            workspace_id: self.workspace_id@,
            thread_id: self.thread_id.deep_view(),
            dedupe_key: self.dedupe_key.deep_view(),
            description: self.description@,
            status: self.status,
            requested_at_ms: self.requested_at_ms,
            started_at_ms: self.started_at_ms,
            completed_at_ms: self.completed_at_ms,
            error: self.error.deep_view(),
            route_kind: self.route_kind.deep_view(),
            route_reason: self.route_reason.deep_view(),
            route_target: self.route_target.deep_view(),
            route_fallback: self.route_fallback.deep_view(),
            model: self.model.deep_view(),
            effort: self.effort.deep_view(),
            access_mode: self.access_mode.deep_view(),
            waiting_request_id: self.waiting_request_id.deep_view(),
            waiting_question_ids: self.waiting_question_ids.deep_view(),
            recent_events: self.recent_events.deep_view(),
        }
    }
}

impl DeepView for SupervisorJobState {
    type V = JobModel;

    open spec fn deep_view(&self) -> JobModel {
        self@
    }
}

impl Clone for SupervisorJobState {
    fn clone(&self) -> (copy: Self)
        ensures
            copy@ == self@,
    {
        let copy = SupervisorJobState {
            id: self.id.clone(),
            workspace_id: self.workspace_id.clone(),
            thread_id: self.thread_id.clone(),
            dedupe_key: self.dedupe_key.clone(),
            description: self.description.clone(),
            status: self.status,
            requested_at_ms: self.requested_at_ms,
            started_at_ms: self.started_at_ms,
            completed_at_ms: self.completed_at_ms,
            error: self.error.clone(),
            route_kind: self.route_kind.clone(),
            route_reason: self.route_reason.clone(),
            route_target: self.route_target.clone(),
            route_fallback: self.route_fallback.clone(),
            model: self.model.clone(),
            effort: self.effort.clone(),
            access_mode: self.access_mode.clone(),
            waiting_request_id: self.waiting_request_id.clone(),
            waiting_question_ids: self.waiting_question_ids.clone(),
            recent_events: self.recent_events.clone(),
        };
        proof {
            assert(copy.thread_id.deep_view() =~= self.thread_id.deep_view());
            assert(copy.dedupe_key.deep_view() =~= self.dedupe_key.deep_view());
            assert(copy.error.deep_view() =~= self.error.deep_view());
            assert(copy.route_kind.deep_view() =~= self.route_kind.deep_view());
            assert(copy.route_reason.deep_view() =~= self.route_reason.deep_view());
            assert(copy.route_target.deep_view() =~= self.route_target.deep_view());
            assert(copy.route_fallback.deep_view() =~= self.route_fallback.deep_view());
            assert(copy.model.deep_view() =~= self.model.deep_view());
            assert(copy.effort.deep_view() =~= self.effort.deep_view());
            assert(copy.access_mode.deep_view() =~= self.access_mode.deep_view());
            assert(copy.waiting_request_id.deep_view() =~= self.waiting_request_id.deep_view());
            assert(copy.waiting_question_ids.deep_view() =~= self.waiting_question_ids.deep_view());
            assert(copy.recent_events.deep_view() =~= self.recent_events.deep_view());
        }
        copy
    }
}

impl SupervisorJobState {
    /// The model of the value that `default` returns.
    pub open spec fn blank() -> JobModel {
        JobModel {
            id: Seq::<char>::empty(),
            workspace_id: Seq::<char>::empty(),
            thread_id: None,
            dedupe_key: None,
            description: Seq::<char>::empty(),
            status: SupervisorJobStatus::blank(),
            requested_at_ms: 0,
            started_at_ms: None,
            completed_at_ms: None,
            error: None,
            route_kind: None,
            route_reason: None,
            route_target: None,
            route_fallback: None,
            model: None,
            effort: None,
            access_mode: None,
            waiting_request_id: None,
            waiting_question_ids: Seq::<Seq<char>>::empty(),
            recent_events: Seq::<SubtaskEventModel>::empty(),
        }
    }
}

impl Default for SupervisorJobState {
    fn default() -> (blank: Self)
        ensures
            blank@ == Self::blank(),
    {
        let blank = SupervisorJobState {
            id: String::new(),
            workspace_id: String::new(),
            thread_id: None,
            dedupe_key: None,
            description: String::new(),
            status: SupervisorJobStatus::default(),
            requested_at_ms: 0,
            started_at_ms: None,
            completed_at_ms: None,
            error: None,
            route_kind: None,
            route_reason: None,
            route_target: None,
            route_fallback: None,
            model: None,
            effort: None,
            access_mode: None,
            waiting_request_id: None,
            waiting_question_ids: Vec::new(),
            recent_events: Vec::new(),
        };
        proof {
            assert(blank.waiting_question_ids.deep_view() =~= Self::blank().waiting_question_ids);
            assert(blank.recent_events.deep_view() =~= Self::blank().recent_events);
        }
        blank
    }
}

impl Record for SupervisorJobState {
    fn copy_record(&self) -> (copy: Self) {
        self.clone()
    }
}

/// An alert raised to the operator.
#[derive(Debug, PartialEq, Eq)]
pub struct SupervisorSignal {
    pub id: String,
    pub kind: SupervisorSignalKind,
    pub workspace_id: Option<String>,
    pub thread_id: Option<String>,
    pub job_id: Option<String>,
    pub message: String,
    pub created_at_ms: i64,
    pub acknowledged_at_ms: Option<i64>,
    pub context: JsonValue,
}

/// Mathematical model of [`SupervisorSignal`].
pub struct SignalModel {
    pub id: Seq<char>,
    pub kind: SupervisorSignalKind,
    pub workspace_id: Option<Seq<char>>,
    pub thread_id: Option<Seq<char>>,
    pub job_id: Option<Seq<char>>,
    pub message: Seq<char>,
    pub created_at_ms: i64,
    pub acknowledged_at_ms: Option<i64>,
    pub context: JsonModel,
}

impl View for SupervisorSignal {
    type V = SignalModel;

    open spec fn view(&self) -> SignalModel {
        SignalModel {
            id: self.id@,
            kind: self.kind,
            workspace_id: self.workspace_id.deep_view(),
            thread_id: self.thread_id.deep_view(),
            job_id: self.job_id.deep_view(),
            message: self.message@,
            created_at_ms: self.created_at_ms,
            acknowledged_at_ms: self.acknowledged_at_ms,
            context: self.context@,
        }
    }
}

impl DeepView for SupervisorSignal {
    type V = SignalModel;

    open spec fn deep_view(&self) -> SignalModel {
        self@
    }
}

impl Clone for SupervisorSignal {
    fn clone(&self) -> (copy: Self)
        ensures
            copy@ == self@,
    {
        let copy = SupervisorSignal {
            id: self.id.clone(),
            kind: self.kind,
            workspace_id: self.workspace_id.clone(),
            thread_id: self.thread_id.clone(),
            job_id: self.job_id.clone(),
            message: self.message.clone(),
            created_at_ms: self.created_at_ms,
            acknowledged_at_ms: self.acknowledged_at_ms,
            context: self.context.clone(),
        };
        proof {
            assert(copy.workspace_id.deep_view() =~= self.workspace_id.deep_view());
            assert(copy.thread_id.deep_view() =~= self.thread_id.deep_view());
            assert(copy.job_id.deep_view() =~= self.job_id.deep_view());
        }
        copy
    }
}

/// One entry of the activity feed.
#[derive(Debug, PartialEq, Eq)]
pub struct SupervisorActivityEntry {
    pub id: String,
    pub kind: String,
    pub message: String,
    pub created_at_ms: i64,
    pub workspace_id: Option<String>,
    pub thread_id: Option<String>,
    pub needs_input: bool,
    pub metadata: JsonValue,
}

/// Mathematical model of [`SupervisorActivityEntry`].
pub struct ActivityModel {
    pub id: Seq<char>,
    pub kind: Seq<char>,
    pub message: Seq<char>,
    pub created_at_ms: i64,
    pub workspace_id: Option<Seq<char>>,
    pub thread_id: Option<Seq<char>>,
    pub needs_input: bool,
    pub metadata: JsonModel,
}

impl View for SupervisorActivityEntry {
    type V = ActivityModel;

    open spec fn view(&self) -> ActivityModel {
        ActivityModel {
            id: self.id@,
            kind: self.kind@,
            message: self.message@,
            created_at_ms: self.created_at_ms,
            workspace_id: self.workspace_id.deep_view(),
            thread_id: self.thread_id.deep_view(),
            needs_input: self.needs_input,
            metadata: self.metadata@,
        }
    }
}

impl DeepView for SupervisorActivityEntry {
    type V = ActivityModel;

    open spec fn deep_view(&self) -> ActivityModel {
        self@
    }
}

impl Clone for SupervisorActivityEntry {
    fn clone(&self) -> (copy: Self)
        ensures
            copy@ == self@,
    {
        let copy = SupervisorActivityEntry {
            id: self.id.clone(),
            kind: self.kind.clone(),
            message: self.message.clone(),
            created_at_ms: self.created_at_ms,
            workspace_id: self.workspace_id.clone(),
            thread_id: self.thread_id.clone(),
            needs_input: self.needs_input,
            metadata: self.metadata.clone(),
        };
        proof {
            assert(copy.workspace_id.deep_view() =~= self.workspace_id.deep_view());
            assert(copy.thread_id.deep_view() =~= self.thread_id.deep_view());
        }
        copy
    }
}

/// A question that a child task has asked the operator.
#[derive(Debug, PartialEq, Eq)]
pub struct SupervisorOpenQuestion {
    pub id: String,
    pub workspace_id: String,
    pub thread_id: String,
    pub question: String,
    pub created_at_ms: i64,
    pub resolved_at_ms: Option<i64>,
    pub context: JsonValue,
}

/// Mathematical model of [`SupervisorOpenQuestion`].
pub struct QuestionModel {
    pub id: Seq<char>,
    pub workspace_id: Seq<char>,
    pub thread_id: Seq<char>,
    pub question: Seq<char>,
    pub created_at_ms: i64,
    pub resolved_at_ms: Option<i64>,
    pub context: JsonModel,
}

impl View for SupervisorOpenQuestion {
    type V = QuestionModel;

    open spec fn view(&self) -> QuestionModel {
        QuestionModel {
            id: self.id@,
            workspace_id: self.workspace_id@,
            thread_id: self.thread_id@,
            question: self.question@,
            created_at_ms: self.created_at_ms,
            resolved_at_ms: self.resolved_at_ms,
            context: self.context@,
        }
    }
}

impl DeepView for SupervisorOpenQuestion {
    type V = QuestionModel;

    open spec fn deep_view(&self) -> QuestionModel {
        self@
    }
}

impl Clone for SupervisorOpenQuestion {
    fn clone(&self) -> (copy: Self)
        ensures
            copy@ == self@,
    {
        let copy = SupervisorOpenQuestion {
            id: self.id.clone(),
            workspace_id: self.workspace_id.clone(),
            thread_id: self.thread_id.clone(),
            question: self.question.clone(),
            created_at_ms: self.created_at_ms,
            resolved_at_ms: self.resolved_at_ms,
            context: self.context.clone(),
        };
        copy
    }
}

impl Record for SupervisorOpenQuestion {
    fn copy_record(&self) -> (copy: Self) {
        self.clone()
    }
}

/// A request for approval that has not been answered.
#[derive(Debug, PartialEq, Eq)]
pub struct SupervisorPendingApproval {
    pub request_key: String,
    pub workspace_id: String,
    pub thread_id: Option<String>,
    pub turn_id: Option<String>,
    pub item_id: Option<String>,
    pub request_id: String,
    pub method: String,
    pub params: JsonValue,
    pub created_at_ms: i64,
    pub resolved_at_ms: Option<i64>,
}

/// Mathematical model of [`SupervisorPendingApproval`].
pub struct ApprovalModel {
    pub request_key: Seq<char>,
    pub workspace_id: Seq<char>,
    pub thread_id: Option<Seq<char>>,
    pub turn_id: Option<Seq<char>>,
    pub item_id: Option<Seq<char>>,
    pub request_id: Seq<char>,
    pub method: Seq<char>,
    pub params: JsonModel,
    pub created_at_ms: i64,
    pub resolved_at_ms: Option<i64>,
}

impl View for SupervisorPendingApproval {
    type V = ApprovalModel;

    open spec fn view(&self) -> ApprovalModel {
        ApprovalModel {
            request_key: self.request_key@,
            workspace_id: self.workspace_id@,
            thread_id: self.thread_id.deep_view(),
            turn_id: self.turn_id.deep_view(),
            item_id: self.item_id.deep_view(),
            request_id: self.request_id@,
            method: self.method@,
            params: self.params@,
            created_at_ms: self.created_at_ms,
            resolved_at_ms: self.resolved_at_ms,
        }
    }
}

impl DeepView for SupervisorPendingApproval {
    type V = ApprovalModel;

    open spec fn deep_view(&self) -> ApprovalModel {
        self@
    }
}

impl Clone for SupervisorPendingApproval {
    fn clone(&self) -> (copy: Self)
        ensures
            copy@ == self@,
    {
        let copy = SupervisorPendingApproval {
            request_key: self.request_key.clone(),
            workspace_id: self.workspace_id.clone(),
            thread_id: self.thread_id.clone(),
            turn_id: self.turn_id.clone(),
            item_id: self.item_id.clone(),
            request_id: self.request_id.clone(),
            method: self.method.clone(),
            params: self.params.clone(),
            created_at_ms: self.created_at_ms,
            resolved_at_ms: self.resolved_at_ms,
        };
        proof {
            assert(copy.thread_id.deep_view() =~= self.thread_id.deep_view());
            assert(copy.turn_id.deep_view() =~= self.turn_id.deep_view());
            assert(copy.item_id.deep_view() =~= self.item_id.deep_view());
        }
        copy
    }
}

impl Record for SupervisorPendingApproval {
    fn copy_record(&self) -> (copy: Self) {
        self.clone()
    }
}

/// One line of the supervisor chat.
#[derive(Debug, PartialEq, Eq)]
pub struct SupervisorChatMessage {
    pub id: String,
    pub role: SupervisorChatMessageRole,
    pub text: String,
    pub created_at_ms: i64,
}

/// Mathematical model of [`SupervisorChatMessage`].
pub struct ChatMessageModel {
    pub id: Seq<char>,
    pub role: SupervisorChatMessageRole,
    pub text: Seq<char>,
    pub created_at_ms: i64,
}

impl View for SupervisorChatMessage {
    type V = ChatMessageModel;

    open spec fn view(&self) -> ChatMessageModel {
        ChatMessageModel {
            id: self.id@,
            role: self.role,
            text: self.text@,
            created_at_ms: self.created_at_ms,
        }
    }
}

impl DeepView for SupervisorChatMessage {
    type V = ChatMessageModel;

    open spec fn deep_view(&self) -> ChatMessageModel {
        self@
    }
}

impl Clone for SupervisorChatMessage {
    fn clone(&self) -> (copy: Self)
        ensures
            copy@ == self@,
    {
        let copy = SupervisorChatMessage {
            id: self.id.clone(),
            role: self.role,
            text: self.text.clone(),
            created_at_ms: self.created_at_ms,
        };
        copy
    }
}

/// Everything the supervisor knows; ordered lists are newest first.
#[derive(Debug, PartialEq, Eq)]
pub struct SupervisorState {
    pub workspaces: Table<SupervisorWorkspaceState>,
    pub threads: Table<SupervisorThreadState>,
    pub jobs: Table<SupervisorJobState>,
    pub signals: Vec<SupervisorSignal>,
    pub activity_feed: Vec<SupervisorActivityEntry>,
    pub open_questions: Table<SupervisorOpenQuestion>,
    pub pending_approvals: Table<SupervisorPendingApproval>,
    pub chat_history: Vec<SupervisorChatMessage>,
}

/// Mathematical model of [`SupervisorState`].
pub struct StateModel {
    pub workspaces: Seq<(Seq<char>, WorkspaceModel)>,
    pub threads: Seq<(Seq<char>, ThreadModel)>,
    pub jobs: Seq<(Seq<char>, JobModel)>,
    pub signals: Seq<SignalModel>,
    pub activity_feed: Seq<ActivityModel>,
    pub open_questions: Seq<(Seq<char>, QuestionModel)>,
    pub pending_approvals: Seq<(Seq<char>, ApprovalModel)>,
    pub chat_history: Seq<ChatMessageModel>,
}

impl View for SupervisorState {
    type V = StateModel;

    open spec fn view(&self) -> StateModel {
        StateModel {
            workspaces: self.workspaces@,
            threads: self.threads@,
            jobs: self.jobs@,
            signals: self.signals.deep_view(),
            activity_feed: self.activity_feed.deep_view(),
            open_questions: self.open_questions@,
            pending_approvals: self.pending_approvals@,
            chat_history: self.chat_history.deep_view(),
        }
    }
}

impl DeepView for SupervisorState {
    type V = StateModel;

    open spec fn deep_view(&self) -> StateModel {
        self@
    }
}

impl Clone for SupervisorState {
    fn clone(&self) -> (copy: Self)
        ensures
            copy@ == self@,
    {
        let copy = SupervisorState {
            workspaces: self.workspaces.clone(),
            threads: self.threads.clone(),
            jobs: self.jobs.clone(),
            signals: self.signals.clone(),
            activity_feed: self.activity_feed.clone(),
            open_questions: self.open_questions.clone(),
            pending_approvals: self.pending_approvals.clone(),
            chat_history: self.chat_history.clone(),
        };
        proof {
            assert(copy.signals.deep_view() =~= self.signals.deep_view());
            assert(copy.activity_feed.deep_view() =~= self.activity_feed.deep_view());
            assert(copy.chat_history.deep_view() =~= self.chat_history.deep_view());
        }
        copy
    }
}

impl SupervisorState {
    /// The model of the value that `default` returns.
    pub open spec fn blank() -> StateModel {
        StateModel {
            workspaces: Seq::<(Seq<char>, WorkspaceModel)>::empty(),
            threads: Seq::<(Seq<char>, ThreadModel)>::empty(),
            jobs: Seq::<(Seq<char>, JobModel)>::empty(),
            signals: Seq::<SignalModel>::empty(),
            activity_feed: Seq::<ActivityModel>::empty(),
            open_questions: Seq::<(Seq<char>, QuestionModel)>::empty(),
            pending_approvals: Seq::<(Seq<char>, ApprovalModel)>::empty(),
            chat_history: Seq::<ChatMessageModel>::empty(),
        }
    }
}

impl Default for SupervisorState {
    fn default() -> (blank: Self)
        ensures
            blank@ == Self::blank(),
    {
        let blank = SupervisorState {
            workspaces: Table::new(),
            threads: Table::new(),
            jobs: Table::new(),
            signals: Vec::new(),
            activity_feed: Vec::new(),
            open_questions: Table::new(),
            pending_approvals: Table::new(),
            chat_history: Vec::new(),
        };
        proof {
            assert(blank.signals.deep_view() =~= Self::blank().signals);
            assert(blank.activity_feed.deep_view() =~= Self::blank().activity_feed);
            assert(blank.chat_history.deep_view() =~= Self::blank().chat_history);
        }
        blank
    }
}

} // verus!
