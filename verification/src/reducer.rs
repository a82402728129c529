use vstd::prelude::*;
use vstd::string::*;

use crate::model::{
    ActivityModel, ApprovalModel, ChatMessageModel, JobModel, QuestionModel, SignalModel, StateModel,
    SupervisorActivityEntry, SupervisorChatMessage, SupervisorJobState, SupervisorJobStatus,
    SupervisorOpenQuestion, SupervisorPendingApproval, SupervisorSignal, SupervisorState,
    SupervisorThreadState, SupervisorWorkspaceState, ThreadModel, WorkspaceModel,
    DEFAULT_ACTIVITY_FEED_LIMIT, DEFAULT_CHAT_HISTORY_LIMIT,
};
use crate::table::{
    key_index, lemma_key_index_is, lemma_key_index_none, lemma_marked_is_filter, table_put, table_remove,
    Table,
};
use crate::text::text_eq;

use crate::reducer_laws::{lemma_reduced_keeps_well_formed, well_formed};

verus! {

/// One change to the supervisor state.
#[derive(Debug, PartialEq, Eq)]
pub enum SupervisorStateUpdate {
    UpsertWorkspace(SupervisorWorkspaceState),
    RemoveWorkspace { workspace_id: String },
    UpsertThread(SupervisorThreadState),
    RemoveThread { workspace_id: String, thread_id: String },
    UpsertJob(SupervisorJobState),
    RemoveJob { job_id: String },
    UpdateJobStatus { job_id: String, status: SupervisorJobStatus, at_ms: i64, error: Option<String> },
    PushSignal(SupervisorSignal),
    AckSignal { signal_id: String, acknowledged_at_ms: i64 },
    PushActivity { entry: SupervisorActivityEntry, max_items: usize },
    UpsertOpenQuestion(SupervisorOpenQuestion),
    ResolveOpenQuestion { question_id: String, resolved_at_ms: i64 },
    UpsertPendingApproval(SupervisorPendingApproval),
    ResolvePendingApproval { request_key: String, resolved_at_ms: i64 },
    PushChatMessage { message: SupervisorChatMessage, max_items: usize },
}

/// Mathematical model of [`SupervisorStateUpdate`].
pub enum UpdateModel {
    UpsertWorkspace(WorkspaceModel),
    RemoveWorkspace { workspace_id: Seq<char> },
    UpsertThread(ThreadModel),
    RemoveThread { workspace_id: Seq<char>, thread_id: Seq<char> },
    UpsertJob(JobModel),
    RemoveJob { job_id: Seq<char> },
    UpdateJobStatus { job_id: Seq<char>, status: SupervisorJobStatus, at_ms: i64, error: Option<Seq<char>> },
    PushSignal(SignalModel),
    AckSignal { signal_id: Seq<char>, acknowledged_at_ms: i64 },
    PushActivity { entry: ActivityModel, max_items: usize },
    UpsertOpenQuestion(QuestionModel),
    ResolveOpenQuestion { question_id: Seq<char>, resolved_at_ms: i64 },
    UpsertPendingApproval(ApprovalModel),
    ResolvePendingApproval { request_key: Seq<char>, resolved_at_ms: i64 },
    PushChatMessage { message: ChatMessageModel, max_items: usize },
}

impl View for SupervisorStateUpdate {
    type V = UpdateModel;

    open spec fn view(&self) -> UpdateModel {
        match self {
            SupervisorStateUpdate::UpsertWorkspace(w) => UpdateModel::UpsertWorkspace(w@),
            SupervisorStateUpdate::RemoveWorkspace { workspace_id } => UpdateModel::RemoveWorkspace {
                workspace_id: workspace_id@,
            },
            SupervisorStateUpdate::UpsertThread(t) => UpdateModel::UpsertThread(t@),
            SupervisorStateUpdate::RemoveThread { workspace_id, thread_id } => UpdateModel::RemoveThread {
                workspace_id: workspace_id@,
                thread_id: thread_id@,
            },
            SupervisorStateUpdate::UpsertJob(j) => UpdateModel::UpsertJob(j@),
            SupervisorStateUpdate::RemoveJob { job_id } => UpdateModel::RemoveJob { job_id: job_id@ },
            SupervisorStateUpdate::UpdateJobStatus { job_id, status, at_ms, error } => UpdateModel::UpdateJobStatus {
                job_id: job_id@,
                status: *status,
                at_ms: *at_ms,
                error: error.deep_view(),
            },
            SupervisorStateUpdate::PushSignal(s) => UpdateModel::PushSignal(s@),
            SupervisorStateUpdate::AckSignal { signal_id, acknowledged_at_ms } => UpdateModel::AckSignal {
                signal_id: signal_id@,
                acknowledged_at_ms: *acknowledged_at_ms,
            },
            SupervisorStateUpdate::PushActivity { entry, max_items } => UpdateModel::PushActivity {
                entry: entry@,
                max_items: *max_items,
            },
            SupervisorStateUpdate::UpsertOpenQuestion(q) => UpdateModel::UpsertOpenQuestion(q@),
            SupervisorStateUpdate::ResolveOpenQuestion { question_id, resolved_at_ms } => UpdateModel::ResolveOpenQuestion {
                question_id: question_id@,
                resolved_at_ms: *resolved_at_ms,
            },
            SupervisorStateUpdate::UpsertPendingApproval(a) => UpdateModel::UpsertPendingApproval(a@),
            SupervisorStateUpdate::ResolvePendingApproval { request_key, resolved_at_ms } => UpdateModel::ResolvePendingApproval {
                request_key: request_key@,
                resolved_at_ms: *resolved_at_ms,
            },
            SupervisorStateUpdate::PushChatMessage { message, max_items } => UpdateModel::PushChatMessage {
                message: message@,
                max_items: *max_items,
            },
        }
    }
}

impl DeepView for SupervisorStateUpdate {
    type V = UpdateModel;

    open spec fn deep_view(&self) -> UpdateModel {
        self@
    }
}

/// The key under which a thread is stored: the workspace id, a colon, the thread id.
pub open spec fn thread_key(workspace_id: Seq<char>, thread_id: Seq<char>) -> Seq<char> {
    workspace_id + ":"@ + thread_id
}

/// The key under which a thread is stored.
pub fn thread_map_key(workspace_id: &str, thread_id: &str) -> (key: String)
    ensures
        key@ == thread_key(workspace_id@, thread_id@),
{
    let mut key = workspace_id.to_owned();
    key.append(":");
    key.append(thread_id);
    key
}

/// An item of an ordered list, known by its id.
pub trait Identified: DeepView + Sized {
    /// The id of an item's model.
    spec fn model_id(model: Self::V) -> Seq<char>;

    fn ident(&self) -> (id: &str)
        ensures
            id@ == Self::model_id(self.deep_view()),
    ;
}

impl Identified for SupervisorSignal {
    open spec fn model_id(model: SignalModel) -> Seq<char> {
        model.id
    }

    fn ident(&self) -> (id: &str) {
        self.id.as_str()
    }
}

impl Identified for SupervisorActivityEntry {
    open spec fn model_id(model: ActivityModel) -> Seq<char> {
        model.id
    }

    fn ident(&self) -> (id: &str) {
        self.id.as_str()
    }
}

impl Identified for SupervisorChatMessage {
    open spec fn model_id(model: ChatMessageModel) -> Seq<char> {
        model.id
    }

    fn ident(&self) -> (id: &str) {
        self.id.as_str()
    }
}

/// The place of the first item of `list` with the given id.
pub open spec fn ident_index<T: Identified>(list: Seq<T::V>, id: Seq<char>) -> Option<int> {
    key_index(list.map_values(|m: T::V| (T::model_id(m), m)), id)
}

/// How many items a list keeps: `max_items`, or `fallback` where that is zero.
pub open spec fn effective_limit(max_items: usize, fallback: usize) -> usize {
    if max_items == 0 {
        fallback
    } else {
        max_items
    }
}

/// `list` with `item` in front, without the item that had its id, cut to
/// `limit` items where a limit is given.
pub open spec fn pushed_newest<T: Identified>(list: Seq<T::V>, item: T::V, limit: Option<usize>) -> Seq<T::V> {
    let without = match ident_index::<T>(list, T::model_id(item)) {
        Some(i) => list.remove(i),
        None => list,
    };
    let all = seq![item] + without;
    match limit {
        Some(n) => if all.len() > n {
            all.take(n as int)
        } else {
            all
        },
        None => all,
    }
}

/// The job after a change of status at `at_ms`.
pub open spec fn job_with_status(
    job: JobModel,
    status: SupervisorJobStatus,
    at_ms: i64,
    error: Option<Seq<char>>,
) -> JobModel {
    let started = match status {
        SupervisorJobStatus::Running => Some(at_ms),
        SupervisorJobStatus::Pending => None,
        _ => job.started_at_ms,
    };
    let completed = match status {
        SupervisorJobStatus::Running => None,
        SupervisorJobStatus::Pending => None,
        SupervisorJobStatus::Completed => Some(at_ms),
        SupervisorJobStatus::Failed => Some(at_ms),
        _ => job.completed_at_ms,
    };
    JobModel { status, started_at_ms: started, completed_at_ms: completed, error, ..job }
}

/// `table` with the value under `key`, if there is one, changed by `change`.
pub open spec fn table_changed<M>(table: Seq<(Seq<char>, M)>, key: Seq<char>, change: spec_fn(M) -> M) -> Seq<
    (Seq<char>, M),
> {
    match key_index(table, key) {
        Some(i) => table.update(i, (table[i].0, change(table[i].1))),
        None => table,
    }
}

/// `signals` with the first signal of the given id acknowledged at `at_ms`.
pub open spec fn acknowledged(signals: Seq<SignalModel>, id: Seq<char>, at_ms: i64) -> Seq<SignalModel> {
    match ident_index::<SupervisorSignal>(signals, id) {
        Some(i) => signals.update(i, SignalModel { acknowledged_at_ms: Some(at_ms), ..signals[i] }),
        None => signals,
    }
}

/// Whether a job belongs to the thread `thread_id` of workspace `workspace_id`.
pub open spec fn job_of_thread(job: JobModel, workspace_id: Seq<char>, thread_id: Seq<char>) -> bool {
    job.workspace_id == workspace_id && job.thread_id == Some(thread_id)
}

/// Whether a question belongs to the thread `thread_id` of workspace `workspace_id`.
pub open spec fn question_of_thread(q: QuestionModel, workspace_id: Seq<char>, thread_id: Seq<char>) -> bool {
    q.workspace_id == workspace_id && q.thread_id == thread_id
}

/// Whether an approval belongs to the thread `thread_id` of workspace `workspace_id`.
pub open spec fn approval_of_thread(a: ApprovalModel, workspace_id: Seq<char>, thread_id: Seq<char>) -> bool {
    a.workspace_id == workspace_id && a.thread_id == Some(thread_id)
}

/// What belongs to a workspace.
pub trait WorkspaceOwned: DeepView + Sized {
    spec fn model_workspace(model: Self::V) -> Seq<char>;

    fn owner(&self) -> (id: &str)
        ensures
            id@ == Self::model_workspace(self.deep_view()),
    ;
}

impl WorkspaceOwned for SupervisorThreadState {
    open spec fn model_workspace(model: ThreadModel) -> Seq<char> {
        model.workspace_id
    }

    fn owner(&self) -> (id: &str) {
        self.workspace_id.as_str()
    }
}

impl WorkspaceOwned for SupervisorJobState {
    open spec fn model_workspace(model: JobModel) -> Seq<char> {
        model.workspace_id
    }

    fn owner(&self) -> (id: &str) {
        self.workspace_id.as_str()
    }
}

impl WorkspaceOwned for SupervisorOpenQuestion {
    open spec fn model_workspace(model: QuestionModel) -> Seq<char> {
        model.workspace_id
    }

    fn owner(&self) -> (id: &str) {
        self.workspace_id.as_str()
    }
}

impl WorkspaceOwned for SupervisorPendingApproval {
    open spec fn model_workspace(model: ApprovalModel) -> Seq<char> {
        model.workspace_id
    }

    fn owner(&self) -> (id: &str) {
        self.workspace_id.as_str()
    }
}

/// What may belong to a thread of a workspace.
pub trait ThreadOwned: DeepView + Sized {
    spec fn model_of_thread(model: Self::V, workspace_id: Seq<char>, thread_id: Seq<char>) -> bool;

    fn of_thread(&self, workspace_id: &str, thread_id: &str) -> (yes: bool)
        ensures
            yes == Self::model_of_thread(self.deep_view(), workspace_id@, thread_id@),
    ;
}

impl ThreadOwned for SupervisorJobState {
    open spec fn model_of_thread(model: JobModel, workspace_id: Seq<char>, thread_id: Seq<char>) -> bool {
        job_of_thread(model, workspace_id, thread_id)
    }

    fn of_thread(&self, workspace_id: &str, thread_id: &str) -> (yes: bool) {
        text_eq(self.workspace_id.as_str(), workspace_id) && match &self.thread_id {
            Some(t) => text_eq(t.as_str(), thread_id),
            None => false,
        }
    }
}

impl ThreadOwned for SupervisorOpenQuestion {
    open spec fn model_of_thread(model: QuestionModel, workspace_id: Seq<char>, thread_id: Seq<char>) -> bool {
        question_of_thread(model, workspace_id, thread_id)
    }

    fn of_thread(&self, workspace_id: &str, thread_id: &str) -> (yes: bool) {
        text_eq(self.workspace_id.as_str(), workspace_id) && text_eq(self.thread_id.as_str(), thread_id)
    }
}

impl ThreadOwned for SupervisorPendingApproval {
    open spec fn model_of_thread(model: ApprovalModel, workspace_id: Seq<char>, thread_id: Seq<char>) -> bool {
        approval_of_thread(model, workspace_id, thread_id)
    }

    fn of_thread(&self, workspace_id: &str, thread_id: &str) -> (yes: bool) {
        text_eq(self.workspace_id.as_str(), workspace_id) && match &self.thread_id {
            Some(t) => text_eq(t.as_str(), thread_id),
            None => false,
        }
    }
}

/// The test that an entry does not belong to the workspace.
pub open spec fn outside_workspace<V: WorkspaceOwned>(workspace_id: Seq<char>) -> spec_fn((Seq<char>, V::V)) -> bool {
    |e: (Seq<char>, V::V)| V::model_workspace(e.1) != workspace_id
}

/// `table` without the entries that belong to the workspace.
pub open spec fn without_workspace<V: WorkspaceOwned>(table: Seq<(Seq<char>, V::V)>, workspace_id: Seq<char>) -> Seq<
    (Seq<char>, V::V),
> {
    table.filter(outside_workspace::<V>(workspace_id))
}

/// `table` without the entries that belong to the thread.
pub open spec fn without_thread<V: ThreadOwned>(
    table: Seq<(Seq<char>, V::V)>,
    workspace_id: Seq<char>,
    thread_id: Seq<char>,
) -> Seq<(Seq<char>, V::V)> {
    table.filter(outside_thread::<V>(workspace_id, thread_id))
}

/// The test that an entry does not belong to the thread.
pub open spec fn outside_thread<V: ThreadOwned>(workspace_id: Seq<char>, thread_id: Seq<char>) -> spec_fn(
    (Seq<char>, V::V),
) -> bool {
    |e: (Seq<char>, V::V)| !V::model_of_thread(e.1, workspace_id, thread_id)
}

/// The state after one update.
pub open spec fn reduced(state: StateModel, update: UpdateModel) -> StateModel {
    match update {
        UpdateModel::UpsertWorkspace(w) => StateModel { workspaces: table_put(state.workspaces, w.id, w), ..state },
        UpdateModel::RemoveWorkspace { workspace_id } => StateModel {
            workspaces: table_remove(state.workspaces, workspace_id),
            threads: without_workspace::<SupervisorThreadState>(state.threads, workspace_id),
            jobs: without_workspace::<SupervisorJobState>(state.jobs, workspace_id),
            open_questions: without_workspace::<SupervisorOpenQuestion>(state.open_questions, workspace_id),
            pending_approvals: without_workspace::<SupervisorPendingApproval>(
                state.pending_approvals,
                workspace_id,
            ),
            ..state
        },
        UpdateModel::UpsertThread(t) => StateModel {
            threads: table_put(state.threads, thread_key(t.workspace_id, t.id), t),
            ..state
        },
        UpdateModel::RemoveThread { workspace_id, thread_id } => StateModel {
            threads: table_remove(state.threads, thread_key(workspace_id, thread_id)),
            jobs: without_thread::<SupervisorJobState>(state.jobs, workspace_id, thread_id),
            open_questions: without_thread::<SupervisorOpenQuestion>(state.open_questions, workspace_id, thread_id),
            pending_approvals: without_thread::<SupervisorPendingApproval>(
                state.pending_approvals,
                workspace_id,
                thread_id,
            ),
            ..state
        },
        UpdateModel::UpsertJob(j) => StateModel { jobs: table_put(state.jobs, j.id, j), ..state },
        UpdateModel::RemoveJob { job_id } => StateModel { jobs: table_remove(state.jobs, job_id), ..state },
        UpdateModel::UpdateJobStatus { job_id, status, at_ms, error } => StateModel {
            jobs: table_changed(state.jobs, job_id, |j: JobModel| job_with_status(j, status, at_ms, error)),
            ..state
        },
        UpdateModel::PushSignal(s) => StateModel {
            signals: pushed_newest::<SupervisorSignal>(state.signals, s, None),
            ..state
        },
        UpdateModel::AckSignal { signal_id, acknowledged_at_ms } => StateModel {
            signals: acknowledged(state.signals, signal_id, acknowledged_at_ms),
            ..state
        },
        UpdateModel::PushActivity { entry, max_items } => StateModel {
            activity_feed: pushed_newest::<SupervisorActivityEntry>(
                state.activity_feed,
                entry,
                Some(effective_limit(max_items, DEFAULT_ACTIVITY_FEED_LIMIT)),
            ),
            ..state
        },
        UpdateModel::UpsertOpenQuestion(q) => StateModel {
            open_questions: table_put(state.open_questions, q.id, q),
            ..state
        },
        UpdateModel::ResolveOpenQuestion { question_id, resolved_at_ms } => StateModel {
            open_questions: table_changed(
                state.open_questions,
                question_id,
                |q: QuestionModel| QuestionModel { resolved_at_ms: Some(resolved_at_ms), ..q },
            ),
            ..state
        },
        UpdateModel::UpsertPendingApproval(a) => StateModel {
            pending_approvals: table_put(state.pending_approvals, a.request_key, a),
            ..state
        },
        UpdateModel::ResolvePendingApproval { request_key, resolved_at_ms } => StateModel {
            pending_approvals: table_changed(
                state.pending_approvals,
                request_key,
                |a: ApprovalModel| ApprovalModel { resolved_at_ms: Some(resolved_at_ms), ..a },
            ),
            ..state
        },
        UpdateModel::PushChatMessage { message, max_items } => StateModel {
            chat_history: pushed_newest::<SupervisorChatMessage>(
                state.chat_history,
                message,
                Some(effective_limit(max_items, DEFAULT_CHAT_HISTORY_LIMIT)),
            ),
            ..state
        },
    }
}

/// The state after the updates, applied in their order.
pub open spec fn reduced_all(state: StateModel, updates: Seq<UpdateModel>) -> StateModel
    decreases updates.len(),
{
    if updates.len() == 0 {
        state
    } else {
        reduced(reduced_all(state, updates.drop_last()), updates.last())
    }
}

/// The place of the first item with the given id.
pub fn find_by_id<T: Identified>(list: &Vec<T>, id: &str) -> (place: Option<usize>)
    ensures
        match place {
            Some(i) => ident_index::<T>(list.deep_view(), id@) == Some(i as int) && i < list@.len(),
            None => ident_index::<T>(list.deep_view(), id@) is None,
        },
{
    let ghost keyed = list.deep_view().map_values(|m: T::V| (T::model_id(m), m));
    let mut i: usize = 0;
    while i < list.len()
        invariant
            i <= list.len(),
            keyed == list.deep_view().map_values(|m: T::V| (T::model_id(m), m)),
            forall|j: int| 0 <= j < i ==> keyed[j].0 != id@,
        decreases list.len() - i,
    {
        if text_eq(list[i].ident(), id) {
            proof {
                lemma_key_index_is(keyed, id@, i as int);
            }
            return Some(i);
        }
        i += 1;
    }
    proof {
        lemma_key_index_none(keyed, id@);
    }
    None
}

/// Puts `item` in front of `list`, takes out the item that had its id, and
/// cuts the list to `limit` items where a limit is given.
pub fn push_newest<T: Identified>(list: &mut Vec<T>, item: T, limit: Option<usize>)
    ensures
        final(list).deep_view() == pushed_newest::<T>(old(list).deep_view(), item.deep_view(), limit),
{
    let ghost before = list.deep_view();
    let ghost model = item.deep_view();
    match find_by_id(list, item.ident()) {
        Some(i) => {
            list.remove(i);
            assert(list.deep_view() =~= before.remove(i as int));
        },
        None => {},
    }
    let ghost without = list.deep_view();
    list.insert(0, item);
    assert(list.deep_view() =~= seq![model] + without);
    match limit {
        Some(n) => {
            if list.len() > n {
                list.truncate(n);
                assert(list.deep_view() =~= (seq![model] + without).take(n as int));
            }
        },
        None => {},
    }
}

/// Takes out of `table` what belongs to the workspace.
#[verifier::loop_isolation(false)]
pub fn drop_workspace_entries<V: WorkspaceOwned>(
    table: &mut Table<V>,
    workspace_id: &str,
)
    ensures
        final(table)@ == without_workspace::<V>(old(table)@, workspace_id@),
        old(table).wf() ==> final(table).wf(),
{
    let ghost keep = outside_workspace::<V>(workspace_id@);
    let mut marks: Vec<bool> = Vec::new();
    let mut i: usize = 0;
    while i < table.len()
        invariant
            i <= table@.len(),
            marks@.len() == i,
            forall|j: int| 0 <= j < i ==> marks@[j] == keep(#[trigger] table@[j]),
        decreases table@.len() - i,
    {
        let owned = text_eq(table.value_at(i).owner(), workspace_id);
        marks.push(!owned);
        i += 1;
    }
    proof {
        lemma_marked_is_filter(table@, marks@, keep);
    }
    table.retain_marked(&marks);
}

/// Takes out of `table` what belongs to the thread.
#[verifier::loop_isolation(false)]
pub fn drop_thread_entries<V: ThreadOwned>(
    table: &mut Table<V>,
    workspace_id: &str,
    thread_id: &str,
)
    ensures
        final(table)@ == without_thread::<V>(old(table)@, workspace_id@, thread_id@),
        old(table).wf() ==> final(table).wf(),
{
    let ghost keep = outside_thread::<V>(workspace_id@, thread_id@);
    let mut marks: Vec<bool> = Vec::new();
    let mut i: usize = 0;
    while i < table.len()
        invariant
            i <= table@.len(),
            marks@.len() == i,
            forall|j: int| 0 <= j < i ==> marks@[j] == keep(#[trigger] table@[j]),
        decreases table@.len() - i,
    {
        let owned = table.value_at(i).of_thread(workspace_id, thread_id);
        marks.push(!owned);
        i += 1;
    }
    proof {
        lemma_marked_is_filter(table@, marks@, keep);
    }
    table.retain_marked(&marks);
}

/// Applies one update to the state.
pub fn apply_update(state: &mut SupervisorState, update: SupervisorStateUpdate)
    ensures
        final(state)@ == reduced(old(state)@, update@),
        well_formed(old(state)@) ==> well_formed(final(state)@),
{
    proof {
        if well_formed(state@) {
            lemma_reduced_keeps_well_formed(state@, update@);
        }
    }
    match update {
        SupervisorStateUpdate::UpsertWorkspace(workspace) => {
            let key = workspace.id.clone();
            state.workspaces.put(key, workspace);
        },
        SupervisorStateUpdate::RemoveWorkspace { workspace_id } => {
            state.workspaces.remove(workspace_id.as_str());
            drop_workspace_entries(&mut state.threads, workspace_id.as_str());
            drop_workspace_entries(&mut state.jobs, workspace_id.as_str());
            drop_workspace_entries(&mut state.open_questions, workspace_id.as_str());
            drop_workspace_entries(&mut state.pending_approvals, workspace_id.as_str());
        },
        SupervisorStateUpdate::UpsertThread(thread) => {
            let key = thread_map_key(thread.workspace_id.as_str(), thread.id.as_str());
            state.threads.put(key, thread);
        },
        SupervisorStateUpdate::RemoveThread { workspace_id, thread_id } => {
            let key = thread_map_key(workspace_id.as_str(), thread_id.as_str());
            state.threads.remove(key.as_str());
            drop_thread_entries(&mut state.jobs, workspace_id.as_str(), thread_id.as_str());
            drop_thread_entries(&mut state.open_questions, workspace_id.as_str(), thread_id.as_str());
            drop_thread_entries(&mut state.pending_approvals, workspace_id.as_str(), thread_id.as_str());
        },
        SupervisorStateUpdate::UpsertJob(job) => {
            let key = job.id.clone();
            state.jobs.put(key, job);
        },
        SupervisorStateUpdate::RemoveJob { job_id } => {
            state.jobs.remove(job_id.as_str());
        },
        SupervisorStateUpdate::UpdateJobStatus { job_id, status, at_ms, error } => {
            match state.jobs.position(job_id.as_str()) {
                Some(i) => {
                    proof {
                        crate::table::lemma_key_index(state.jobs@, job_id@);
                    }
                    let mut job = state.jobs.value_at(i).clone();
                    job.status = status;
                    match status {
                        SupervisorJobStatus::Running => {
                            job.started_at_ms = Some(at_ms);
                            job.completed_at_ms = None;
                        },
                        SupervisorJobStatus::Completed => {
                            job.completed_at_ms = Some(at_ms);
                        },
                        SupervisorJobStatus::Failed => {
                            job.completed_at_ms = Some(at_ms);
                        },
                        SupervisorJobStatus::Pending => {
                            job.started_at_ms = None;
                            job.completed_at_ms = None;
                        },
                        _ => {},
                    }
                    job.error = error;
                    state.jobs.put(job_id, job);
                },
                None => {},
            }
        },
        SupervisorStateUpdate::PushSignal(signal) => {
            push_newest(&mut state.signals, signal, None);
        },
        SupervisorStateUpdate::AckSignal { signal_id, acknowledged_at_ms } => {
            let ghost before = state.signals.deep_view();
            match find_by_id(&state.signals, signal_id.as_str()) {
                Some(i) => {
                    let mut signal = state.signals.remove(i);
                    signal.acknowledged_at_ms = Some(acknowledged_at_ms);
                    let ghost changed = signal@;
                    state.signals.insert(i, signal);
                    assert(state.signals.deep_view() =~= before.update(i as int, changed));
                },
                None => {},
            }
        },
        SupervisorStateUpdate::PushActivity { entry, max_items } => {
            let limit = if max_items == 0 {
                DEFAULT_ACTIVITY_FEED_LIMIT
            } else {
                max_items
            };
            push_newest(&mut state.activity_feed, entry, Some(limit));
        },
        SupervisorStateUpdate::UpsertOpenQuestion(question) => {
            let key = question.id.clone();
            state.open_questions.put(key, question);
        },
        SupervisorStateUpdate::ResolveOpenQuestion { question_id, resolved_at_ms } => {
            match state.open_questions.position(question_id.as_str()) {
                Some(i) => {
                    proof {
                        crate::table::lemma_key_index(state.open_questions@, question_id@);
                    }
                    let mut question = state.open_questions.value_at(i).clone();
                    question.resolved_at_ms = Some(resolved_at_ms);
                    state.open_questions.put(question_id, question);
                },
                None => {},
            }
        },
        SupervisorStateUpdate::UpsertPendingApproval(approval) => {
            let key = approval.request_key.clone();
            state.pending_approvals.put(key, approval);
        },
        SupervisorStateUpdate::ResolvePendingApproval { request_key, resolved_at_ms } => {
            match state.pending_approvals.position(request_key.as_str()) {
                Some(i) => {
                    proof {
                        crate::table::lemma_key_index(state.pending_approvals@, request_key@);
                    }
                    let mut approval = state.pending_approvals.value_at(i).clone();
                    approval.resolved_at_ms = Some(resolved_at_ms);
                    state.pending_approvals.put(request_key, approval);
                },
                None => {},
            }
        },
        SupervisorStateUpdate::PushChatMessage { message, max_items } => {
            let limit = if max_items == 0 {
                DEFAULT_CHAT_HISTORY_LIMIT
            } else {
                max_items
            };
            push_newest(&mut state.chat_history, message, Some(limit));
        },
    }
}

/// Applies the updates in their order.
pub fn apply_updates(state: &mut SupervisorState, updates: Vec<SupervisorStateUpdate>)
    ensures
        final(state)@ == reduced_all(old(state)@, updates.deep_view()),
{
    let ghost all = updates.deep_view();
    let ghost start = state@;
    let mut rest = updates;
    let ghost mut done: int = 0;
    assert(all.take(0) =~= Seq::<UpdateModel>::empty());
    assert(all.skip(0) =~= all);
    while rest.len() > 0
        invariant
            0 <= done <= all.len(),
            rest.deep_view() == all.skip(done),
            state@ == reduced_all(start, all.take(done)),
        decreases rest.len(),
    {
        let ghost before = rest.deep_view();
        let update = rest.remove(0);
        assert(rest.deep_view() =~= before.drop_first());
        assert(update@ == before[0]);
        apply_update(state, update);
        proof {
            assert(all.take(done + 1).drop_last() =~= all.take(done));
            assert(all.take(done + 1).last() == all[done]);
            assert(all.skip(done)[0] == all[done]);
            assert(all.skip(done).drop_first() =~= all.skip(done + 1));
            done = done + 1;
        }
    }
    assert(all.take(done) =~= all);
}

/// A copy of the state with the updates applied in their order.
pub fn reduce(state: &SupervisorState, updates: Vec<SupervisorStateUpdate>) -> (next: SupervisorState)
    ensures
        next@ == reduced_all(state@, updates.deep_view()),
{
    let mut next = state.clone();
    apply_updates(&mut next, updates);
    next
}

} // verus!
