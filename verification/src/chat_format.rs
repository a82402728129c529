use vstd::prelude::*;
use vstd::string::*;

use crate::chat::{DispatchRequestModel, SupervisorChatDispatchRequest, STATUS_THREADS_PER_WORKSPACE_LIMIT};
use crate::contract::SUPERVISOR_ACTION_CONTRACT_VERSION;
use crate::dispatch::{present, ResultModel, SupervisorDispatchBatchResult, SupervisorDispatchStatus};
use crate::json::{JsonModel, JsonValue};
use crate::json_ops::{new_members, push_member, text_or_null_model};
use crate::model::{
    ActivityModel, ApprovalModel, QuestionModel, SignalModel, StateModel, SupervisorActivityEntry,
    SupervisorHealth, SupervisorState, SupervisorThreadState, SupervisorThreadStatus,
    SupervisorWorkspaceState, ThreadModel, WorkspaceModel,
};
use crate::order::{rank_order, ranking, RankKey, RankKeyModel};
use crate::reducer::{thread_key, thread_map_key};
use crate::routing::{RouteDecisionModel, SupervisorRouteDecision};
use crate::table::table_get;
use crate::text::{decimal, integer_text, result_model, text_eq, trimmed};

verus! {

/// What a status answer tells of a thread.
#[derive(Debug, PartialEq, Eq)]
pub struct StatusThreadSummary {
    pub id: String,
    pub workspace_id: String,
    pub name: Option<String>,
    pub status: SupervisorThreadStatus,
    pub last_activity_at_ms: Option<i64>,
    pub message_count: usize,
    pub unread_count: usize,
}

/// Mathematical model of [`StatusThreadSummary`].
pub struct ThreadSummaryModel {
    pub id: Seq<char>,
    pub workspace_id: Seq<char>,
    pub name: Option<Seq<char>>,
    pub status: SupervisorThreadStatus,
    pub last_activity_at_ms: Option<i64>,
    pub message_count: usize,
    pub unread_count: usize,
}

impl View for StatusThreadSummary {
    type V = ThreadSummaryModel;

    open spec fn view(&self) -> ThreadSummaryModel {
        ThreadSummaryModel {
            id: self.id@,
            workspace_id: self.workspace_id@,
            name: self.name.deep_view(),
            status: self.status,
            last_activity_at_ms: self.last_activity_at_ms,
            message_count: self.message_count,
            unread_count: self.unread_count,
        }
    }
}

impl DeepView for StatusThreadSummary {
    type V = ThreadSummaryModel;

    open spec fn deep_view(&self) -> ThreadSummaryModel {
        self@
    }
}

impl Clone for StatusThreadSummary {
    fn clone(&self) -> (copy: Self)
        ensures
            copy@ == self@,
    {
        let copy = StatusThreadSummary {
            id: self.id.clone(),
            workspace_id: self.workspace_id.clone(),
            name: self.name.clone(),
            status: self.status,
            last_activity_at_ms: self.last_activity_at_ms,
            message_count: self.message_count,
            unread_count: self.unread_count,
        };
        proof {
            assert(copy.name.deep_view() =~= self.name.deep_view());
        }
        copy
    }
}

/// The texts one after the other, with `separator` between them.
pub open spec fn joined(parts: Seq<Seq<char>>, separator: Seq<char>) -> Seq<char>
    decreases parts.len(),
{
    if parts.len() == 0 {
        Seq::empty()
    } else if parts.len() == 1 {
        parts[0]
    } else {
        joined(parts.drop_last(), separator) + separator + parts.last()
    }
}

/// The lines as one text.
pub open spec fn joined_lines(lines: Seq<Seq<char>>) -> Seq<char> {
    joined(lines, "\n"@)
}

/// The texts one after the other, with `separator` between them.
pub fn join_with(parts: &Vec<String>, separator: &str) -> (text: String)
    ensures
        text@ == joined(parts.deep_view(), separator@),
{
    let ghost models = parts.deep_view();
    let mut text = String::new();
    let mut i: usize = 0;
    assert(models.take(0) =~= Seq::<Seq<char>>::empty());
    while i < parts.len()
        invariant
            i <= parts.len(),
            models == parts.deep_view(),
            text@ == joined(models.take(i as int), separator@),
        decreases parts.len() - i,
    {
        proof {
            assert(models.take(i + 1).drop_last() =~= models.take(i as int));
            assert(models.take(i + 1).last() == models[i as int]);
            if i == 0 {
                assert(models.take(1)[0] == models[0]);
                assert(text@ + models[0] =~= models[0]);
            }
        }
        if i > 0 {
            text.append(separator);
        }
        text.append(parts[i].as_str());
        i += 1;
    }
    assert(models.take(i as int) =~= models);
    text
}

/// The lines as one text.
pub fn join_lines(lines: &Vec<String>) -> (text: String)
    ensures
        text@ == joined_lines(lines.deep_view()),
{
    join_with(lines, "\n")
}

/// Adds a line.
pub fn push_line(lines: &mut Vec<String>, line: String)
    ensures
        final(lines).deep_view() == old(lines).deep_view().push(line@),
{
    lines.push(line);
    assert(lines.deep_view() =~= old(lines).deep_view().push(line@));
}

fn no_lines() -> (lines: Vec<String>)
    ensures
        lines.deep_view() == Seq::<Seq<char>>::empty(),
{
    let lines: Vec<String> = Vec::new();
    assert(lines.deep_view() =~= Seq::<Seq<char>>::empty());
    lines
}

/// The lines of the help message.
pub open spec fn help_lines() -> Seq<Seq<char>> {
    Seq::empty().push("Supported commands:"@).push(
        "- /dispatch --ws ws-1,ws-2 --prompt \"...\" [--thread ...] [--dedupe ...] [--model ...] [--effort ...] [--access-mode read-only|current|full-access]"@,
    ).push("- /ack <signal_id>"@).push("- /status [workspace_id] [thread_id]"@).push(
        "- /status [workspace_id] --thread <thread_id>"@,
    ).push("- /статус [workspace_id] [thread_id] (alias)"@).push("- /feed [needs_input]"@).push("- /help"@).push(
        ""@,
    ).push("Free-form chat:"@).push(
        "- Any message without `/` is routed by Supervisor (local tool vs delegated workspace)."@,
    ).push(
        "- When a child subtask is waiting for input, reply directly or target it with `@<subtask_id> ...`."@,
    )
}

/// The help message.
pub fn format_help_message() -> (text: String)
    ensures
        text@ == joined_lines(help_lines()),
{
    let mut lines = no_lines();
    push_line(&mut lines, "Supported commands:".to_owned());
    push_line(
        &mut lines,
        "- /dispatch --ws ws-1,ws-2 --prompt \"...\" [--thread ...] [--dedupe ...] [--model ...] [--effort ...] [--access-mode read-only|current|full-access]".to_owned(),
    );
    push_line(&mut lines, "- /ack <signal_id>".to_owned());
    push_line(&mut lines, "- /status [workspace_id] [thread_id]".to_owned());
    push_line(&mut lines, "- /status [workspace_id] --thread <thread_id>".to_owned());
    push_line(&mut lines, "- /статус [workspace_id] [thread_id] (alias)".to_owned());
    push_line(&mut lines, "- /feed [needs_input]".to_owned());
    push_line(&mut lines, "- /help".to_owned());
    push_line(&mut lines, "".to_owned());
    push_line(&mut lines, "Free-form chat:".to_owned());
    push_line(
        &mut lines,
        "- Any message without `/` is routed by Supervisor (local tool vs delegated workspace).".to_owned(),
    );
    push_line(
        &mut lines,
        "- When a child subtask is waiting for input, reply directly or target it with `@<subtask_id> ...`.".to_owned(),
    );
    join_lines(&lines)
}

/// The answer to an acknowledged signal.
pub fn format_ack_message(signal_id: &str) -> (text: String)
    ensures
        text@ == "Signal `"@ + signal_id@ + "` acknowledged."@,
{
    let mut text = "Signal `".to_owned();
    text.append(signal_id);
    text.append("` acknowledged.");
    text
}

/// The blockers, with commas between them, or `none`.
pub open spec fn blockers_text(blockers: Seq<Seq<char>>) -> Seq<char> {
    if blockers.len() == 0 {
        "none"@
    } else {
        joined(blockers, ", "@)
    }
}

/// The blockers, with commas between them, or `none`.
pub fn blockers_label(blockers: &Vec<String>) -> (text: String)
    ensures
        text@ == blockers_text(blockers.deep_view()),
{
    if blockers.len() == 0 {
        "none".to_owned()
    } else {
        join_with(blockers, ", ")
    }
}

/// The name of a health in messages.
pub open spec fn health_name(health: SupervisorHealth) -> Seq<char> {
    match health {
        SupervisorHealth::Healthy => "healthy"@,
        SupervisorHealth::Stale => "stale"@,
        SupervisorHealth::Disconnected => "disconnected"@,
    }
}

/// The name of a health in messages.
pub fn health_label(health: &SupervisorHealth) -> (label: &'static str)
    ensures
        label@ == health_name(*health),
{
    match health {
        SupervisorHealth::Healthy => "healthy",
        SupervisorHealth::Stale => "stale",
        SupervisorHealth::Disconnected => "disconnected",
    }
}

/// The name of a thread status in messages.
pub open spec fn thread_status_name(status: SupervisorThreadStatus) -> Seq<char> {
    match status {
        SupervisorThreadStatus::Idle => "idle"@,
        SupervisorThreadStatus::Running => "running"@,
        SupervisorThreadStatus::WaitingInput => "waiting_input"@,
        SupervisorThreadStatus::Failed => "failed"@,
        SupervisorThreadStatus::Completed => "completed"@,
        SupervisorThreadStatus::Stalled => "stalled"@,
    }
}

/// The name of a thread status in messages.
pub fn thread_status_label(status: &SupervisorThreadStatus) -> (label: &'static str)
    ensures
        label@ == thread_status_name(*status),
{
    match status {
        SupervisorThreadStatus::Idle => "idle",
        SupervisorThreadStatus::Running => "running",
        SupervisorThreadStatus::WaitingInput => "waiting_input",
        SupervisorThreadStatus::Failed => "failed",
        SupervisorThreadStatus::Completed => "completed",
        SupervisorThreadStatus::Stalled => "stalled",
    }
}

/// A name with its id: the id alone where the name is blank or the id itself.
pub open spec fn named_label(name: Seq<char>, id: Seq<char>) -> Seq<char> {
    if trimmed(name).len() == 0 || trimmed(name) == id {
        "`"@ + id + "`"@
    } else {
        "`"@ + trimmed(name) + "` (`"@ + id + "`)"@
    }
}

fn label_of(name: &str, id: &str) -> (label: String)
    ensures
        label@ == named_label(name@, id@),
{
    let cut = name.trim();
    if cut.unicode_len() == 0 || text_eq(cut, id) {
        let mut label = "`".to_owned();
        label.append(id);
        label.append("`");
        label
    } else {
        let mut label = "`".to_owned();
        label.append(cut);
        label.append("` (`");
        label.append(id);
        label.append("`)");
        label
    }
}

/// How a workspace is named in a status answer.
pub fn workspace_summary_label(workspace: &SupervisorWorkspaceState) -> (label: String)
    ensures
        label@ == named_label(workspace@.name, workspace@.id),
{
    label_of(workspace.name.as_str(), workspace.id.as_str())
}

/// The text, or the empty text where there is none.
pub open spec fn or_empty(text: Option<Seq<char>>) -> Seq<char> {
    match text {
        Some(t) => t,
        None => Seq::empty(),
    }
}

/// How a thread is named in a status answer.
pub fn thread_summary_label(thread: &StatusThreadSummary) -> (label: String)
    ensures
        label@ == named_label(or_empty(thread@.name), thread@.id),
{
    match &thread.name {
        Some(name) => label_of(name.as_str(), thread.id.as_str()),
        None => {
            proof {
                reveal_strlit("");
                assert(""@ =~= Seq::<char>::empty());
            }
            label_of("", thread.id.as_str())
        },
    }
}

/// The text, or `fallback` where there is none.
pub open spec fn text_or(text: Option<Seq<char>>, fallback: Seq<char>) -> Seq<char> {
    match text {
        Some(t) => t,
        None => fallback,
    }
}

/// The numeral of a time, or `none`.
pub open spec fn time_text(at_ms: Option<i64>) -> Seq<char> {
    match at_ms {
        Some(at) => integer_text(at as int),
        None => "none"@,
    }
}

fn time_label(at_ms: Option<i64>) -> (text: String)
    ensures
        text@ == time_text(at_ms),
{
    match at_ms {
        Some(at) => decimal(at as i128),
        None => "none".to_owned(),
    }
}

fn labelled(label: &str, value: &str) -> (line: String)
    ensures
        line@ == label@ + value@,
{
    let mut line = label.to_owned();
    line.append(value);
    line
}

fn text_or_else<'a>(text: &'a Option<String>, fallback: &'a str) -> (out: &'a str)
    ensures
        out@ == text_or(text.deep_view(), fallback@),
{
    match text {
        Some(t) => t.as_str(),
        None => fallback,
    }
}

/// How many of the marks are set.
pub open spec fn count_where(marks: Seq<bool>) -> nat
    decreases marks.len(),
{
    if marks.len() == 0 {
        0
    } else {
        count_where(marks.drop_last()) + if marks.last() {
            1nat
        } else {
            0nat
        }
    }
}

/// No more marks are set than there are marks.
pub proof fn lemma_count_bound(marks: Seq<bool>)
    ensures
        count_where(marks) <= marks.len(),
    decreases marks.len(),
{
    if marks.len() > 0 {
        lemma_count_bound(marks.drop_last());
    }
}

/// How many of the marks are set.
pub fn count_marks(marks: &Vec<bool>) -> (n: usize)
    ensures
        n == count_where(marks@),
{
    let mut n: usize = 0;
    let mut i: usize = 0;
    assert(marks@.take(0) =~= Seq::<bool>::empty());
    while i < marks.len()
        invariant
            i <= marks.len(),
            n <= i,
            n == count_where(marks@.take(i as int)),
        decreases marks.len() - i,
    {
        proof {
            assert(marks@.take(i + 1).drop_last() =~= marks@.take(i as int));
            assert(marks@.take(i + 1).last() == marks@[i as int]);
        }
        if marks[i] {
            n += 1;
        }
        i += 1;
    }
    assert(marks@.take(i as int) =~= marks@);
    n
}

/// The sum of two counts, kept within the range of the type.
pub open spec fn capped_sum(a: usize, b: usize) -> usize {
    if a + b > usize::MAX {
        usize::MAX
    } else {
        (a + b) as usize
    }
}

fn add_capped(a: usize, b: usize) -> (sum: usize)
    ensures
        sum == capped_sum(a, b),
{
    if a > usize::MAX - b {
        usize::MAX
    } else {
        a + b
    }
}

/// Whether an entry of the feed tells of the thread.
pub open spec fn entry_of_thread(entry: ActivityModel, workspace_id: Seq<char>, thread_id: Seq<char>) -> bool {
    entry.workspace_id == Some(workspace_id) && entry.thread_id == Some(thread_id)
}

/// Whether a signal of the thread waits for the operator.
pub open spec fn signal_unread(signal: SignalModel, workspace_id: Seq<char>, thread_id: Seq<char>) -> bool {
    signal.acknowledged_at_ms is None && signal.workspace_id == Some(workspace_id) && signal.thread_id == Some(
        thread_id,
    )
}

/// Whether a question of the thread waits for the operator.
pub open spec fn question_unread(question: QuestionModel, workspace_id: Seq<char>, thread_id: Seq<char>) -> bool {
    question.resolved_at_ms is None && question.workspace_id == workspace_id && question.thread_id == thread_id
}

/// Whether an approval of the thread waits for the operator.
pub open spec fn approval_unread(approval: ApprovalModel, workspace_id: Seq<char>, thread_id: Seq<char>) -> bool {
    approval.resolved_at_ms is None && approval.workspace_id == workspace_id && approval.thread_id == Some(thread_id)
}

/// How many entries of the feed tell of the thread.
pub open spec fn message_count_of(state: StateModel, workspace_id: Seq<char>, thread_id: Seq<char>) -> nat {
    count_where(
        Seq::new(
            state.activity_feed.len(),
            |i: int| entry_of_thread(state.activity_feed[i], workspace_id, thread_id),
        ),
    )
}

/// How many signals of the thread wait for the operator.
pub open spec fn unread_signals_of(state: StateModel, workspace_id: Seq<char>, thread_id: Seq<char>) -> nat {
    count_where(Seq::new(state.signals.len(), |i: int| signal_unread(state.signals[i], workspace_id, thread_id)))
}

/// How many questions of the thread wait for the operator.
pub open spec fn unread_questions_of(state: StateModel, workspace_id: Seq<char>, thread_id: Seq<char>) -> nat {
    count_where(
        Seq::new(
            state.open_questions.len(),
            |i: int| question_unread(state.open_questions[i].1, workspace_id, thread_id),
        ),
    )
}

/// How many approvals of the thread wait for the operator.
pub open spec fn unread_approvals_of(state: StateModel, workspace_id: Seq<char>, thread_id: Seq<char>) -> nat {
    count_where(
        Seq::new(
            state.pending_approvals.len(),
            |i: int| approval_unread(state.pending_approvals[i].1, workspace_id, thread_id),
        ),
    )
}

/// What a status answer tells of a thread of the workspace.
pub open spec fn summary_of_thread(state: StateModel, workspace_id: Seq<char>, thread: ThreadModel) -> ThreadSummaryModel {
    ThreadSummaryModel {
        id: thread.id,
        workspace_id,
        name: present(thread.name),
        status: thread.status,
        last_activity_at_ms: thread.last_activity_at_ms,
        message_count: message_count_of(state, workspace_id, thread.id) as usize,
        unread_count: capped_sum(
            capped_sum(
                unread_signals_of(state, workspace_id, thread.id) as usize,
                unread_questions_of(state, workspace_id, thread.id) as usize,
            ),
            unread_approvals_of(state, workspace_id, thread.id) as usize,
        ),
    }
}

/// The test that picks the threads of a workspace.
pub open spec fn thread_picker(workspace_id: Seq<char>) -> spec_fn((Seq<char>, ThreadModel)) -> bool {
    |e: (Seq<char>, ThreadModel)| e.1.workspace_id == workspace_id
}

/// What the threads of a status answer are ordered by: the later activity
/// first, then the smaller id.
pub open spec fn summary_ranks(threads: Seq<(Seq<char>, ThreadModel)>) -> Seq<RankKeyModel> {
    Seq::new(
        threads.len(),
        |i: int|
            RankKeyModel {
                major: match threads[i].1.last_activity_at_ms {
                    Some(at) => at,
                    None => 0,
                },
                minor: 0,
                label: threads[i].1.id,
            },
    )
}

/// What a status answer tells of the threads of a workspace, the latest
/// activity first.
pub open spec fn thread_summaries_of(state: StateModel, workspace_id: Seq<char>) -> Seq<ThreadSummaryModel> {
    let threads = state.threads.filter(thread_picker(workspace_id));
    let order = ranking(summary_ranks(threads));
    Seq::new(order.len(), |i: int| summary_of_thread(state, workspace_id, threads[order[i] as int].1))
}

fn same_opt(text: &Option<String>, wanted: &str) -> (same: bool)
    ensures
        same == (text.deep_view() == Some(wanted@)),
{
    match text {
        Some(t) => text_eq(t.as_str(), wanted),
        None => false,
    }
}

fn count_messages(state: &SupervisorState, workspace_id: &str, thread_id: &str) -> (n: usize)
    ensures
        n == message_count_of(state@, workspace_id@, thread_id@),
{
    let mut marks: Vec<bool> = Vec::new();
    let mut i: usize = 0;
    while i < state.activity_feed.len()
        invariant
            i <= state.activity_feed.len(),
            marks@.len() == i,
            forall|j: int|
                0 <= j < i ==> marks@[j] == entry_of_thread(state@.activity_feed[j], workspace_id@, thread_id@),
        decreases state.activity_feed.len() - i,
    {
        let entry = &state.activity_feed[i];
        marks.push(same_opt(&entry.workspace_id, workspace_id) && same_opt(&entry.thread_id, thread_id));
        i += 1;
    }
    assert(marks@ =~= Seq::new(
        state@.activity_feed.len(),
        |i: int| entry_of_thread(state@.activity_feed[i], workspace_id@, thread_id@),
    ));
    count_marks(&marks)
}

fn count_unread_signals(state: &SupervisorState, workspace_id: &str, thread_id: &str) -> (n: usize)
    ensures
        n == unread_signals_of(state@, workspace_id@, thread_id@),
{
    let mut marks: Vec<bool> = Vec::new();
    let mut i: usize = 0;
    while i < state.signals.len()
        invariant
            i <= state.signals.len(),
            marks@.len() == i,
            forall|j: int| 0 <= j < i ==> marks@[j] == signal_unread(state@.signals[j], workspace_id@, thread_id@),
        decreases state.signals.len() - i,
    {
        let signal = &state.signals[i];
        marks.push(
            signal.acknowledged_at_ms.is_none() && same_opt(&signal.workspace_id, workspace_id) && same_opt(
                &signal.thread_id,
                thread_id,
            ),
        );
        i += 1;
    }
    assert(marks@ =~= Seq::new(
        state@.signals.len(),
        |i: int| signal_unread(state@.signals[i], workspace_id@, thread_id@),
    ));
    count_marks(&marks)
}

fn count_unread_questions(state: &SupervisorState, workspace_id: &str, thread_id: &str) -> (n: usize)
    ensures
        n == unread_questions_of(state@, workspace_id@, thread_id@),
{
    let mut marks: Vec<bool> = Vec::new();
    let mut i: usize = 0;
    while i < state.open_questions.len()
        invariant
            i <= state.open_questions@.len(),
            marks@.len() == i,
            forall|j: int|
                0 <= j < i ==> marks@[j] == question_unread(state@.open_questions[j].1, workspace_id@, thread_id@),
        decreases state.open_questions@.len() - i,
    {
        let question = state.open_questions.value_at(i);
        marks.push(
            question.resolved_at_ms.is_none() && text_eq(question.workspace_id.as_str(), workspace_id) && text_eq(
                question.thread_id.as_str(),
                thread_id,
            ),
        );
        i += 1;
    }
    assert(marks@ =~= Seq::new(
        state@.open_questions.len(),
        |i: int| question_unread(state@.open_questions[i].1, workspace_id@, thread_id@),
    ));
    count_marks(&marks)
}

fn count_unread_approvals(state: &SupervisorState, workspace_id: &str, thread_id: &str) -> (n: usize)
    ensures
        n == unread_approvals_of(state@, workspace_id@, thread_id@),
{
    let mut marks: Vec<bool> = Vec::new();
    let mut i: usize = 0;
    while i < state.pending_approvals.len()
        invariant
            i <= state.pending_approvals@.len(),
            marks@.len() == i,
            forall|j: int|
                0 <= j < i ==> marks@[j] == approval_unread(state@.pending_approvals[j].1, workspace_id@, thread_id@),
        decreases state.pending_approvals@.len() - i,
    {
        let approval = state.pending_approvals.value_at(i);
        marks.push(
            approval.resolved_at_ms.is_none() && text_eq(approval.workspace_id.as_str(), workspace_id) && same_opt(
                &approval.thread_id,
                thread_id,
            ),
        );
        i += 1;
    }
    assert(marks@ =~= Seq::new(
        state@.pending_approvals.len(),
        |i: int| approval_unread(state@.pending_approvals[i].1, workspace_id@, thread_id@),
    ));
    count_marks(&marks)
}

fn summarize_thread(state: &SupervisorState, workspace_id: &str, thread: &SupervisorThreadState) -> (summary:
    StatusThreadSummary)
    ensures
        summary@ == summary_of_thread(state@, workspace_id@, thread@),
{
    let name = match &thread.name {
        Some(n) => {
            let cut = n.as_str().trim();
            if cut.unicode_len() > 0 {
                Some(cut.to_owned())
            } else {
                None
            }
        },
        None => None,
    };
    let signals = count_unread_signals(state, workspace_id, thread.id.as_str());
    let questions = count_unread_questions(state, workspace_id, thread.id.as_str());
    let approvals = count_unread_approvals(state, workspace_id, thread.id.as_str());
    StatusThreadSummary {
        id: thread.id.clone(),
        workspace_id: workspace_id.to_owned(),
        name,
        status: thread.status,
        last_activity_at_ms: thread.last_activity_at_ms,
        message_count: count_messages(state, workspace_id, thread.id.as_str()),
        unread_count: add_capped(add_capped(signals, questions), approvals),
    }
}

/// What a status answer tells of the threads of a workspace.
pub fn collect_workspace_thread_summaries(state: &SupervisorState, workspace_id: &str) -> (summaries: Vec<
    StatusThreadSummary,
>)
    ensures
        summaries.deep_view() == thread_summaries_of(state@, workspace_id@),
{
    let ghost threads = state.threads@;
    let ghost picker = thread_picker(workspace_id@);
    let mut places: Vec<usize> = Vec::new();
    let mut keys: Vec<RankKey> = Vec::new();
    let mut i: usize = 0;
    assert(threads.take(0) =~= Seq::<(Seq<char>, ThreadModel)>::empty());
    assert(threads.take(0).filter(picker) =~= Seq::<(Seq<char>, ThreadModel)>::empty()) by {
        reveal(Seq::filter);
    }
    assert(keys.deep_view() =~= summary_ranks(threads.take(0).filter(picker)));
    while i < state.threads.len()
        invariant
            i <= threads.len(),
            threads == state.threads@,
            picker == thread_picker(workspace_id@),
            places@.len() == keys@.len(),
            places@.len() == threads.take(i as int).filter(picker).len(),
            forall|k: int| 0 <= k < places@.len() ==> (#[trigger] places@[k]) < i && threads[places@[k] as int]
                == threads.take(i as int).filter(picker)[k],
            keys.deep_view() == summary_ranks(threads.take(i as int).filter(picker)),
        decreases threads.len() - i,
    {
        let thread = state.threads.value_at(i);
        proof {
            assert(threads.take(i + 1) =~= threads.take(i as int).push(threads[i as int]));
            threads.take(i as int).lemma_filter_push(threads[i as int], picker);
            assert(picker(threads[i as int]) == (threads[i as int].1.workspace_id == workspace_id@));
        }
        if text_eq(thread.workspace_id.as_str(), workspace_id) {
            let ghost before_keys = keys.deep_view();
            let major: i64 = match thread.last_activity_at_ms {
                Some(at) => at,
                None => 0,
            };
            keys.push(RankKey { major, minor: 0, label: thread.id.clone() });
            places.push(i);
            assert(keys.deep_view() =~= before_keys.push(
                RankKeyModel {
                    major: match threads[i as int].1.last_activity_at_ms {
                        Some(at) => at,
                        None => 0,
                    },
                    minor: 0,
                    label: threads[i as int].1.id,
                },
            ));
            assert(keys.deep_view() =~= summary_ranks(threads.take(i + 1).filter(picker)));
        }
        i += 1;
    }
    assert(threads.take(i as int) =~= threads);
    let ghost picked = threads.filter(picker);
    let order = rank_order(&keys);
    let mut summaries: Vec<StatusThreadSummary> = Vec::new();
    let mut k: usize = 0;
    while k < order.len()
        invariant
            k <= order.len(),
            order@.len() == places@.len(),
            threads == state.threads@,
            picked == threads.filter(picker),
            places@.len() == picked.len(),
            forall|n: int| 0 <= n < order@.len() ==> (#[trigger] order@[n]) < places@.len(),
            forall|n: int| 0 <= n < places@.len() ==> (#[trigger] places@[n]) < threads.len() && threads[places@[n] as int]
                == picked[n],
            summaries@.len() == k,
            forall|n: int|
                0 <= n < k ==> (#[trigger] summaries@[n])@ == summary_of_thread(
                    state@,
                    workspace_id@,
                    picked[order@[n] as int].1,
                ),
        decreases order.len() - k,
    {
        let place = places[order[k]];
        summaries.push(summarize_thread(state, workspace_id, state.threads.value_at(place)));
        k += 1;
    }
    assert(summaries.deep_view() =~= thread_summaries_of(state@, workspace_id@));
    summaries
}

/// The numeral of a count.
pub open spec fn count_text(n: usize) -> Seq<char> {
    integer_text(n as int)
}

fn count_label(n: usize) -> (text: String)
    ensures
        text@ == count_text(n),
{
    decimal(n as i128)
}

/// The line of a thread in the details of a status answer.
pub open spec fn summary_row(indent: Seq<char>, summary: ThreadSummaryModel) -> Seq<char> {
    indent + "  - "@ + named_label(or_empty(summary.name), summary.id) + " | status: "@ + thread_status_name(
        summary.status,
    ) + " | last_activity_at_ms: "@ + time_text(summary.last_activity_at_ms) + " | messages: "@ + count_text(
        summary.message_count,
    ) + " | unread: "@ + count_text(summary.unread_count)
}

/// How many threads the details show.
pub open spec fn shown_count(total: usize, limit: usize) -> usize {
    if total < limit {
        total
    } else {
        limit
    }
}

/// The lines that tell of the threads of a workspace: none, or a heading,
/// a line for each of the first `limit` threads, and a line for the rest.
pub open spec fn details_lines(summaries: Seq<ThreadSummaryModel>, limit: usize, indent: Seq<char>) -> Seq<Seq<char>> {
    if summaries.len() == 0 {
        Seq::empty().push(indent + "- threads_detail: none"@)
    } else {
        let shown = shown_count(summaries.len() as usize, limit);
        let head = Seq::empty().push(
            indent + "- threads_detail (showing "@ + count_text(shown) + " of "@ + count_text(summaries.len() as usize)
                + "):"@,
        );
        let rows = Seq::new(shown as nat, |i: int| summary_row(indent, summaries[i]));
        let hidden = (summaries.len() - shown) as usize;
        if hidden > 0 {
            (head + rows).push(indent + "  - ... and "@ + count_text(hidden) + " more active thread(s)"@)
        } else {
            head + rows
        }
    }
}

fn format_summary_row(indent: &str, summary: &StatusThreadSummary) -> (row: String)
    ensures
        row@ == summary_row(indent@, summary@),
{
    let mut row = indent.to_owned();
    row.append("  - ");
    row.append(thread_summary_label(summary).as_str());
    row.append(" | status: ");
    row.append(thread_status_label(&summary.status));
    row.append(" | last_activity_at_ms: ");
    row.append(time_label(summary.last_activity_at_ms).as_str());
    row.append(" | messages: ");
    row.append(count_label(summary.message_count).as_str());
    row.append(" | unread: ");
    row.append(count_label(summary.unread_count).as_str());
    row
}

/// Adds the lines that tell of the threads of a workspace.
pub fn append_thread_details_lines(
    lines: &mut Vec<String>,
    thread_summaries: &Vec<StatusThreadSummary>,
    limit: usize,
    indent: &str,
)
    ensures
        final(lines).deep_view() == old(lines).deep_view() + details_lines(
            thread_summaries.deep_view(),
            limit,
            indent@,
        ),
{
    let ghost before = lines.deep_view();
    let ghost models = thread_summaries.deep_view();
    if thread_summaries.len() == 0 {
        let mut line = indent.to_owned();
        line.append("- threads_detail: none");
        push_line(lines, line);
        assert(lines.deep_view() =~= before + details_lines(models, limit, indent@));
        return ;
    }
    let total = thread_summaries.len();
    let shown = if total < limit {
        total
    } else {
        limit
    };
    let mut head = indent.to_owned();
    head.append("- threads_detail (showing ");
    head.append(count_label(shown).as_str());
    head.append(" of ");
    head.append(count_label(total).as_str());
    head.append("):");
    let ghost head_model = head@;
    push_line(lines, head);
    let mut i: usize = 0;
    assert(lines.deep_view() =~= before.push(head_model) + Seq::new(0, |j: int| summary_row(indent@, models[j])));
    while i < shown
        invariant
            i <= shown,
            shown <= thread_summaries.len(),
            models == thread_summaries.deep_view(),
            lines.deep_view() == before.push(head_model) + Seq::new(i as nat, |j: int| summary_row(indent@, models[j])),
        decreases shown - i,
    {
        let ghost current = lines.deep_view();
        let row = format_summary_row(indent, &thread_summaries[i]);
        push_line(lines, row);
        assert(lines.deep_view() =~= before.push(head_model) + Seq::new(
            (i + 1) as nat,
            |j: int| summary_row(indent@, models[j]),
        ));
        i += 1;
    }
    let hidden = total - shown;
    if hidden > 0 {
        let mut tail = indent.to_owned();
        tail.append("  - ... and ");
        tail.append(count_label(hidden).as_str());
        tail.append(" more active thread(s)");
        push_line(lines, tail);
    }
    assert(lines.deep_view() =~= before + details_lines(models, limit, indent@));
}

/// The lines of the status of a thread.
pub open spec fn thread_status_lines(summary: ThreadSummaryModel, thread: ThreadModel, workspace_label: Seq<char>) -> Seq<
    Seq<char>,
> {
    Seq::empty().push(
        "Status for thread "@ + named_label(or_empty(summary.name), summary.id) + " in workspace "@ + workspace_label
            + ":"@,
    ).push("- status: "@ + thread_status_name(summary.status)).push(
        "- current_task: "@ + text_or(thread.current_task, "none"@),
    ).push("- next_step: "@ + text_or(thread.next_expected_step, "pending update"@)).push(
        "- last_activity_at_ms: "@ + time_text(summary.last_activity_at_ms),
    ).push("- blockers: "@ + blockers_text(thread.blockers)).push("- messages: "@ + count_text(summary.message_count)).push(
        "- unread: "@ + count_text(summary.unread_count),
    ).push("- active_turn_id: "@ + text_or(thread.active_turn_id, "none"@))
}

/// The status of a thread.
pub fn format_thread_status_message(
    summary: &StatusThreadSummary,
    thread: &SupervisorThreadState,
    workspace_label: &str,
) -> (text: String)
    ensures
        text@ == joined_lines(thread_status_lines(summary@, thread@, workspace_label@)),
{
    let mut lines = no_lines();
    let mut head = "Status for thread ".to_owned();
    head.append(thread_summary_label(summary).as_str());
    head.append(" in workspace ");
    head.append(workspace_label);
    head.append(":");
    push_line(&mut lines, head);
    push_line(&mut lines, labelled("- status: ", thread_status_label(&summary.status)));
    push_line(&mut lines, labelled("- current_task: ", text_or_else(&thread.current_task, "none")));
    push_line(&mut lines, labelled("- next_step: ", text_or_else(&thread.next_expected_step, "pending update")));
    push_line(&mut lines, labelled("- last_activity_at_ms: ", time_label(summary.last_activity_at_ms).as_str()));
    push_line(&mut lines, labelled("- blockers: ", blockers_label(&thread.blockers).as_str()));
    push_line(&mut lines, labelled("- messages: ", count_label(summary.message_count).as_str()));
    push_line(&mut lines, labelled("- unread: ", count_label(summary.unread_count).as_str()));
    push_line(&mut lines, labelled("- active_turn_id: ", text_or_else(&thread.active_turn_id, "none")));
    join_lines(&lines)
}

/// The first summary with the id.
pub open spec fn summary_with_id(summaries: Seq<ThreadSummaryModel>, thread_id: Seq<char>) -> Option<ThreadSummaryModel>
    decreases summaries.len(),
{
    if summaries.len() == 0 {
        None
    } else {
        match summary_with_id(summaries.drop_last(), thread_id) {
            Some(found) => Some(found),
            None => if summaries.last().id == thread_id {
                Some(summaries.last())
            } else {
                None
            },
        }
    }
}

/// A summary found among the first `n` is the one found among all.
pub proof fn lemma_summary_stays(summaries: Seq<ThreadSummaryModel>, thread_id: Seq<char>, n: int)
    requires
        0 <= n <= summaries.len(),
        summary_with_id(summaries.take(n), thread_id) is Some,
    ensures
        summary_with_id(summaries, thread_id) == summary_with_id(summaries.take(n), thread_id),
    decreases summaries.len() - n,
{
    if n < summaries.len() {
        assert(summaries.take(n + 1).drop_last() =~= summaries.take(n));
        lemma_summary_stays(summaries, thread_id, n + 1);
    } else {
        assert(summaries.take(n) =~= summaries);
    }
}

fn take_summary(summaries: Vec<StatusThreadSummary>, thread_id: &str) -> (found: Option<StatusThreadSummary>)
    ensures
        found.deep_view() == summary_with_id(summaries.deep_view(), thread_id@),
{
    let ghost models = summaries.deep_view();
    let mut i: usize = 0;
    assert(models.take(0) =~= Seq::<ThreadSummaryModel>::empty());
    while i < summaries.len()
        invariant
            i <= summaries.len(),
            models == summaries.deep_view(),
            summary_with_id(models.take(i as int), thread_id@) is None,
        decreases summaries.len() - i,
    {
        proof {
            assert(models.take(i + 1).drop_last() =~= models.take(i as int));
            assert(models.take(i + 1).last() == models[i as int]);
        }
        if text_eq(summaries[i].id.as_str(), thread_id) {
            proof {
                lemma_summary_stays(models, thread_id@, i + 1);
            }
            return Some(summaries[i].clone());
        }
        i += 1;
    }
    assert(models.take(i as int) =~= models);
    None
}

/// The test that picks the threads with an id.
pub open spec fn thread_id_picker(thread_id: Seq<char>) -> spec_fn((Seq<char>, ThreadModel)) -> bool {
    |e: (Seq<char>, ThreadModel)| e.1.id == thread_id
}

/// Whether two of the threads belong to different workspaces.
pub open spec fn owners_differ(threads: Seq<(Seq<char>, ThreadModel)>) -> bool {
    exists|i: int| 0 <= i < threads.len() && (#[trigger] threads[i]).1.workspace_id != threads[0].1.workspace_id
}

/// The message that a thread is not in a workspace.
pub open spec fn not_in_workspace(thread_id: Seq<char>, workspace_id: Seq<char>) -> Seq<char> {
    "thread `"@ + thread_id + "` not found in workspace `"@ + workspace_id + "`"@
}

/// What a status answer tells of the thread with the id, in the workspace
/// where one is named, or why it tells nothing: no such thread, or threads
/// with the id in more than one workspace.
pub open spec fn found_summary(state: StateModel, workspace_id: Option<Seq<char>>, thread_id: Seq<char>) -> Result<
    ThreadSummaryModel,
    Seq<char>,
> {
    match workspace_id {
        Some(ws) => match summary_with_id(thread_summaries_of(state, ws), thread_id) {
            Some(summary) => Ok(summary),
            None => Err(not_in_workspace(thread_id, ws)),
        },
        None => {
            let owned = state.threads.filter(thread_id_picker(thread_id));
            if owned.len() == 0 {
                Err("thread `"@ + thread_id + "` not found"@)
            } else if owners_differ(owned) {
                Err(
                    "thread `"@ + thread_id
                        + "` exists in multiple workspaces; use `/status <workspace_id> --thread "@ + thread_id
                        + "`"@,
                )
            } else {
                let ws = owned[0].1.workspace_id;
                match summary_with_id(thread_summaries_of(state, ws), thread_id) {
                    Some(summary) => Ok(summary),
                    None => Err(not_in_workspace(thread_id, ws)),
                }
            }
        },
    }
}

fn not_in_workspace_message(thread_id: &str, workspace_id: &str) -> (text: String)
    ensures
        text@ == not_in_workspace(thread_id@, workspace_id@),
{
    let mut text = "thread `".to_owned();
    text.append(thread_id);
    text.append("` not found in workspace `");
    text.append(workspace_id);
    text.append("`");
    text
}

/// What a status answer tells of the thread with the id.
pub fn find_thread_summary(state: &SupervisorState, workspace_id: Option<&str>, thread_id: &str) -> (found: Result<
    StatusThreadSummary,
    String,
>)
    ensures
        result_model(found) == found_summary(state@, workspace_id.deep_view(), thread_id@),
{
    match workspace_id {
        Some(ws) => {
            return match take_summary(collect_workspace_thread_summaries(state, ws), thread_id) {
                Some(summary) => Ok(summary),
                None => Err(not_in_workspace_message(thread_id, ws)),
            };
        },
        None => {},
    }
    let ghost threads = state.threads@;
    let ghost picker = thread_id_picker(thread_id@);
    let mut first: Option<usize> = None;
    let mut several = false;
    let mut i: usize = 0;
    assert(threads.take(0) =~= Seq::<(Seq<char>, ThreadModel)>::empty());
    assert(threads.take(0).filter(picker) =~= Seq::<(Seq<char>, ThreadModel)>::empty()) by {
        reveal(Seq::filter);
    }
    while i < state.threads.len()
        invariant
            i <= threads.len(),
            threads == state.threads@,
            picker == thread_id_picker(thread_id@),
            match first {
                Some(place) => place < i && threads.take(i as int).filter(picker).len() > 0 && threads.take(
                    i as int,
                ).filter(picker)[0] == threads[place as int],
                None => threads.take(i as int).filter(picker).len() == 0,
            },
            several == owners_differ(threads.take(i as int).filter(picker)),
        decreases threads.len() - i,
    {
        let thread = state.threads.value_at(i);
        let ghost before = threads.take(i as int).filter(picker);
        proof {
            assert(threads.take(i + 1) =~= threads.take(i as int).push(threads[i as int]));
            threads.take(i as int).lemma_filter_push(threads[i as int], picker);
            assert(picker(threads[i as int]) == (threads[i as int].1.id == thread_id@));
        }
        if text_eq(thread.id.as_str(), thread_id) {
            let ghost after = before.push(threads[i as int]);
            match first {
                Some(place) => {
                    let differs = !text_eq(
                        state.threads.value_at(place).workspace_id.as_str(),
                        thread.workspace_id.as_str(),
                    );
                    proof {
                        assert(after[0] == before[0]);
                        if owners_differ(before) {
                            let k = choose|k: int|
                                0 <= k < before.len() && (#[trigger] before[k]).1.workspace_id
                                    != before[0].1.workspace_id;
                            assert(after[k] == before[k]);
                        }
                        if differs {
                            assert(after[before.len() as int] == threads[i as int]);
                        }
                        if owners_differ(after) && !owners_differ(before) {
                            let k = choose|k: int|
                                0 <= k < after.len() && (#[trigger] after[k]).1.workspace_id != after[0].1.workspace_id;
                            if k < before.len() {
                                assert(after[k] == before[k]);
                            }
                        }
                    }
                    if differs {
                        several = true;
                    }
                },
                None => {
                    proof {
                        assert(after.len() == 1);
                        assert(!owners_differ(after));
                    }
                    first = Some(i);
                },
            }
        }
        i += 1;
    }
    assert(threads.take(i as int) =~= threads);
    let place = match first {
        Some(place) => place,
        None => {
            let mut text = "thread `".to_owned();
            text.append(thread_id);
            text.append("` not found");
            return Err(text);
        },
    };
    if several {
        let mut text = "thread `".to_owned();
        text.append(thread_id);
        text.append("` exists in multiple workspaces; use `/status <workspace_id> --thread ");
        text.append(thread_id);
        text.append("`");
        return Err(text);
    }
    let ws = state.threads.value_at(place).workspace_id.as_str();
    match take_summary(collect_workspace_thread_summaries(state, ws), thread_id) {
        Some(summary) => Ok(summary),
        None => Err(not_in_workspace_message(thread_id, ws)),
    }
}

/// How many signals wait for the operator.
pub open spec fn pending_signals_of(state: StateModel) -> nat {
    count_where(Seq::new(state.signals.len(), |i: int| state.signals[i].acknowledged_at_ms is None))
}

/// How many signals of the workspace wait for the operator.
pub open spec fn workspace_pending_signals_of(state: StateModel, workspace_id: Seq<char>) -> nat {
    count_where(
        Seq::new(
            state.signals.len(),
            |i: int|
                state.signals[i].acknowledged_at_ms is None && state.signals[i].workspace_id == Some(workspace_id),
        ),
    )
}

/// How many jobs belong to the workspace.
pub open spec fn workspace_jobs_of(state: StateModel, workspace_id: Seq<char>) -> nat {
    count_where(Seq::new(state.jobs.len(), |i: int| state.jobs[i].1.workspace_id == workspace_id))
}

fn count_pending_signals(state: &SupervisorState) -> (n: usize)
    ensures
        n == pending_signals_of(state@),
{
    let mut marks: Vec<bool> = Vec::new();
    let mut i: usize = 0;
    while i < state.signals.len()
        invariant
            i <= state.signals.len(),
            marks@.len() == i,
            forall|j: int| 0 <= j < i ==> marks@[j] == (state@.signals[j].acknowledged_at_ms is None),
        decreases state.signals.len() - i,
    {
        marks.push(state.signals[i].acknowledged_at_ms.is_none());
        i += 1;
    }
    assert(marks@ =~= Seq::new(state@.signals.len(), |i: int| state@.signals[i].acknowledged_at_ms is None));
    count_marks(&marks)
}

fn count_workspace_pending_signals(state: &SupervisorState, workspace_id: &str) -> (n: usize)
    ensures
        n == workspace_pending_signals_of(state@, workspace_id@),
{
    let mut marks: Vec<bool> = Vec::new();
    let mut i: usize = 0;
    while i < state.signals.len()
        invariant
            i <= state.signals.len(),
            marks@.len() == i,
            forall|j: int|
                0 <= j < i ==> marks@[j] == (state@.signals[j].acknowledged_at_ms is None
                    && state@.signals[j].workspace_id == Some(workspace_id@)),
        decreases state.signals.len() - i,
    {
        marks.push(
            state.signals[i].acknowledged_at_ms.is_none() && same_opt(&state.signals[i].workspace_id, workspace_id),
        );
        i += 1;
    }
    assert(marks@ =~= Seq::new(
        state@.signals.len(),
        |i: int|
            state@.signals[i].acknowledged_at_ms is None && state@.signals[i].workspace_id == Some(workspace_id@),
    ));
    count_marks(&marks)
}

fn count_workspace_jobs(state: &SupervisorState, workspace_id: &str) -> (n: usize)
    ensures
        n == workspace_jobs_of(state@, workspace_id@),
{
    let mut marks: Vec<bool> = Vec::new();
    let mut i: usize = 0;
    while i < state.jobs.len()
        invariant
            i <= state.jobs@.len(),
            marks@.len() == i,
            forall|j: int| 0 <= j < i ==> marks@[j] == (state@.jobs[j].1.workspace_id == workspace_id@),
        decreases state.jobs@.len() - i,
    {
        marks.push(text_eq(state.jobs.value_at(i).workspace_id.as_str(), workspace_id));
        i += 1;
    }
    assert(marks@ =~= Seq::new(state@.jobs.len(), |i: int| state@.jobs[i].1.workspace_id == workspace_id@));
    count_marks(&marks)
}

/// The lines of the status of a workspace.
pub open spec fn workspace_status_lines(state: StateModel, workspace_id: Seq<char>, workspace: WorkspaceModel) -> Seq<
    Seq<char>,
> {
    let summaries = thread_summaries_of(state, workspace_id);
    (Seq::empty().push("Status for workspace "@ + named_label(workspace.name, workspace.id) + ":"@).push(
        "- connected: "@ + (if workspace.connected {
            "yes"@
        } else {
            "no"@
        }),
    ).push("- health: "@ + health_name(workspace.health)).push(
        "- current_task: "@ + text_or(workspace.current_task, "none"@),
    ).push("- next_step: "@ + text_or(workspace.next_expected_step, "pending update"@)).push(
        "- last_activity_at_ms: "@ + time_text(workspace.last_activity_at_ms),
    ).push("- blockers: "@ + blockers_text(workspace.blockers)).push(
        "- threads: "@ + count_text(summaries.len() as usize),
    ) + details_lines(summaries, STATUS_THREADS_PER_WORKSPACE_LIMIT, Seq::empty())).push(
        "- jobs: "@ + count_text(workspace_jobs_of(state, workspace_id) as usize),
    ).push("- pending_signals: "@ + count_text(workspace_pending_signals_of(state, workspace_id) as usize))
}

/// The lines that the global status has for one workspace.
pub open spec fn workspace_block(state: StateModel, workspace: WorkspaceModel) -> Seq<Seq<char>> {
    let summaries = thread_summaries_of(state, workspace.id);
    Seq::empty().push(
        "  - "@ + named_label(workspace.name, workspace.id) + " ("@ + health_name(workspace.health) + "): "@ + text_or(
            workspace.current_task,
            "idle"@,
        ),
    ).push("    - threads: "@ + count_text(summaries.len() as usize) + " active"@) + details_lines(
        summaries,
        STATUS_THREADS_PER_WORKSPACE_LIMIT,
        "    "@,
    )
}

/// The lines that the global status has for the first `n` workspaces in the given order.
pub open spec fn workspace_blocks(state: StateModel, order: Seq<usize>, n: nat) -> Seq<Seq<char>>
    decreases n,
{
    if n == 0 {
        Seq::empty()
    } else {
        workspace_blocks(state, order, (n - 1) as nat) + workspace_block(
            state,
            state.workspaces[order[n - 1] as int].1,
        )
    }
}

/// What the workspaces of the global status are ordered by: their keys.
pub open spec fn key_ranks(workspaces: Seq<(Seq<char>, WorkspaceModel)>) -> Seq<RankKeyModel> {
    Seq::new(workspaces.len(), |i: int| RankKeyModel { major: 0, minor: 0, label: workspaces[i].0 })
}

/// The lines of the global status: the counts, and the workspaces by key.
pub open spec fn global_status_lines(state: StateModel) -> Seq<Seq<char>> {
    let head = Seq::empty().push("Global supervisor status:"@).push(
        "- workspaces: "@ + count_text(state.workspaces.len() as usize),
    ).push("- threads: "@ + count_text(state.threads.len() as usize)).push(
        "- jobs: "@ + count_text(state.jobs.len() as usize),
    ).push("- pending_signals: "@ + count_text(pending_signals_of(state) as usize)).push(
        "- pending_approvals: "@ + count_text(state.pending_approvals.len() as usize),
    ).push("- open_questions: "@ + count_text(state.open_questions.len() as usize));
    if state.workspaces.len() == 0 {
        head.push("- workspaces_detail: none"@)
    } else {
        head.push("- workspaces_detail:"@) + workspace_blocks(
            state,
            ranking(key_ranks(state.workspaces)),
            state.workspaces.len(),
        )
    }
}

/// The status that a `/status` command asks for: of a thread, of a
/// workspace, or of everything; refused where the thread or the workspace
/// is not known.
pub open spec fn status_text(state: StateModel, workspace_id: Option<Seq<char>>, thread_id: Option<Seq<char>>) -> Result<
    Seq<char>,
    Seq<char>,
> {
    let workspace_id = present(workspace_id);
    match present(thread_id) {
        Some(thread_id) => match found_summary(state, workspace_id, thread_id) {
            Err(reason) => Err(reason),
            Ok(summary) => match table_get(state.threads, thread_key(summary.workspace_id, summary.id)) {
                None => Err(not_in_workspace(summary.id, summary.workspace_id)),
                Some(thread) => Ok(
                    joined_lines(
                        thread_status_lines(
                            summary,
                            thread,
                            match table_get(state.workspaces, summary.workspace_id) {
                                Some(workspace) => named_label(workspace.name, workspace.id),
                                None => "`"@ + summary.workspace_id + "`"@,
                            },
                        ),
                    ),
                ),
            },
        },
        None => match workspace_id {
            Some(ws) => match table_get(state.workspaces, ws) {
                None => Err("workspace `"@ + ws + "` not found"@),
                Some(workspace) => Ok(joined_lines(workspace_status_lines(state, ws, workspace))),
            },
            None => Ok(joined_lines(global_status_lines(state))),
        },
    }
}

fn trimmed_nonblank<'a>(text: Option<&'a str>) -> (out: Option<&'a str>)
    ensures
        out.deep_view() == present(text.deep_view()),
{
    match text {
        Some(t) => {
            let cut = t.trim();
            if cut.unicode_len() > 0 {
                Some(cut)
            } else {
                None
            }
        },
        None => None,
    }
}

fn format_workspace_status(state: &SupervisorState, workspace_id: &str, workspace: &SupervisorWorkspaceState) -> (text:
    String)
    ensures
        text@ == joined_lines(workspace_status_lines(state@, workspace_id@, workspace@)),
{
    let summaries = collect_workspace_thread_summaries(state, workspace_id);
    let mut lines = no_lines();
    let mut head = "Status for workspace ".to_owned();
    head.append(workspace_summary_label(workspace).as_str());
    head.append(":");
    push_line(&mut lines, head);
    push_line(
        &mut lines,
        labelled(
            "- connected: ",
            if workspace.connected {
                "yes"
            } else {
                "no"
            },
        ),
    );
    push_line(&mut lines, labelled("- health: ", health_label(&workspace.health)));
    push_line(&mut lines, labelled("- current_task: ", text_or_else(&workspace.current_task, "none")));
    push_line(&mut lines, labelled("- next_step: ", text_or_else(&workspace.next_expected_step, "pending update")));
    push_line(&mut lines, labelled("- last_activity_at_ms: ", time_label(workspace.last_activity_at_ms).as_str()));
    push_line(&mut lines, labelled("- blockers: ", blockers_label(&workspace.blockers).as_str()));
    push_line(&mut lines, labelled("- threads: ", count_label(summaries.len()).as_str()));
    proof {
        reveal_strlit("");
        assert(""@ =~= Seq::<char>::empty());
    }
    append_thread_details_lines(&mut lines, &summaries, STATUS_THREADS_PER_WORKSPACE_LIMIT, "");
    push_line(&mut lines, labelled("- jobs: ", count_label(count_workspace_jobs(state, workspace_id)).as_str()));
    push_line(
        &mut lines,
        labelled("- pending_signals: ", count_label(count_workspace_pending_signals(state, workspace_id)).as_str()),
    );
    join_lines(&lines)
}

fn append_workspace_block(lines: &mut Vec<String>, state: &SupervisorState, workspace: &SupervisorWorkspaceState)
    ensures
        final(lines).deep_view() == old(lines).deep_view() + workspace_block(state@, workspace@),
{
    let ghost before = lines.deep_view();
    let summaries = collect_workspace_thread_summaries(state, workspace.id.as_str());
    let mut first = "  - ".to_owned();
    first.append(workspace_summary_label(workspace).as_str());
    first.append(" (");
    first.append(health_label(&workspace.health));
    first.append("): ");
    first.append(text_or_else(&workspace.current_task, "idle"));
    let ghost first_model = first@;
    push_line(lines, first);
    let mut second = "    - threads: ".to_owned();
    second.append(count_label(summaries.len()).as_str());
    second.append(" active");
    let ghost second_model = second@;
    push_line(lines, second);
    append_thread_details_lines(lines, &summaries, STATUS_THREADS_PER_WORKSPACE_LIMIT, "    ");
    assert(lines.deep_view() =~= before + workspace_block(state@, workspace@));
}

fn format_global_status(state: &SupervisorState) -> (text: String)
    ensures
        text@ == joined_lines(global_status_lines(state@)),
{
    let mut lines = no_lines();
    push_line(&mut lines, "Global supervisor status:".to_owned());
    push_line(&mut lines, labelled("- workspaces: ", count_label(state.workspaces.len()).as_str()));
    push_line(&mut lines, labelled("- threads: ", count_label(state.threads.len()).as_str()));
    push_line(&mut lines, labelled("- jobs: ", count_label(state.jobs.len()).as_str()));
    push_line(&mut lines, labelled("- pending_signals: ", count_label(count_pending_signals(state)).as_str()));
    push_line(&mut lines, labelled("- pending_approvals: ", count_label(state.pending_approvals.len()).as_str()));
    push_line(&mut lines, labelled("- open_questions: ", count_label(state.open_questions.len()).as_str()));
    if state.workspaces.len() == 0 {
        push_line(&mut lines, "- workspaces_detail: none".to_owned());
        return join_lines(&lines);
    }
    push_line(&mut lines, "- workspaces_detail:".to_owned());
    let ghost head = lines.deep_view();
    let mut keys: Vec<RankKey> = Vec::new();
    let mut i: usize = 0;
    while i < state.workspaces.len()
        invariant
            i <= state.workspaces@.len(),
            keys@.len() == i,
            forall|j: int|
                0 <= j < i ==> (#[trigger] keys@[j])@ == (RankKeyModel {
                    major: 0,
                    minor: 0,
                    label: state.workspaces@[j].0,
                }),
        decreases state.workspaces@.len() - i,
    {
        keys.push(RankKey { major: 0, minor: 0, label: state.workspaces.key_at(i).clone() });
        i += 1;
    }
    assert(keys.deep_view() =~= key_ranks(state@.workspaces));
    let order = rank_order(&keys);
    let mut k: usize = 0;
    assert(lines.deep_view() =~= head + workspace_blocks(state@, order@, 0));
    while k < order.len()
        invariant
            k <= order.len(),
            order@.len() == state.workspaces@.len(),
            forall|n: int| 0 <= n < order@.len() ==> (#[trigger] order@[n]) < state.workspaces@.len(),
            lines.deep_view() == head + workspace_blocks(state@, order@, k as nat),
        decreases order.len() - k,
    {
        let ghost current = lines.deep_view();
        append_workspace_block(&mut lines, state, state.workspaces.value_at(order[k]));
        assert(lines.deep_view() =~= head + workspace_blocks(state@, order@, (k + 1) as nat));
        k += 1;
    }
    join_lines(&lines)
}

/// The status that a `/status` command asks for.
pub fn format_status_message(state: &SupervisorState, workspace_id: Option<&str>, thread_id: Option<&str>) -> (text:
    Result<String, String>)
    ensures
        result_model(text) == status_text(state@, workspace_id.deep_view(), thread_id.deep_view()),
{
    let workspace_id = trimmed_nonblank(workspace_id);
    let thread_id = trimmed_nonblank(thread_id);
    match thread_id {
        Some(thread_id) => {
            let summary = match find_thread_summary(state, workspace_id, thread_id) {
                Ok(summary) => summary,
                Err(reason) => {
                    return Err(reason);
                },
            };
            let key = thread_map_key(summary.workspace_id.as_str(), summary.id.as_str());
            let thread = match state.threads.get(key.as_str()) {
                Some(thread) => thread,
                None => {
                    return Err(not_in_workspace_message(summary.id.as_str(), summary.workspace_id.as_str()));
                },
            };
            let workspace_label = match state.workspaces.get(summary.workspace_id.as_str()) {
                Some(workspace) => workspace_summary_label(workspace),
                None => {
                    let mut label = "`".to_owned();
                    label.append(summary.workspace_id.as_str());
                    label.append("`");
                    label
                },
            };
            return Ok(format_thread_status_message(&summary, thread, workspace_label.as_str()));
        },
        None => {},
    }
    match workspace_id {
        Some(ws) => match state.workspaces.get(ws) {
            None => {
                let mut reason = "workspace `".to_owned();
                reason.append(ws);
                reason.append("` not found");
                Err(reason)
            },
            Some(workspace) => Ok(format_workspace_status(state, ws, workspace)),
        },
        None => Ok(format_global_status(state)),
    }
}

/// The line of an entry in a feed answer.
pub open spec fn feed_line(entry: ActivityModel) -> Seq<char> {
    "- ["@ + entry.kind + "] "@ + entry.message + " (ws: "@ + text_or(entry.workspace_id, "global"@) + ", thread: "@
        + text_or(entry.thread_id, "-"@) + ", at: "@ + integer_text(entry.created_at_ms as int) + ")"@ + (if entry.needs_input {
        " [needs_input]"@
    } else {
        ""@
    })
}

/// The lines of a feed answer.
pub open spec fn feed_lines(items: Seq<ActivityModel>, total: usize, needs_input_only: bool) -> Seq<Seq<char>> {
    let head = Seq::empty().push(
        "Activity feed"@ + (if needs_input_only {
            " (needs input)"@
        } else {
            ""@
        }) + ": showing "@ + count_text(items.len() as usize) + " of "@ + count_text(total),
    );
    if items.len() == 0 {
        head.push("- no activity entries"@)
    } else {
        head + Seq::new(items.len(), |i: int| feed_line(items[i]))
    }
}

/// A feed answer.
pub fn format_feed_message(items: &Vec<SupervisorActivityEntry>, total: usize, needs_input_only: bool) -> (text:
    String)
    ensures
        text@ == joined_lines(feed_lines(items.deep_view(), total, needs_input_only)),
{
    let ghost models = items.deep_view();
    let mut lines = no_lines();
    let mut head = "Activity feed".to_owned();
    head.append(
        if needs_input_only {
            " (needs input)"
        } else {
            ""
        },
    );
    head.append(": showing ");
    head.append(count_label(items.len()).as_str());
    head.append(" of ");
    head.append(count_label(total).as_str());
    let ghost head_model = head@;
    push_line(&mut lines, head);
    if items.len() == 0 {
        push_line(&mut lines, "- no activity entries".to_owned());
        return join_lines(&lines);
    }
    let mut i: usize = 0;
    assert(lines.deep_view() =~= Seq::empty().push(head_model) + Seq::new(0, |j: int| feed_line(models[j])));
    while i < items.len()
        invariant
            i <= items.len(),
            models == items.deep_view(),
            lines.deep_view() == Seq::empty().push(head_model) + Seq::new(i as nat, |j: int| feed_line(models[j])),
        decreases items.len() - i,
    {
        let entry = &items[i];
        let mut line = "- [".to_owned();
        line.append(entry.kind.as_str());
        line.append("] ");
        line.append(entry.message.as_str());
        line.append(" (ws: ");
        line.append(text_or_else(&entry.workspace_id, "global"));
        line.append(", thread: ");
        line.append(text_or_else(&entry.thread_id, "-"));
        line.append(", at: ");
        line.append(decimal(entry.created_at_ms as i128).as_str());
        line.append(")");
        line.append(
            if entry.needs_input {
                " [needs_input]"
            } else {
                ""
            },
        );
        push_line(&mut lines, line);
        assert(lines.deep_view() =~= Seq::empty().push(head_model) + Seq::new(
            (i + 1) as nat,
            |j: int| feed_line(models[j]),
        ));
        i += 1;
    }
    assert(lines.deep_view() =~= feed_lines(models, total, needs_input_only));
    join_lines(&lines)
}

/// The first `n` characters of a text, or all of it where it is shorter.
pub open spec fn first_chars(text: Seq<char>, n: nat) -> Seq<char> {
    if text.len() <= n {
        text
    } else {
        text.subrange(0, n as int)
    }
}

/// The line of an outcome in a dispatch answer.
pub open spec fn outcome_line(result: ResultModel) -> Seq<char> {
    match result.status {
        SupervisorDispatchStatus::Dispatched => "- "@ + result.workspace_id + ": started"@ + (if result.idempotent_replay {
            " (reused existing run)"@
        } else {
            ""@
        }),
        SupervisorDispatchStatus::Failed => "- "@ + result.workspace_id + ": failed to start ("@ + text_or(
            result.error,
            "unknown error"@,
        ) + ")"@,
    }
}

/// How many of the outcomes are dispatched.
pub open spec fn dispatched_count(results: Seq<ResultModel>) -> nat {
    count_where(Seq::new(results.len(), |i: int| results[i].status == SupervisorDispatchStatus::Dispatched))
}

/// The lines of a dispatch answer.
pub open spec fn dispatch_lines(request: DispatchRequestModel, results: Seq<ResultModel>) -> Seq<Seq<char>> {
    Seq::empty().push(
        "Sent task to "@ + count_text(request.workspace_ids.len() as usize) + " workspace(s): "@ + count_text(
            dispatched_count(results) as usize,
        ) + " succeeded, "@ + count_text((results.len() - dispatched_count(results)) as usize) + " failed."@,
    ).push("Task: "@ + first_chars(trimmed(request.prompt), 140)) + Seq::new(
        results.len(),
        |i: int| outcome_line(results[i]),
    )
}

/// A dispatch answer.
pub fn format_dispatch_message(request: &SupervisorChatDispatchRequest, dispatch: &SupervisorDispatchBatchResult) -> (text:
    String)
    ensures
        text@ == joined_lines(dispatch_lines(request@, dispatch@.results)),
{
    let ghost results = dispatch@.results;
    let total = dispatch.results.len();
    let mut marks: Vec<bool> = Vec::new();
    let mut i: usize = 0;
    while i < dispatch.results.len()
        invariant
            i <= dispatch.results.len(),
            results == dispatch@.results,
            marks@.len() == i,
            forall|j: int| 0 <= j < i ==> marks@[j] == (results[j].status == SupervisorDispatchStatus::Dispatched),
        decreases dispatch.results.len() - i,
    {
        marks.push(
            match dispatch.results[i].status {
                SupervisorDispatchStatus::Dispatched => true,
                SupervisorDispatchStatus::Failed => false,
            },
        );
        i += 1;
    }
    assert(marks@ =~= Seq::new(results.len(), |i: int| results[i].status == SupervisorDispatchStatus::Dispatched));
    proof {
        lemma_count_bound(marks@);
    }
    let dispatched = count_marks(&marks);
    let failed = total - dispatched;
    let mut lines = no_lines();
    let mut head = "Sent task to ".to_owned();
    head.append(count_label(request.workspace_ids.len()).as_str());
    head.append(" workspace(s): ");
    head.append(count_label(dispatched).as_str());
    head.append(" succeeded, ");
    head.append(count_label(failed).as_str());
    head.append(" failed.");
    let ghost head_model = head@;
    push_line(&mut lines, head);
    let prompt = request.prompt.as_str().trim();
    let task = if prompt.unicode_len() <= 140 {
        labelled("Task: ", prompt)
    } else {
        labelled("Task: ", prompt.substring_char(0, 140))
    };
    let ghost task_model = task@;
    push_line(&mut lines, task);
    let ghost base = lines.deep_view();
    let mut k: usize = 0;
    assert(lines.deep_view() =~= base + Seq::new(0, |j: int| outcome_line(results[j])));
    while k < dispatch.results.len()
        invariant
            k <= dispatch.results.len(),
            results == dispatch@.results,
            lines.deep_view() == base + Seq::new(k as nat, |j: int| outcome_line(results[j])),
        decreases dispatch.results.len() - k,
    {
        let item = &dispatch.results[k];
        let line = match item.status {
            SupervisorDispatchStatus::Dispatched => {
                let mut line = "- ".to_owned();
                line.append(item.workspace_id.as_str());
                line.append(": started");
                line.append(
                    if item.idempotent_replay {
                        " (reused existing run)"
                    } else {
                        ""
                    },
                );
                line
            },
            SupervisorDispatchStatus::Failed => {
                let mut line = "- ".to_owned();
                line.append(item.workspace_id.as_str());
                line.append(": failed to start (");
                line.append(text_or_else(&item.error, "unknown error"));
                line.append(")");
                line
            },
        };
        push_line(&mut lines, line);
        assert(lines.deep_view() =~= base + Seq::new((k + 1) as nat, |j: int| outcome_line(results[j])));
        k += 1;
    }
    assert(lines.deep_view() =~= dispatch_lines(request@, results));
    join_lines(&lines)
}

/// The lines that ask the operator where a message should go.
pub open spec fn clarification_lines(route: RouteDecisionModel) -> Seq<Seq<char>> {
    let head = Seq::empty().push("Need clarification before dispatching."@).push("Reason: "@ + route.reason);
    let with_note = match route.fallback_message {
        Some(note) => head.push("Fallback note: "@ + note),
        None => head,
    };
    let with_question = match route.clarification {
        Some(question) => with_note.push("Question: "@ + question),
        None => with_note,
    };
    if route.options.len() > 0 {
        with_question.push("Candidate workspaces: "@ + joined(route.options, ", "@))
    } else {
        with_question
    }
}

/// The answer that asks the operator where a message should go.
pub fn format_route_clarification(route: &SupervisorRouteDecision) -> (text: String)
    ensures
        text@ == joined_lines(clarification_lines(route@)),
{
    let mut lines = no_lines();
    push_line(&mut lines, "Need clarification before dispatching.".to_owned());
    push_line(&mut lines, labelled("Reason: ", route.reason.as_str()));
    match &route.fallback_message {
        Some(note) => {
            push_line(&mut lines, labelled("Fallback note: ", note.as_str()));
        },
        None => {},
    }
    match &route.clarification {
        Some(question) => {
            push_line(&mut lines, labelled("Question: ", question.as_str()));
        },
        None => {},
    }
    if route.options.len() > 0 {
        push_line(&mut lines, labelled("Candidate workspaces: ", join_with(&route.options, ", ").as_str()));
    }
    join_lines(&lines)
}

/// The action that a dispatch request states for one workspace.
pub open spec fn contract_action(request: DispatchRequestModel, action_id_prefix: Seq<char>, index: int) -> JsonModel {
    JsonModel::Object(
        Seq::empty().push(("type"@, JsonModel::Text("dispatch_turn"@))).push(
            ("action_id"@, JsonModel::Text(action_id_prefix + "-"@ + integer_text(index + 1))),
        ).push(("workspace_id"@, JsonModel::Text(request.workspace_ids[index]))).push(
            ("prompt"@, JsonModel::Text(request.prompt)),
        ).push(("thread_id"@, text_or_null_model(request.thread_id))).push(
            ("dedupe_key"@, text_or_null_model(request.dedupe_key)),
        ).push(("model"@, text_or_null_model(request.model))).push(("effort"@, text_or_null_model(request.effort))).push(
            ("access_mode"@, text_or_null_model(request.access_mode)),
        ).push(("route_kind"@, text_or_null_model(request.route_kind))).push(
            ("route_reason"@, text_or_null_model(request.route_reason)),
        ).push(("route_fallback"@, text_or_null_model(request.route_fallback))),
    )
}

/// The contract that a dispatch request states: one action for each
/// workspace, numbered from one after the prefix.
pub open spec fn dispatch_contract_of(request: DispatchRequestModel, action_id_prefix: Seq<char>) -> JsonModel {
    JsonModel::Object(
        Seq::empty().push(("version"@, JsonModel::Text(SUPERVISOR_ACTION_CONTRACT_VERSION@))).push(
            (
                "actions"@,
                JsonModel::Array(
                    Seq::new(request.workspace_ids.len(), |i: int| contract_action(request, action_id_prefix, i)),
                ),
            ),
        ),
    )
}

/// The contract that a dispatch request states.
pub fn build_dispatch_contract(request: &SupervisorChatDispatchRequest, action_id_prefix: &str) -> (contract: JsonValue)
    ensures
        contract@ == dispatch_contract_of(request@, action_id_prefix@),
{
    let mut actions: Vec<JsonValue> = Vec::new();
    let mut i: usize = 0;
    while i < request.workspace_ids.len()
        invariant
            i <= request.workspace_ids.len(),
            actions@.len() == i,
            forall|j: int| 0 <= j < i ==> (#[trigger] actions@[j])@ == contract_action(request@, action_id_prefix@, j),
        decreases request.workspace_ids.len() - i,
    {
        let mut action_id = action_id_prefix.to_owned();
        action_id.append("-");
        action_id.append(decimal(i as i128 + 1).as_str());
        let mut members = new_members();
        push_member(&mut members, "type", JsonValue::text("dispatch_turn"));
        push_member(&mut members, "action_id", JsonValue::Text(action_id));
        push_member(&mut members, "workspace_id", JsonValue::text(request.workspace_ids[i].as_str()));
        push_member(&mut members, "prompt", JsonValue::text(request.prompt.as_str()));
        push_member(&mut members, "thread_id", JsonValue::text_or_null(&request.thread_id));
        push_member(&mut members, "dedupe_key", JsonValue::text_or_null(&request.dedupe_key));
        push_member(&mut members, "model", JsonValue::text_or_null(&request.model));
        push_member(&mut members, "effort", JsonValue::text_or_null(&request.effort));
        push_member(&mut members, "access_mode", JsonValue::text_or_null(&request.access_mode));
        push_member(&mut members, "route_kind", JsonValue::text_or_null(&request.route_kind));
        push_member(&mut members, "route_reason", JsonValue::text_or_null(&request.route_reason));
        push_member(&mut members, "route_fallback", JsonValue::text_or_null(&request.route_fallback));
        actions.push(JsonValue::object(members));
        i += 1;
    }
    let actions_value = JsonValue::Array(actions);
    assert(actions_value@->Array_0 =~= Seq::new(
        request@.workspace_ids.len(),
        |i: int| contract_action(request@, action_id_prefix@, i),
    ));
    let mut members = new_members();
    push_member(&mut members, "version", JsonValue::text(SUPERVISOR_ACTION_CONTRACT_VERSION));
    push_member(&mut members, "actions", actions_value);
    JsonValue::object(members)
}

} // verus!
