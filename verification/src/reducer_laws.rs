use vstd::prelude::*;

use crate::model::{
    ApprovalModel, JobModel, QuestionModel, StateModel, SupervisorActivityEntry, SupervisorJobState,
    SupervisorOpenQuestion, SupervisorPendingApproval, SupervisorSignal, SupervisorThreadState, ThreadModel,
    WorkspaceModel, SUPERVISOR_SUBTASK_EVENT_LIMIT,
};
use crate::reducer::{
    effective_limit, ident_index, outside_thread, outside_workspace, pushed_newest, reduced, table_changed, thread_key,
    Identified, UpdateModel,
};
use crate::table::{
    distinct_keys, key_index, keyed_by, lemma_filter_keeps_keyed, lemma_filter_keeps_ordered, lemma_key_index,
    lemma_put_keeps_keyed, lemma_put_keeps_ordered, lemma_remove_keeps_keyed, lemma_remove_keeps_ordered,
    lemma_table_remove, ordered_keys, table_get,
};

verus! {

/// No id occurs twice in the list.
pub open spec fn distinct_ids<T: Identified>(list: Seq<T::V>) -> bool {
    forall|i: int, j: int| 0 <= i < j < list.len() ==> T::model_id(list[i]) != T::model_id(list[j])
}

/// What `ident_index` finds: the first item with the id.
pub proof fn lemma_ident_index<T: Identified>(list: Seq<T::V>, id: Seq<char>)
    ensures
        match ident_index::<T>(list, id) {
            Some(i) => 0 <= i < list.len() && T::model_id(list[i]) == id && forall|j: int|
                0 <= j < i ==> T::model_id(list[j]) != id,
            None => forall|j: int| 0 <= j < list.len() ==> T::model_id(list[j]) != id,
        },
{
    let keyed = list.map_values(|m: T::V| (T::model_id(m), m));
    lemma_key_index(keyed, id);
    assert forall|j: int| 0 <= j < list.len() implies keyed[j].0 == T::model_id(list[j]) by {}
}

/// Pushing an item whose id the list holds leaves the length as it was and
/// puts the item, as given, in the first place.
pub proof fn lemma_push_existing<T: Identified>(list: Seq<T::V>, item: T::V, limit: Option<usize>)
    requires
        ident_index::<T>(list, T::model_id(item)) is Some,
        limit is Some ==> list.len() <= limit->0,
    ensures
        pushed_newest::<T>(list, item, limit).len() == list.len(),
        pushed_newest::<T>(list, item, limit)[0] == item,
{
    lemma_ident_index::<T>(list, T::model_id(item));
}

/// Pushing an item puts it in the first place, whatever the list held,
/// unless the limit is zero.
pub proof fn lemma_push_front<T: Identified>(list: Seq<T::V>, item: T::V, limit: Option<usize>)
    requires
        limit is Some ==> limit->0 > 0,
    ensures
        pushed_newest::<T>(list, item, limit).len() > 0,
        pushed_newest::<T>(list, item, limit)[0] == item,
{
    lemma_ident_index::<T>(list, T::model_id(item));
}

/// A list that was pushed to under a limit is no longer than the limit.
pub proof fn lemma_push_within_limit<T: Identified>(list: Seq<T::V>, item: T::V, limit: usize)
    ensures
        pushed_newest::<T>(list, item, Some(limit)).len() <= limit,
{
    lemma_ident_index::<T>(list, T::model_id(item));
}

/// Pushing keeps the ids distinct: each id occurs at most once afterwards.
pub proof fn lemma_push_keeps_ids_distinct<T: Identified>(list: Seq<T::V>, item: T::V, limit: Option<usize>)
    requires
        distinct_ids::<T>(list),
    ensures
        distinct_ids::<T>(pushed_newest::<T>(list, item, limit)),
{
    let id = T::model_id(item);
    lemma_ident_index::<T>(list, id);
    let without = match ident_index::<T>(list, id) {
        Some(i) => list.remove(i),
        None => list,
    };
    assert forall|j: int| 0 <= j < without.len() implies T::model_id(#[trigger] without[j]) != id by {
        match ident_index::<T>(list, id) {
            Some(i) => {
                if j < i {
                    assert(without[j] == list[j]);
                } else {
                    assert(without[j] == list[j + 1]);
                }
            },
            None => {},
        }
    }
    assert forall|a: int, b: int| 0 <= a < b < without.len() implies T::model_id(without[a]) != T::model_id(
        without[b],
    ) by {
        match ident_index::<T>(list, id) {
            Some(i) => {
                let a0 = if a < i { a } else { a + 1 };
                let b0 = if b < i { b } else { b + 1 };
                assert(without[a] == list[a0]);
                assert(without[b] == list[b0]);
            },
            None => {},
        }
    }
    let all = seq![item] + without;
    assert forall|a: int, b: int| 0 <= a < b < all.len() implies T::model_id(all[a]) != T::model_id(all[b]) by {
        assert(all[b] == without[b - 1]);
        if a > 0 {
            assert(all[a] == without[a - 1]);
        }
    }
    let out = pushed_newest::<T>(list, item, limit);
    assert forall|a: int, b: int| 0 <= a < b < out.len() implies T::model_id(out[a]) != T::model_id(out[b]) by {
        assert(out[a] == all[a]);
        assert(out[b] == all[b]);
    }
}

/// Every job keeps no more recent events than the limit.
pub open spec fn jobs_bounded(jobs: Seq<(Seq<char>, JobModel)>) -> bool {
    forall|i: int| 0 <= i < jobs.len() ==> (#[trigger] jobs[i]).1.recent_events.len() <= SUPERVISOR_SUBTASK_EVENT_LIMIT
}

/// The bounds that every state keeps: no signal id occurs twice, the
/// activity feed is no longer than `feed_limit`, and no job holds more recent
/// events than the limit.
pub open spec fn state_bounded(state: StateModel, feed_limit: usize) -> bool {
    &&& distinct_ids::<SupervisorSignal>(state.signals)
    &&& state.activity_feed.len() <= feed_limit
    &&& jobs_bounded(state.jobs)
}

/// An update that respects the bounds: a job that is put holds no more
/// recent events than the limit, and a push to the feed names a limit within
/// `feed_limit`.
pub open spec fn update_bounded(update: UpdateModel, feed_limit: usize) -> bool {
    match update {
        UpdateModel::UpsertJob(j) => j.recent_events.len() <= SUPERVISOR_SUBTASK_EVENT_LIMIT,
        UpdateModel::PushActivity { entry, max_items } => effective_limit(
            max_items,
            crate::model::DEFAULT_ACTIVITY_FEED_LIMIT,
        ) <= feed_limit,
        _ => true,
    }
}

/// Every update keeps the bounds of the state.
pub proof fn lemma_reduced_keeps_bounds(state: StateModel, update: UpdateModel, feed_limit: usize)
    requires
        state_bounded(state, feed_limit),
        update_bounded(update, feed_limit),
    ensures
        state_bounded(reduced(state, update), feed_limit),
{
    broadcast use vstd::seq::Seq::lemma_filter_contains_rev;

    let next = reduced(state, update);
    match update {
        UpdateModel::RemoveWorkspace { workspace_id } => {
            assert forall|i: int| 0 <= i < next.jobs.len() implies (#[trigger] next.jobs[i]).1.recent_events.len()
                <= SUPERVISOR_SUBTASK_EVENT_LIMIT by {
                assert(next.jobs.contains(next.jobs[i]));
                assert(state.jobs.contains(next.jobs[i]));
            }
        },
        UpdateModel::RemoveThread { workspace_id, thread_id } => {
            assert forall|i: int| 0 <= i < next.jobs.len() implies (#[trigger] next.jobs[i]).1.recent_events.len()
                <= SUPERVISOR_SUBTASK_EVENT_LIMIT by {
                assert(next.jobs.contains(next.jobs[i]));
                assert(state.jobs.contains(next.jobs[i]));
            }
        },
        UpdateModel::UpsertJob(j) => {
            lemma_key_index(state.jobs, j.id);
        },
        UpdateModel::RemoveJob { job_id } => {
            lemma_key_index(state.jobs, job_id);
            match key_index(state.jobs, job_id) {
                Some(k) => {
                    assert forall|i: int| 0 <= i < next.jobs.len() implies (#[trigger] next.jobs[i]).1.recent_events.len()
                        <= SUPERVISOR_SUBTASK_EVENT_LIMIT by {
                        if i < k {
                            assert(next.jobs[i] == state.jobs[i]);
                        } else {
                            assert(next.jobs[i] == state.jobs[i + 1]);
                        }
                    }
                },
                None => {},
            }
        },
        UpdateModel::UpdateJobStatus { job_id, status, at_ms, error } => {
            lemma_key_index(state.jobs, job_id);
        },
        UpdateModel::PushSignal(s) => {
            lemma_push_keeps_ids_distinct::<SupervisorSignal>(state.signals, s, None);
        },
        UpdateModel::AckSignal { signal_id, acknowledged_at_ms } => {
            lemma_ident_index::<SupervisorSignal>(state.signals, signal_id);
        },
        UpdateModel::PushActivity { entry, max_items } => {
            lemma_push_within_limit::<SupervisorActivityEntry>(
                state.activity_feed,
                entry,
                effective_limit(max_items, crate::model::DEFAULT_ACTIVITY_FEED_LIMIT),
            );
        },
        _ => {},
    }
}

/// Removing a workspace leaves no workspace under its id, and no thread,
/// job, open question or pending approval that names it; what names another
/// workspace stays.
pub proof fn lemma_remove_workspace_cascades(state: StateModel, workspace_id: Seq<char>)
    requires
        distinct_keys(state.workspaces),
    ensures
        ({
            let next = reduced(state, UpdateModel::RemoveWorkspace { workspace_id });
            &&& table_get(next.workspaces, workspace_id) is None
            &&& forall|i: int| 0 <= i < next.threads.len() ==> (#[trigger] next.threads[i]).1.workspace_id != workspace_id
            &&& forall|i: int| 0 <= i < next.jobs.len() ==> (#[trigger] next.jobs[i]).1.workspace_id != workspace_id
            &&& forall|i: int|
                0 <= i < next.open_questions.len() ==> (#[trigger] next.open_questions[i]).1.workspace_id
                    != workspace_id
            &&& forall|i: int|
                0 <= i < next.pending_approvals.len() ==> (#[trigger] next.pending_approvals[i]).1.workspace_id
                    != workspace_id
            &&& forall|i: int|
                0 <= i < state.threads.len() && (#[trigger] state.threads[i]).1.workspace_id != workspace_id
                    ==> next.threads.contains(state.threads[i])
            &&& forall|i: int|
                0 <= i < state.jobs.len() && (#[trigger] state.jobs[i]).1.workspace_id != workspace_id
                    ==> next.jobs.contains(state.jobs[i])
            &&& forall|i: int|
                0 <= i < state.open_questions.len() && (#[trigger] state.open_questions[i]).1.workspace_id
                    != workspace_id ==> next.open_questions.contains(state.open_questions[i])
            &&& forall|i: int|
                0 <= i < state.pending_approvals.len() && (#[trigger] state.pending_approvals[i]).1.workspace_id
                    != workspace_id ==> next.pending_approvals.contains(state.pending_approvals[i])
        }),
{
    broadcast use vstd::seq_lib::group_filter_ensures;

    lemma_table_remove(state.workspaces, workspace_id, workspace_id);
}

/// Removing a thread leaves no thread under its key, and no job, open
/// question or pending approval that belongs to it.
pub proof fn lemma_remove_thread_cascades(state: StateModel, workspace_id: Seq<char>, thread_id: Seq<char>)
    requires
        distinct_keys(state.threads),
    ensures
        ({
            let next = reduced(state, UpdateModel::RemoveThread { workspace_id, thread_id });
            &&& table_get(next.threads, crate::reducer::thread_key(workspace_id, thread_id)) is None
            &&& forall|i: int|
                0 <= i < next.jobs.len() ==> !crate::reducer::job_of_thread(
                    (#[trigger] next.jobs[i]).1,
                    workspace_id,
                    thread_id,
                )
            &&& forall|i: int|
                0 <= i < next.open_questions.len() ==> !crate::reducer::question_of_thread(
                    (#[trigger] next.open_questions[i]).1,
                    workspace_id,
                    thread_id,
                )
            &&& forall|i: int|
                0 <= i < next.pending_approvals.len() ==> !crate::reducer::approval_of_thread(
                    (#[trigger] next.pending_approvals[i]).1,
                    workspace_id,
                    thread_id,
                )
        }),
{
    broadcast use vstd::seq_lib::group_filter_ensures;

    lemma_table_remove(state.threads, crate::reducer::thread_key(workspace_id, thread_id), workspace_id);
}

/// A filter keeps the keys of a table distinct.
pub proof fn lemma_filter_keeps_distinct<T>(table: Seq<(Seq<char>, T)>, keep: spec_fn((Seq<char>, T)) -> bool)
    requires
        distinct_keys(table),
    ensures
        distinct_keys(table.filter(keep)),
        forall|i: int|
            0 <= i < table.filter(keep).len() ==> exists|k: int|
                0 <= k < table.len() && #[trigger] table[k] == #[trigger] table.filter(keep)[i],
    decreases table.len(),
{
    reveal(Seq::filter);
    if table.len() > 0 {
        let rest = table.drop_last();
        assert forall|i: int, j: int| 0 <= i < j < rest.len() implies rest[i].0 != rest[j].0 by {
            assert(rest[i] == table[i]);
            assert(rest[j] == table[j]);
        }
        lemma_filter_keeps_distinct(rest, keep);
        let kept = rest.filter(keep);
        let out = table.filter(keep);
        assert forall|i: int| 0 <= i < out.len() implies exists|k: int|
            0 <= k < table.len() && #[trigger] table[k] == #[trigger] out[i] by {
            if i < kept.len() {
                assert(out[i] == kept[i]);
                let k = choose|k: int| 0 <= k < rest.len() && #[trigger] rest[k] == kept[i];
                assert(table[k] == rest[k]);
            } else {
                assert(out[i] == table[table.len() - 1]);
            }
        }
        assert forall|i: int, j: int| 0 <= i < j < out.len() implies out[i].0 != out[j].0 by {
            if j < kept.len() {
                assert(out[i] == kept[i]);
                assert(out[j] == kept[j]);
            } else {
                assert(out[i] == kept[i]);
                let k = choose|k: int| 0 <= k < rest.len() && #[trigger] rest[k] == kept[i];
                assert(rest[k] == table[k]);
                assert(out[j] == table[table.len() - 1]);
            }
        }
    }
}

/// Every keyed collection of the state holds each key once.
pub open spec fn keys_distinct(state: StateModel) -> bool {
    &&& distinct_keys(state.workspaces)
    &&& distinct_keys(state.threads)
    &&& distinct_keys(state.jobs)
    &&& distinct_keys(state.open_questions)
    &&& distinct_keys(state.pending_approvals)
}

/// Every update keeps the keys of the state distinct.
pub proof fn lemma_reduced_keeps_keys_distinct(state: StateModel, update: UpdateModel)
    requires
        keys_distinct(state),
    ensures
        keys_distinct(reduced(state, update)),
{
    match update {
        UpdateModel::UpsertWorkspace(w) => {
            crate::table::lemma_table_put(state.workspaces, w.id, w, w.id);
        },
        UpdateModel::RemoveWorkspace { workspace_id } => {
            lemma_table_remove(state.workspaces, workspace_id, workspace_id);
            lemma_filter_keeps_distinct(
                state.threads,
                outside_workspace::<crate::model::SupervisorThreadState>(workspace_id),
            );
            lemma_filter_keeps_distinct(state.jobs, outside_workspace::<crate::model::SupervisorJobState>(workspace_id));
            lemma_filter_keeps_distinct(
                state.open_questions,
                outside_workspace::<crate::model::SupervisorOpenQuestion>(workspace_id),
            );
            lemma_filter_keeps_distinct(
                state.pending_approvals,
                outside_workspace::<crate::model::SupervisorPendingApproval>(workspace_id),
            );
        },
        UpdateModel::UpsertThread(t) => {
            let key = crate::reducer::thread_key(t.workspace_id, t.id);
            crate::table::lemma_table_put(state.threads, key, t, key);
        },
        UpdateModel::RemoveThread { workspace_id, thread_id } => {
            let key = crate::reducer::thread_key(workspace_id, thread_id);
            lemma_table_remove(state.threads, key, key);
            lemma_filter_keeps_distinct(
                state.jobs,
                outside_thread::<crate::model::SupervisorJobState>(workspace_id, thread_id),
            );
            lemma_filter_keeps_distinct(
                state.open_questions,
                outside_thread::<crate::model::SupervisorOpenQuestion>(workspace_id, thread_id),
            );
            lemma_filter_keeps_distinct(
                state.pending_approvals,
                outside_thread::<crate::model::SupervisorPendingApproval>(workspace_id, thread_id),
            );
        },
        UpdateModel::UpsertJob(j) => {
            crate::table::lemma_table_put(state.jobs, j.id, j, j.id);
        },
        UpdateModel::RemoveJob { job_id } => {
            lemma_table_remove(state.jobs, job_id, job_id);
        },
        UpdateModel::UpdateJobStatus { job_id, status, at_ms, error } => {
            lemma_key_index(state.jobs, job_id);
        },
        UpdateModel::UpsertOpenQuestion(q) => {
            crate::table::lemma_table_put(state.open_questions, q.id, q, q.id);
        },
        UpdateModel::ResolveOpenQuestion { question_id, resolved_at_ms } => {
            lemma_key_index(state.open_questions, question_id);
        },
        UpdateModel::UpsertPendingApproval(a) => {
            crate::table::lemma_table_put(state.pending_approvals, a.request_key, a, a.request_key);
        },
        UpdateModel::ResolvePendingApproval { request_key, resolved_at_ms } => {
            lemma_key_index(state.pending_approvals, request_key);
        },
        _ => {},
    }
}

/// Every workspace is stored under its own id.
pub open spec fn workspaces_keyed(workspaces: Seq<(Seq<char>, WorkspaceModel)>) -> bool {
    forall|i: int| 0 <= i < workspaces.len() ==> (#[trigger] workspaces[i]).0 == workspaces[i].1.id
}

/// Every thread is stored under the key of its workspace and its id.
pub open spec fn threads_keyed(threads: Seq<(Seq<char>, ThreadModel)>) -> bool {
    forall|i: int|
        0 <= i < threads.len() ==> (#[trigger] threads[i]).0 == thread_key(threads[i].1.workspace_id, threads[i].1.id)
}

/// Every job is stored under its own id.
pub open spec fn jobs_keyed(jobs: Seq<(Seq<char>, JobModel)>) -> bool {
    forall|i: int| 0 <= i < jobs.len() ==> (#[trigger] jobs[i]).0 == jobs[i].1.id
}

/// Every open question is stored under its own id.
pub open spec fn questions_keyed(questions: Seq<(Seq<char>, QuestionModel)>) -> bool {
    forall|i: int| 0 <= i < questions.len() ==> (#[trigger] questions[i]).0 == questions[i].1.id
}

/// Every pending approval is stored under its own request key.
pub open spec fn approvals_keyed(approvals: Seq<(Seq<char>, ApprovalModel)>) -> bool {
    forall|i: int| 0 <= i < approvals.len() ==> (#[trigger] approvals[i]).0 == approvals[i].1.request_key
}

/// Every keyed collection of the state stands in the order of its keys.
pub open spec fn keys_ordered(state: StateModel) -> bool {
    &&& ordered_keys(state.workspaces)
    &&& ordered_keys(state.threads)
    &&& ordered_keys(state.jobs)
    &&& ordered_keys(state.open_questions)
    &&& ordered_keys(state.pending_approvals)
}

/// Changing the value under a key keeps the keys in their order.
pub proof fn lemma_change_keeps_ordered<M>(table: Seq<(Seq<char>, M)>, key: Seq<char>, change: spec_fn(M) -> M)
    requires
        ordered_keys(table),
    ensures
        ordered_keys(table_changed(table, key, change)),
{
    let after = table_changed(table, key, change);
    lemma_key_index(table, key);
    assert forall|a: int, b: int| 0 <= a < b < after.len() implies crate::text::lex_less(after[a].0, after[b].0) by {
        assert(after[a].0 == table[a].0);
        assert(after[b].0 == table[b].0);
    }
}

/// Every update keeps the keyed collections of the state in the order of their keys.
pub proof fn lemma_reduced_keeps_keys_ordered(state: StateModel, update: UpdateModel)
    requires
        keys_ordered(state),
    ensures
        keys_ordered(reduced(state, update)),
{
    match update {
        UpdateModel::UpsertWorkspace(w) => {
            lemma_put_keeps_ordered(state.workspaces, w.id, w);
        },
        UpdateModel::RemoveWorkspace { workspace_id } => {
            lemma_remove_keeps_ordered(state.workspaces, workspace_id);
            lemma_filter_keeps_ordered(state.threads, outside_workspace::<SupervisorThreadState>(workspace_id));
            lemma_filter_keeps_ordered(state.jobs, outside_workspace::<SupervisorJobState>(workspace_id));
            lemma_filter_keeps_ordered(state.open_questions, outside_workspace::<SupervisorOpenQuestion>(workspace_id));
            lemma_filter_keeps_ordered(
                state.pending_approvals,
                outside_workspace::<SupervisorPendingApproval>(workspace_id),
            );
        },
        UpdateModel::UpsertThread(t) => {
            lemma_put_keeps_ordered(state.threads, thread_key(t.workspace_id, t.id), t);
        },
        UpdateModel::RemoveThread { workspace_id, thread_id } => {
            lemma_remove_keeps_ordered(state.threads, thread_key(workspace_id, thread_id));
            lemma_filter_keeps_ordered(state.jobs, outside_thread::<SupervisorJobState>(workspace_id, thread_id));
            lemma_filter_keeps_ordered(
                state.open_questions,
                outside_thread::<SupervisorOpenQuestion>(workspace_id, thread_id),
            );
            lemma_filter_keeps_ordered(
                state.pending_approvals,
                outside_thread::<SupervisorPendingApproval>(workspace_id, thread_id),
            );
        },
        UpdateModel::UpsertJob(j) => {
            lemma_put_keeps_ordered(state.jobs, j.id, j);
        },
        UpdateModel::RemoveJob { job_id } => {
            lemma_remove_keeps_ordered(state.jobs, job_id);
        },
        UpdateModel::UpdateJobStatus { job_id, status, at_ms, error } => {
            lemma_change_keeps_ordered(
                state.jobs,
                job_id,
                |j: JobModel| crate::reducer::job_with_status(j, status, at_ms, error),
            );
        },
        UpdateModel::UpsertOpenQuestion(q) => {
            lemma_put_keeps_ordered(state.open_questions, q.id, q);
        },
        UpdateModel::ResolveOpenQuestion { question_id, resolved_at_ms } => {
            lemma_change_keeps_ordered(
                state.open_questions,
                question_id,
                |q: QuestionModel| QuestionModel { resolved_at_ms: Some(resolved_at_ms), ..q },
            );
        },
        UpdateModel::UpsertPendingApproval(a) => {
            lemma_put_keeps_ordered(state.pending_approvals, a.request_key, a);
        },
        UpdateModel::ResolvePendingApproval { request_key, resolved_at_ms } => {
            lemma_change_keeps_ordered(
                state.pending_approvals,
                request_key,
                |a: ApprovalModel| ApprovalModel { resolved_at_ms: Some(resolved_at_ms), ..a },
            );
        },
        _ => {},
    }
}

/// A state is well formed where in every keyed collection no key occurs
/// twice, the keys stand in their order, and every entry is stored under its
/// own key.
pub open spec fn well_formed(state: StateModel) -> bool {
    &&& keys_distinct(state)
    &&& keys_ordered(state)
    &&& workspaces_keyed(state.workspaces)
    &&& threads_keyed(state.threads)
    &&& jobs_keyed(state.jobs)
    &&& questions_keyed(state.open_questions)
    &&& approvals_keyed(state.pending_approvals)
}

/// Every update leaves a well-formed state well formed.
pub proof fn lemma_reduced_keeps_well_formed(state: StateModel, update: UpdateModel)
    requires
        well_formed(state),
    ensures
        well_formed(reduced(state, update)),
{
    lemma_reduced_keeps_keys_distinct(state, update);
    lemma_reduced_keeps_keys_ordered(state, update);
    let workspace_key = |w: WorkspaceModel| w.id;
    let key_of_thread = |t: ThreadModel| thread_key(t.workspace_id, t.id);
    let job_key = |j: JobModel| j.id;
    let question_key = |q: QuestionModel| q.id;
    let approval_key = |a: ApprovalModel| a.request_key;
    assert(keyed_by(state.workspaces, workspace_key));
    assert(keyed_by(state.threads, key_of_thread));
    assert(keyed_by(state.jobs, job_key));
    assert(keyed_by(state.open_questions, question_key));
    assert(keyed_by(state.pending_approvals, approval_key));
    match update {
        UpdateModel::UpsertWorkspace(w) => {
            lemma_put_keeps_keyed(state.workspaces, workspace_key, w);
        },
        UpdateModel::RemoveWorkspace { workspace_id } => {
            lemma_remove_keeps_keyed(state.workspaces, workspace_key, workspace_id);
            lemma_filter_keeps_keyed(
                state.threads,
                key_of_thread,
                outside_workspace::<SupervisorThreadState>(workspace_id),
            );
            lemma_filter_keeps_keyed(state.jobs, job_key, outside_workspace::<SupervisorJobState>(workspace_id));
            lemma_filter_keeps_keyed(
                state.open_questions,
                question_key,
                outside_workspace::<SupervisorOpenQuestion>(workspace_id),
            );
            lemma_filter_keeps_keyed(
                state.pending_approvals,
                approval_key,
                outside_workspace::<SupervisorPendingApproval>(workspace_id),
            );
        },
        UpdateModel::UpsertThread(t) => {
            lemma_put_keeps_keyed(state.threads, key_of_thread, t);
        },
        UpdateModel::RemoveThread { workspace_id, thread_id } => {
            lemma_remove_keeps_keyed(state.threads, key_of_thread, thread_key(workspace_id, thread_id));
            lemma_filter_keeps_keyed(
                state.jobs,
                job_key,
                outside_thread::<SupervisorJobState>(workspace_id, thread_id),
            );
            lemma_filter_keeps_keyed(
                state.open_questions,
                question_key,
                outside_thread::<SupervisorOpenQuestion>(workspace_id, thread_id),
            );
            lemma_filter_keeps_keyed(
                state.pending_approvals,
                approval_key,
                outside_thread::<SupervisorPendingApproval>(workspace_id, thread_id),
            );
        },
        UpdateModel::UpsertJob(j) => {
            lemma_put_keeps_keyed(state.jobs, job_key, j);
        },
        UpdateModel::RemoveJob { job_id } => {
            lemma_remove_keeps_keyed(state.jobs, job_key, job_id);
        },
        UpdateModel::UpdateJobStatus { job_id, status, at_ms, error } => {
            lemma_key_index(state.jobs, job_id);
        },
        UpdateModel::UpsertOpenQuestion(q) => {
            lemma_put_keeps_keyed(state.open_questions, question_key, q);
        },
        UpdateModel::ResolveOpenQuestion { question_id, resolved_at_ms } => {
            lemma_key_index(state.open_questions, question_id);
        },
        UpdateModel::UpsertPendingApproval(a) => {
            lemma_put_keeps_keyed(state.pending_approvals, approval_key, a);
        },
        UpdateModel::ResolvePendingApproval { request_key, resolved_at_ms } => {
            lemma_key_index(state.pending_approvals, request_key);
        },
        _ => {},
    }
}

/// Changing what is stored under a key changes the value under that
/// key, where there is one, and nothing else: no entry comes or goes, and
/// what is stored under every other key stays.
pub proof fn lemma_table_changed<M>(table: Seq<(Seq<char>, M)>, key: Seq<char>, change: spec_fn(M) -> M, other: Seq<char>)
    ensures
        table_changed(table, key, change).len() == table.len(),
        table_get(table_changed(table, key, change), key) == match table_get(table, key) {
            Some(value) => Some(change(value)),
            None => None,
        },
        other != key ==> table_get(table_changed(table, key, change), other) == table_get(table, other),
{
    let after = table_changed(table, key, change);
    lemma_key_index(table, key);
    lemma_key_index(table, other);
    match key_index(table, key) {
        Some(i) => {
            crate::table::lemma_key_index_is(after, key, i);
            if other != key {
                match key_index(table, other) {
                    Some(k) => {
                        crate::table::lemma_key_index_is(after, other, k);
                    },
                    None => {
                        crate::table::lemma_key_index_none(after, other);
                    },
                }
            }
        },
        None => {},
    }
}

} // verus!
