use vstd::prelude::*;

use crate::dispatch::ResultModel;
use crate::loop_laws::{
    lemma_failed_reply_keeps_request, lemma_reply_frees_named_job, lemma_reply_resolves_question, resolved_question,
};
use crate::loop_ops::{
    job_awaits_reply, reply_refusal, request_value_key_of, waiting_jobs_of, waiting_matcher, waiting_ranks,
};
use crate::model::{JobModel, StateModel};
use crate::order::{lemma_ranking, ranking};
use crate::reducer_laws::well_formed;
use crate::routing::SettingsModel;
use crate::service::{
    chat_executed, chat_sent, delivery_routed, exchange_recorded, freeform_executed, job_with_id, reply_attempted,
    reply_finished, reply_plan_of, reply_precheck, reply_routed, WorkspaceEntryModel,
};
use crate::supervisor_loop::LoopModel;
use crate::table::{lemma_key_index, table_get};
use crate::text::{begins_with, trimmed};

verus! {

/// Every job that waits for a reply is a stored job that holds a request.
pub proof fn lemma_waiting_job_is_stored(jobs: Seq<(Seq<char>, JobModel)>, i: int)
    requires
        jobs.len() <= usize::MAX,
        0 <= i < waiting_jobs_of(jobs).len(),
    ensures
        job_awaits_reply(waiting_jobs_of(jobs)[i]),
        exists|k: int| 0 <= k < jobs.len() && (#[trigger] jobs[k]).1 == waiting_jobs_of(jobs)[i],
{
    broadcast use vstd::seq::Seq::lemma_filter_contains_rev;

    let waiting = jobs.filter(waiting_matcher());
    jobs.lemma_filter_len(waiting_matcher());
    lemma_ranking(waiting_ranks(waiting));
    let order = ranking(waiting_ranks(waiting));
    let at = order[i] as int;
    assert(0 <= at < waiting.len());
    jobs.lemma_filter_pred(waiting_matcher(), at);
    assert(waiting_jobs_of(jobs)[i] == waiting[at].1);
    assert(waiting.contains(waiting[at]));
    assert(jobs.contains(waiting[at]));
    let k = choose|k: int| 0 <= k < jobs.len() && jobs[k] == waiting[at];
    assert(jobs[k].1 == waiting_jobs_of(jobs)[i]);
    assert(waiting_matcher()(waiting[at]));
}

/// The job found by its id is one of the jobs.
pub proof fn lemma_job_with_id_is_listed(jobs: Seq<JobModel>, job_id: Seq<char>)
    requires
        job_with_id(jobs, job_id) is Some,
    ensures
        exists|i: int| 0 <= i < jobs.len() && #[trigger] jobs[i] == job_with_id(jobs, job_id)->0,
    decreases jobs.len(),
{
    if jobs.len() > 0 {
        match job_with_id(jobs.drop_last(), job_id) {
            Some(job) => {
                lemma_job_with_id_is_listed(jobs.drop_last(), job_id);
                let i = choose|i: int| 0 <= i < jobs.drop_last().len() && #[trigger] jobs.drop_last()[i] == job;
                assert(jobs[i] == job);
            },
            None => {
                assert(jobs[jobs.len() - 1] == jobs.last());
            },
        }
    }
}

/// The job that a reply is planned for is stored under its id, waits for
/// the operator and holds a request.
pub proof fn lemma_planned_job_is_stored(state: StateModel, command: Seq<char>)
    requires
        well_formed(state),
        state.jobs.len() <= usize::MAX,
        reply_plan_of(state, command) is Deliver,
    ensures
        table_get(state.jobs, reply_plan_of(state, command)->job.id) == Some(reply_plan_of(state, command)->job),
        job_awaits_reply(reply_plan_of(state, command)->job),
{
    let job = reply_plan_of(state, command)->job;
    let waiting = waiting_jobs_of(state.jobs);
    let targeted = crate::service::targeted_reply_of(command);
    let i = match targeted {
        Some(target) => {
            lemma_job_with_id_is_listed(waiting, target.0);
            choose|i: int| 0 <= i < waiting.len() && #[trigger] waiting[i] == job
        },
        None => 0,
    };
    assert(waiting[i] == job);
    lemma_waiting_job_is_stored(state.jobs, i);
    let k = choose|k: int| 0 <= k < state.jobs.len() && (#[trigger] state.jobs[k]).1 == job;
    assert(state.jobs[k].0 == job.id);
    lemma_key_index(state.jobs, job.id);
}

/// What a reply to `job` may have done to the open questions: the job is
/// still stored; no question came or went; every question but the one that
/// the job waited on is as it was; and that one is resolved at `at_ms` where
/// the job holds no request any more, and as it was where the job still
/// holds one.
pub open spec fn reply_outcome_on_questions(
    before: StateModel,
    job: JobModel,
    at_ms: i64,
    after: StateModel,
    other: Seq<char>,
) -> bool {
    let key = request_value_key_of(job.workspace_id, job.waiting_request_id->0);
    &&& table_get(after.jobs, job.id) is Some
    &&& after.open_questions.len() == before.open_questions.len()
    &&& other != key ==> table_get(after.open_questions, other) == table_get(before.open_questions, other)
    &&& table_get(after.open_questions, key) == if table_get(after.jobs, job.id)->0.waiting_request_id is None {
        match table_get(before.open_questions, key) {
            Some(question) => Some(resolved_question(question, at_ms)),
            None => None,
        }
    } else {
        table_get(before.open_questions, key)
    }
}

/// What sending a reply to a job does to the open questions and to the
/// job, whatever the backend said: nothing, or, where the reply was
/// delivered, the job holds no request any more and the question that it
/// waited on is resolved at the time of the reply.
pub proof fn lemma_reply_attempt_resolves_question(
    before: LoopModel,
    job: JobModel,
    reply_text: Seq<char>,
    at_ms: i64,
    after: LoopModel,
    answer: Result<Seq<char>, Seq<char>>,
    other: Seq<char>,
)
    requires
        well_formed(before.state),
        table_get(before.state.jobs, job.id) == Some(job),
        job.waiting_request_id is Some,
        reply_attempted(before, job, reply_text, at_ms, after, answer),
    ensures
        reply_outcome_on_questions(before.state, job, at_ms, after.state, other),
{
    let request_id = job.waiting_request_id->0;
    let key = request_value_key_of(job.workspace_id, request_id);
    if reply_precheck(job, reply_text) is None && after != before {
        let sent = choose|sent: Result<(), Seq<char>>|
            (after, answer) == #[trigger] reply_finished(before, job, request_id, trimmed(reply_text), sent, at_ms);
        match sent {
            Ok(_) => {
                if reply_refusal(before.state, job.id, request_id) is None {
                    lemma_reply_frees_named_job(before, job.id, request_id, trimmed(reply_text), at_ms, job.id);
                    lemma_reply_resolves_question(before, job.id, request_id, trimmed(reply_text), at_ms, other);
                }
            },
            Err(error) => {
                lemma_failed_reply_keeps_request(before, job.id, request_id, error, at_ms);
            },
        }
    }
}

/// A reply that the backend took, to a stored job that waits on the
/// request, resolves the question of that request at the time of the reply:
/// the job holds no request any more, no question comes or goes, and every
/// other question stays as it was.
pub proof fn lemma_accepted_reply_resolves_question(
    before: LoopModel,
    job: JobModel,
    reply_text: Seq<char>,
    at_ms: i64,
    other: Seq<char>,
)
    requires
        well_formed(before.state),
        table_get(before.state.jobs, job.id) == Some(job),
        reply_refusal(before.state, job.id, job.waiting_request_id->0) is None,
    ensures
        ({
            let key = request_value_key_of(job.workspace_id, job.waiting_request_id->0);
            let after = reply_finished(before, job, job.waiting_request_id->0, reply_text, Ok(()), at_ms).0.state;
            &&& table_get(after.jobs, job.id) is Some
            &&& table_get(after.jobs, job.id)->0.waiting_request_id is None
            &&& after.open_questions.len() == before.state.open_questions.len()
            &&& table_get(after.open_questions, key) == match table_get(before.state.open_questions, key) {
                Some(question) => Some(resolved_question(question, at_ms)),
                None => None,
            }
            &&& other != key ==> table_get(after.open_questions, other) == table_get(
                before.state.open_questions,
                other,
            )
        }),
{
    let request_id = job.waiting_request_id->0;
    lemma_reply_frees_named_job(before, job.id, request_id, reply_text, at_ms, job.id);
    lemma_reply_resolves_question(before, job.id, request_id, reply_text, at_ms, other);
}

/// A line of the chat that is a reply to a waiting job resolves the
/// question that the job waited on, at the time of the line, where the reply
/// was delivered, so that the job holds no request any more; it changes
/// no other question, and no question comes or goes.
pub proof fn lemma_chat_reply_resolves_question(
    before: LoopModel,
    store: Seq<(Seq<char>, ResultModel)>,
    connected_ids: Seq<Seq<char>>,
    entries: Seq<WorkspaceEntryModel>,
    settings: SettingsModel,
    command: Seq<char>,
    at_ms: i64,
    after: LoopModel,
    next_store: Seq<(Seq<char>, ResultModel)>,
    other: Seq<char>,
)
    requires
        well_formed(before.state),
        before.state.jobs.len() <= usize::MAX,
        !begins_with(command, "/"@),
        reply_plan_of(before.state, command) is Deliver,
        chat_sent(before, store, connected_ids, entries, settings, command, at_ms, after, next_store),
    ensures
        reply_outcome_on_questions(before.state, reply_plan_of(before.state, command)->job, at_ms, after.state, other),
{
    let job = reply_plan_of(before.state, command)->job;
    let reply_text = reply_plan_of(before.state, command)->reply_text;
    lemma_planned_job_is_stored(before.state, command);
    let (done, text, user_token, system_token, answered_at_ms) = choose|
        done: LoopModel,
        text: Seq<char>,
        user_token: Seq<char>,
        system_token: Seq<char>,
        answered_at_ms: i64,
    |
        #[trigger] chat_executed(before, store, connected_ids, entries, settings, command, at_ms, done, next_store, text)
            && after == #[trigger] exchange_recorded(
            done,
            command,
            at_ms,
            text,
            user_token,
            system_token,
            answered_at_ms,
        );
    let answer = choose|answer: Result<Seq<char>, Seq<char>>|
        #[trigger] freeform_executed(
            before,
            store,
            connected_ids,
            entries,
            settings,
            command,
            at_ms,
            done,
            next_store,
            answer,
        );
    let (mid, reply) = choose|mid: LoopModel, reply: Result<Option<Seq<char>>, Seq<char>>|
        #[trigger] reply_routed(before, command, at_ms, mid, reply) && (match reply {
            Err(reason) => answer == Err::<Seq<char>, Seq<char>>(reason) && done == mid && next_store == store,
            Ok(Some(text)) => answer == Ok::<Seq<char>, Seq<char>>(text) && done == mid && next_store == store,
            Ok(None) => crate::service::freeform_continued(
                mid,
                store,
                connected_ids,
                entries,
                settings,
                command,
                at_ms,
                done,
                next_store,
                answer,
            ),
        });
    assert(delivery_routed(before, job, reply_text, at_ms, mid, reply));
    let attempt = choose|attempt: Result<Seq<char>, Seq<char>>|
        #[trigger] reply_attempted(before, job, reply_text, at_ms, mid, attempt) && reply == (match attempt {
            Ok(text) => Ok::<Option<Seq<char>>, Seq<char>>(Some(text)),
            Err(reason) => Err::<Option<Seq<char>>, Seq<char>>(reason),
        });
    assert(done == mid);
    lemma_reply_attempt_resolves_question(before, job, reply_text, at_ms, mid, attempt, other);
    assert(after.state.jobs == done.state.jobs);
    assert(after.state.open_questions == done.state.open_questions);
}

} // verus!
