//! What holds across the server's operations: what a read gives back after a
//! write, what a refused request leaves, and what every operation keeps.

use vstd::prelude::*;
use crate::acp_types::{
    AgentV, IfExists, IfNotExists, MessageV, RunCreateStatefulV, RunCreateStatelessV, RunStatus, ThreadStatus, ThreadV,
};
use crate::agents::{agent_matches, insert_by_name, sort_by_name};
use crate::embedding::{completed_item, completed_response, default_usage, member_or_insert};
use crate::error::{AcpErrorV, CONFLICT};
use crate::ids::{uuid_digit_index, uuid_nibble, uuid_parse, uuid_text, Timestamp};
use crate::inference::{history_chat_messages, ChatMessageV, RunOutcomeV};
use crate::json::{json_text, member_get, member_set, members_merge, JsonV};
use crate::metrics::{
    label_segment, lemma_segment_len, uuid_char_at, lemma_segment_len_le, looks_like_uuid, normalised_path, path_segments,
    segment_len,
};
use crate::paging::{page, page_end, page_start};
use crate::runs::{
    failed_output, run_not_found, success_output, timeout_text, CANCELLED_ERRCODE, FAILED_ERRCODE,
    TIMEOUT_ERRCODE,
};
use crate::state::{lemma_run_pos, lemma_thread_pos, AgentEntryV, RunDataV, StoreV, ThreadDataV};
use crate::text::{lemma_text_lt_asymmetric, lemma_text_lt_transitive, text_lt};
use crate::threads::{checkpoint_of, input_thread_messages, run_reply_messages, thread_key, thread_not_found};

verus! {

// ── Positions and well-formedness ────────────────────────────────────────────

/// Replacing a thread by one with the same id keeps ids unique.
proof fn lemma_threads_update(s: StoreV, i: int, t: ThreadDataV)
    requires
        s.wf(),
        0 <= i < s.threads.len(),
        t.thread.thread_id == s.threads[i].thread.thread_id,
    ensures
        (StoreV { threads: s.threads.update(i, t), ..s }).wf(),
{
    let s2 = StoreV { threads: s.threads.update(i, t), ..s };
    assert forall|a: int, b: int| 0 <= a < b < s2.threads.len() implies s2.threads[a].thread.thread_id
        != s2.threads[b].thread.thread_id by {
        assert(s2.threads[a].thread.thread_id == s.threads[a].thread.thread_id);
        assert(s2.threads[b].thread.thread_id == s.threads[b].thread.thread_id);
    }
}

/// Adding a thread under an id not yet stored keeps ids unique.
proof fn lemma_threads_push(s: StoreV, t: ThreadDataV)
    requires
        s.wf(),
        !s.has_thread(t.thread.thread_id),
    ensures
        (StoreV { threads: s.threads.push(t), ..s }).wf(),
{
    let s2 = StoreV { threads: s.threads.push(t), ..s };
    assert forall|a: int, b: int| 0 <= a < b < s2.threads.len() implies s2.threads[a].thread.thread_id
        != s2.threads[b].thread.thread_id by {
        if b == s.threads.len() {
            assert(s2.threads[a] == s.threads[a]);
        } else {
            assert(s2.threads[a] == s.threads[a]);
            assert(s2.threads[b] == s.threads[b]);
        }
    }
}

/// Replacing a run by one with the same id keeps ids unique.
proof fn lemma_runs_update(s: StoreV, i: int, r: RunDataV)
    requires
        s.wf(),
        0 <= i < s.runs.len(),
        r.run.run_id == s.runs[i].run.run_id,
    ensures
        (StoreV { runs: s.runs.update(i, r), ..s }).wf(),
{
    let s2 = StoreV { runs: s.runs.update(i, r), ..s };
    assert forall|a: int, b: int| 0 <= a < b < s2.runs.len() implies s2.runs[a].run.run_id
        != s2.runs[b].run.run_id by {
        assert(s2.runs[a].run.run_id == s.runs[a].run.run_id);
        assert(s2.runs[b].run.run_id == s.runs[b].run.run_id);
    }
}

/// Storing a run keeps ids unique, and the run is then found under its id.
proof fn lemma_put_run(s: StoreV, r: RunDataV)
    requires
        s.wf(),
    ensures
        s.put_run(r).wf(),
        s.put_run(r).has_run(r.run.run_id),
        s.put_run(r).run(r.run.run_id) == r,
        s.put_run(r).threads == s.threads,
        s.put_run(r).agents == s.agents,
{
    let id = r.run.run_id;
    if s.has_run(id) {
        let p = s.run_pos(id);
        lemma_runs_update(s, p, r);
        lemma_run_pos(s.put_run(r), id, p);
    } else {
        let s2 = s.put_run(r);
        assert forall|a: int, b: int| 0 <= a < b < s2.runs.len() implies s2.runs[a].run.run_id
            != s2.runs[b].run.run_id by {
            if b == s.runs.len() {
                assert(s2.runs[a] == s.runs[a]);
            } else {
                assert(s2.runs[a] == s.runs[a]);
                assert(s2.runs[b] == s.runs[b]);
            }
        }
        lemma_run_pos(s2, id, s.runs.len() as int);
    }
}

/// Settling a run keeps ids unique and leaves the threads as they are; the
/// settled run has the new status and output.
proof fn lemma_settle_run(s: StoreV, id: u128, status: RunStatus, output: crate::acp_types::RunOutputV, now: Timestamp)
    requires
        s.wf(),
        s.has_run(id),
        s.run(id).run.status == RunStatus::Pending,
    ensures
        s.settle_run(id, status, output, now).wf(),
        s.settle_run(id, status, output, now).has_run(id),
        s.settle_run(id, status, output, now).run(id).run.status == status,
        s.settle_run(id, status, output, now).run(id).output == Some(output),
        s.settle_run(id, status, output, now).threads == s.threads,
{
    let p = s.run_pos(id);
    let s2 = s.settle_run(id, status, output, now);
    lemma_runs_update(s, p, s2.runs[p]);
    lemma_run_pos(s2, id, p);
}

// ── Threads ──────────────────────────────────────────────────────────────────

/// A thread created under a new id is then found under that id, as it was
/// created.
pub proof fn law_created_thread_is_found(
    s: StoreV,
    id: Seq<char>,
    metadata: Option<JsonV>,
    if_exists: IfExists,
    now: Timestamp,
)
    requires
        s.wf(),
        !s.has_thread(id),
    ensures
        s.create_thread(id, metadata, if_exists, now).1 is Ok,
        s.create_thread(id, metadata, if_exists, now).0.wf(),
        s.create_thread(id, metadata, if_exists, now).0.get_thread(id) == s.create_thread(
            id,
            metadata,
            if_exists,
            now,
        ).1,
        s.create_thread(id, metadata, if_exists, now).1->Ok_0.status == ThreadStatus::Idle,
{
    let (s2, r) = s.create_thread(id, metadata, if_exists, now);
    let t = s2.threads[s.threads.len() as int];
    lemma_threads_push(s, t);
    lemma_thread_pos(s2, id, s.threads.len() as int);
}

/// Creating a thread under an id already stored changes nothing: the stored
/// thread is given back (`do_nothing`) or the request is refused with 409
/// (`raise`).
pub proof fn law_duplicate_thread_create(
    s: StoreV,
    id: Seq<char>,
    metadata: Option<JsonV>,
    if_exists: IfExists,
    now: Timestamp,
)
    requires
        s.has_thread(id),
    ensures
        s.create_thread(id, metadata, if_exists, now).0 == s,
        if_exists == IfExists::DoNothing ==> s.create_thread(id, metadata, if_exists, now).1 == s.get_thread(id),
        if_exists == IfExists::Raise ==> s.create_thread(id, metadata, if_exists, now).1 == Err::<
            crate::acp_types::ThreadV,
            AcpErrorV,
        >(AcpErrorV { status: CONFLICT, message: "Thread already exists: "@ + id }),
{
}

/// A deleted thread is no longer found.
pub proof fn law_deleted_thread_is_gone(s: StoreV, id: Seq<char>)
    requires
        s.wf(),
        s.has_thread(id),
        s.thread(id).thread.status != ThreadStatus::Busy,
    ensures
        s.delete_thread(id).1 is Ok,
        s.delete_thread(id).0.wf(),
        s.delete_thread(id).0.threads.len() == s.threads.len() - 1,
        s.delete_thread(id).0.get_thread(id) == Err::<crate::acp_types::ThreadV, AcpErrorV>(thread_not_found(id)),
{
    let p = s.thread_pos(id);
    let s2 = s.delete_thread(id).0;
    assert(s2.threads == s.threads.remove(p));
    assert forall|a: int, b: int| 0 <= a < b < s2.threads.len() implies s2.threads[a].thread.thread_id
        != s2.threads[b].thread.thread_id by {
        let a0 = if a < p { a } else { a + 1 };
        let b0 = if b < p { b } else { b + 1 };
        assert(s2.threads[a] == s.threads[a0]);
        assert(s2.threads[b] == s.threads[b0]);
    }
    if s2.has_thread(id) {
        let j = s2.thread_pos(id);
        let j0 = if j < p { j } else { j + 1 };
        assert(s2.threads[j] == s.threads[j0]);
        lemma_thread_pos(s, id, j0);
    }
}

/// A thread with a pending run refuses a second run and refuses deletion,
/// both with 409, and stays as it is.
pub proof fn law_busy_thread_refuses(
    s: StoreV,
    id: Seq<char>,
    agent_name: Option<Seq<char>>,
    if_not_exists: IfNotExists,
    creation: RunCreateStatefulV,
    run_id: u128,
    now: Timestamp,
)
    requires
        s.has_thread(id),
        s.thread(id).thread.status == ThreadStatus::Busy,
    ensures
        s.delete_thread(id) == (s, Err::<(), AcpErrorV>(
            AcpErrorV { status: CONFLICT, message: "Cannot delete thread with pending runs"@ },
        )),
        s.prepare_thread_run(id, agent_name, if_not_exists, creation, run_id, now) == (s, Err::<(u128, u128), AcpErrorV>(
            AcpErrorV { status: CONFLICT, message: "Thread already has a pending run"@ },
        )),
{
}

/// A thread that accepted a run is busy with it: the run is stored, pending,
/// under the thread's run key, and a second run on the thread is refused.
pub proof fn law_accepted_run_makes_thread_busy(
    s: StoreV,
    id: Seq<char>,
    agent_name: Option<Seq<char>>,
    if_not_exists: IfNotExists,
    creation: RunCreateStatefulV,
    run_id: u128,
    now: Timestamp,
)
    requires
        s.wf(),
        s.prepare_thread_run(id, agent_name, if_not_exists, creation, run_id, now).1 is Ok,
    ensures
        ({
            let s2 = s.prepare_thread_run(id, agent_name, if_not_exists, creation, run_id, now).0;
            &&& s2.wf()
            &&& s2.has_thread(id)
            &&& s2.thread(id).thread.status == ThreadStatus::Busy
            &&& s2.has_run(run_id)
            &&& s2.run(run_id).run.status == RunStatus::Pending
            &&& s2.run(run_id).run.thread_id == Some(thread_key(id))
            &&& s2.prepare_thread_run(id, agent_name, if_not_exists, creation, run_id, now).1 is Err
        }),
{
    let s1 = if s.has_thread(id) {
        s
    } else {
        StoreV { threads: s.threads.push(crate::threads::new_thread(id, JsonV::Object(Seq::empty()), now)), ..s }
    };
    if !s.has_thread(id) {
        lemma_threads_push(s, crate::threads::new_thread(id, JsonV::Object(Seq::empty()), now));
        lemma_thread_pos(s1, id, s.threads.len() as int);
    }
    assert(s1.wf());
    assert(s1.has_thread(id));
    let p = s1.thread_pos(id);
    let td = s1.thread(id);
    let busy = ThreadDataV {
        thread: crate::acp_types::ThreadV { status: ThreadStatus::Busy, updated_at: now, ..td.thread },
        ..td
    };
    let s2 = StoreV { threads: s1.threads.update(p, busy), ..s1 };
    lemma_threads_update(s1, p, busy);
    lemma_thread_pos(s2, id, p);
    let agent_id = s2.resolve_agent(agent_name)->Ok_0;
    let rd = RunDataV {
        creation_stateful: Some(creation),
        ..crate::state::new_run_data(run_id, agent_id, Some(thread_key(id)), now)
    };
    lemma_put_run(s2, rd);
    let s3 = s2.put_run(rd);
    assert(s3 == s.prepare_thread_run(id, agent_name, if_not_exists, creation, run_id, now).0);
    assert(s3.threads == s2.threads);
    assert(s3.thread(id) == s2.thread(id));
}

/// Finishing a run on a thread frees the thread: it is idle again, its
/// conversation gains the run's reply, and one checkpoint of the whole
/// conversation is recorded.
pub proof fn law_finished_run_frees_thread(s: StoreV, id: Seq<char>, run_id: u128, now: Timestamp, checkpoint_id: u128)
    requires
        s.wf(),
        s.has_thread(id),
    ensures
        ({
            let s2 = s.finish_thread_run(id, run_id, now, checkpoint_id);
            let msgs = s.thread(id).messages + run_reply_messages(s, run_id);
            &&& s2.wf()
            &&& s2.has_thread(id)
            &&& s2.thread(id).thread.status == ThreadStatus::Idle
            &&& s2.thread(id).messages == msgs
            &&& s2.thread(id).thread.messages == Some(msgs)
            &&& s2.thread(id).history == s.thread(id).history.push(checkpoint_of(msgs, checkpoint_id))
            &&& s2.runs == s.runs
        }),
{
    let p = s.thread_pos(id);
    let s2 = s.finish_thread_run(id, run_id, now, checkpoint_id);
    lemma_threads_update(s, p, s2.threads[p]);
    lemma_thread_pos(s2, id, p);
}

/// A run on a thread carries the conversation on: once it has started with
/// `input` and finished, the thread holds its earlier messages, then the
/// input's messages, then the run's reply.
pub proof fn law_thread_conversation(
    s: StoreV,
    id: Seq<char>,
    input: Option<JsonV>,
    run_id: u128,
    now: Timestamp,
    checkpoint_id: u128,
)
    requires
        s.wf(),
        s.has_thread(id),
    ensures
        ({
            let s2 = s.begin_thread_run(id, input).finish_thread_run(id, run_id, now, checkpoint_id);
            &&& s2.wf()
            &&& s2.thread(id).messages == s.thread(id).messages + input_thread_messages(input) + run_reply_messages(
                s,
                run_id,
            )
            &&& s2.thread(id).thread.status == ThreadStatus::Idle
        }),
{
    let p = s.thread_pos(id);
    let s1 = s.begin_thread_run(id, input);
    lemma_threads_update(s, p, s1.threads[p]);
    lemma_thread_pos(s1, id, p);
    assert(s1.runs == s.runs);
    assert(run_reply_messages(s1, run_id) == run_reply_messages(s, run_id));
    law_finished_run_frees_thread(s1, id, run_id, now, checkpoint_id);
}

/// A copy under a new id leaves the copied thread as it is and holds the same
/// metadata, values, conversation and history, as an idle thread.
pub proof fn law_copy_keeps_source(s: StoreV, id: Seq<char>, new_id: Seq<char>, now: Timestamp)
    requires
        s.wf(),
        s.has_thread(id),
        new_id != id,
    ensures
        ({
            let (s2, r) = s.copy_thread(id, new_id, now);
            &&& r is Ok
            &&& s2.wf()
            &&& s2.get_thread(id) == s.get_thread(id)
            &&& s2.get_thread(new_id) == r
            &&& r->Ok_0.status == ThreadStatus::Idle
            &&& r->Ok_0.metadata == s.thread(id).thread.metadata
            &&& r->Ok_0.values == s.thread(id).thread.values
            &&& s2.thread(new_id).messages == s.thread(id).messages
            &&& s2.thread(new_id).history == s.thread(id).history
        }),
{
    let p = s.thread_pos(id);
    let (s2, r) = s.copy_thread(id, new_id, now);
    let t = s2.thread(new_id);
    if s.has_thread(new_id) {
        let q = s.thread_pos(new_id);
        assert(q != p);
        let nt = s2.threads[q];
        lemma_threads_update(s, q, nt);
        lemma_thread_pos(s2, new_id, q);
        lemma_thread_pos(s2, id, p);
    } else {
        let nt = s2.threads[s.threads.len() as int];
        lemma_threads_push(s, nt);
        lemma_thread_pos(s2, new_id, s.threads.len() as int);
        lemma_thread_pos(s2, id, p);
    }
}

// ── Runs ─────────────────────────────────────────────────────────────────────

/// A stateless run that was accepted is stored pending: reading it gives
/// back what creating it answered, and waiting on it gives nothing yet.
pub proof fn law_new_run_is_pending(
    s: StoreV,
    agent_name: Option<Seq<char>>,
    creation: RunCreateStatelessV,
    run_id: u128,
    now: Timestamp,
)
    requires
        s.wf(),
        s.resolve_agent(agent_name) is Ok,
    ensures
        ({
            let (s2, r) = s.create_stateless_run(agent_name, creation, run_id, now);
            &&& r is Ok
            &&& r->Ok_0.run.status == RunStatus::Pending
            &&& r->Ok_0.run.run_id == run_id
            &&& r->Ok_0.run.thread_id is None
            &&& s2.wf()
            &&& s2.get_run_stateless(run_id) == r
            &&& s2.wait_stateless(run_id) == Ok::<_, AcpErrorV>(None::<(crate::acp_types::RunStatelessV, Option<crate::acp_types::RunOutputV>)>)
        }),
{
    let agent_id = s.resolve_agent(agent_name)->Ok_0;
    let rd = RunDataV { creation_stateless: Some(creation), ..crate::state::new_run_data(run_id, agent_id, None, now) };
    lemma_put_run(s, rd);
}

/// Cancelling a pending run turns it into an error with code 499; a run
/// that is no longer pending stays as it is; cancelling again changes
/// nothing.
pub proof fn law_cancel(s: StoreV, id: u128, description: Seq<char>, now: Timestamp, description2: Seq<char>, now2: Timestamp)
    requires
        s.wf(),
        s.has_run(id),
    ensures
        ({
            let (s2, r) = s.cancel_run(id, description, now);
            &&& r is Ok
            &&& s2.wf()
            &&& s2.has_run(id)
            &&& s2.threads == s.threads
            &&& (s.run(id).run.status == RunStatus::Pending ==> s2.run(id).run.status == RunStatus::Error
                && s2.run(id).output == Some(failed_output(id, CANCELLED_ERRCODE, description)))
            &&& (s.run(id).run.status != RunStatus::Pending ==> s2 == s)
            &&& s2.cancel_run(id, description2, now2) == (s2, Ok::<(), AcpErrorV>(()))
        }),
{
    if s.run(id).run.status == RunStatus::Pending {
        lemma_settle_run(s, id, RunStatus::Error, failed_output(id, CANCELLED_ERRCODE, description), now);
    }
}

/// A deleted run is no longer found, as a stateless run or as a thread run.
pub proof fn law_deleted_run_is_gone(s: StoreV, id: u128)
    requires
        s.wf(),
        s.has_run(id),
    ensures
        s.delete_run(id).1 is Ok,
        s.delete_run(id).0.wf(),
        s.delete_run(id).0.get_run_stateless(id) == Err::<crate::acp_types::RunStatelessV, AcpErrorV>(run_not_found(id)),
        s.delete_run(id).0.get_run_stateful(id) == Err::<crate::acp_types::RunStatefulV, AcpErrorV>(run_not_found(id)),
{
    let p = s.run_pos(id);
    let s2 = s.delete_run(id).0;
    assert(s2.runs == s.runs.remove(p));
    assert forall|a: int, b: int| 0 <= a < b < s2.runs.len() implies s2.runs[a].run.run_id
        != s2.runs[b].run.run_id by {
        let a0 = if a < p { a } else { a + 1 };
        let b0 = if b < p { b } else { b + 1 };
        assert(s2.runs[a] == s.runs[a0]);
        assert(s2.runs[b] == s.runs[b0]);
    }
    if s2.has_run(id) {
        let j = s2.run_pos(id);
        let j0 = if j < p { j } else { j + 1 };
        assert(s2.runs[j] == s.runs[j0]);
        lemma_run_pos(s, id, j0);
    }
}

/// Once a pending run has ended, however it ended, it is no longer pending:
/// waiting on it gives the run and its output, which says how it ended.
pub proof fn law_ended_run_is_settled(s: StoreV, id: u128, outcome: RunOutcomeV, timeout_secs: u64, now: Timestamp)
    requires
        s.wf(),
        s.has_run(id),
        s.run(id).run.status == RunStatus::Pending,
    ensures
        ({
            let s2 = s.record_outcome(id, outcome, timeout_secs, now);
            &&& s2.wf()
            &&& s2.has_run(id)
            &&& s2.threads == s.threads
            &&& s2.wait_stateless(id) == Ok::<_, AcpErrorV>(Some((s2.run(id).stateless(), s2.run(id).output)))
            &&& match outcome {
                RunOutcomeV::Completed { text, usage } => s2.run(id).run.status == RunStatus::Success
                    && s2.run(id).output == Some(success_output(text, usage)),
                RunOutcomeV::Failed { message } => s2.run(id).run.status == RunStatus::Error
                    && s2.run(id).output == Some(failed_output(id, FAILED_ERRCODE, message)),
                RunOutcomeV::TimedOut => s2.run(id).run.status == RunStatus::Timeout
                    && s2.run(id).output == Some(failed_output(id, TIMEOUT_ERRCODE, timeout_text(timeout_secs))),
            }
        }),
{
    match outcome {
        RunOutcomeV::Completed { text, usage } => {
            lemma_settle_run(s, id, RunStatus::Success, success_output(text, usage), now);
        },
        RunOutcomeV::Failed { message } => {
            lemma_settle_run(s, id, RunStatus::Error, failed_output(id, FAILED_ERRCODE, message), now);
        },
        RunOutcomeV::TimedOut => {
            lemma_settle_run(s, id, RunStatus::Timeout, failed_output(id, TIMEOUT_ERRCODE, timeout_text(timeout_secs)), now);
        },
    }
}

/// A run that is no longer pending (it ended, or it was cancelled) keeps its
/// status and output: an outcome that arrives afterwards, a late failure, or
/// a streamed finish changes nothing.
pub proof fn law_ended_run_stays(
    s: StoreV,
    id: u128,
    outcome: RunOutcomeV,
    timeout_secs: u64,
    text: Seq<char>,
    message: Seq<char>,
    now: Timestamp,
)
    requires
        s.has_run(id),
        s.run(id).run.status != RunStatus::Pending,
    ensures
        s.record_outcome(id, outcome, timeout_secs, now) == s,
        s.record_streamed(id, text, now) == s,
        s.settle_run(id, RunStatus::Error, failed_output(id, FAILED_ERRCODE, message), now) == s,
{
}

/// A run cancelled while it was pending stays cancelled whatever outcome
/// arrives afterwards: its status stays `Error` and its output the code 499.
pub proof fn law_cancelled_run_stays_cancelled(
    s: StoreV,
    id: u128,
    description: Seq<char>,
    now: Timestamp,
    outcome: RunOutcomeV,
    timeout_secs: u64,
    later: Timestamp,
)
    requires
        s.wf(),
        s.has_run(id),
        s.run(id).run.status == RunStatus::Pending,
    ensures
        ({
            let s1 = s.cancel_run(id, description, now).0;
            let s2 = s1.record_outcome(id, outcome, timeout_secs, later);
            &&& s2 == s1
            &&& s2.run(id).run.status == RunStatus::Error
            &&& s2.run(id).output == Some(failed_output(id, CANCELLED_ERRCODE, description))
        }),
{
    lemma_settle_run(s, id, RunStatus::Error, failed_output(id, CANCELLED_ERRCODE, description), now);
    let s1 = s.cancel_run(id, description, now).0;
    law_ended_run_stays(s1, id, outcome, timeout_secs, Seq::empty(), Seq::empty(), later);
}

// ── Agents ───────────────────────────────────────────────────────────────────

/// A run that names a registered agent by a text that parses as that agent's
/// id (such as the text `uuid_string` gives for it) resolves to that agent.
pub proof fn law_agent_resolved_by_its_id(s: StoreV, id: u128, text: Seq<char>)
    requires
        s.has_agent(id),
        uuid_parse(text) == Some(id),
    ensures
        s.resolve_agent(Some(text)) == Ok::<u128, AcpErrorV>(id),
{
}

/// A registered agent is then found under its id.
pub proof fn law_registered_agent_is_found(s: StoreV, e: AgentEntryV)
    requires
        s.wf(),
    ensures
        s.put_agent(e).wf(),
        s.put_agent(e).get_agent(e.agent.agent_id) == Ok::<crate::acp_types::AgentV, AcpErrorV>(e.agent),
{
    let id = e.agent.agent_id;
    let s2 = s.put_agent(e);
    if s.has_agent(id) {
        let p = s.agent_pos(id);
        assert forall|a: int, b: int| 0 <= a < b < s2.agents.len() implies s2.agents[a].agent.agent_id
            != s2.agents[b].agent.agent_id by {
            assert(s2.agents[a].agent.agent_id == s.agents[a].agent.agent_id);
            assert(s2.agents[b].agent.agent_id == s.agents[b].agent.agent_id);
        }
        assert(s2.has_agent(id));
        let j = s2.agent_pos(id);
        if j != p {
            if j < p {
                assert(s2.agents[j].agent.agent_id != s2.agents[p].agent.agent_id);
            } else {
                assert(s2.agents[p].agent.agent_id != s2.agents[j].agent.agent_id);
            }
        }
    } else {
        let n = s.agents.len() as int;
        assert forall|a: int, b: int| 0 <= a < b < s2.agents.len() implies s2.agents[a].agent.agent_id
            != s2.agents[b].agent.agent_id by {
            assert(s2.agents[a] == s.agents[a]);
            if b < n {
                assert(s2.agents[b] == s.agents[b]);
            }
        }
        assert(s2.agents[n].agent.agent_id == id);
        assert(s2.has_agent(id));
        let j = s2.agent_pos(id);
        if j != n {
            assert(s2.agents[j].agent.agent_id != s2.agents[n].agent.agent_id);
        }
    }
}

// ── Metadata ─────────────────────────────────────────────────────────────────

/// Setting member `k` makes `k` read as the value set.
proof fn lemma_member_set_same(m: Seq<(Seq<char>, JsonV)>, k: Seq<char>, v: JsonV)
    ensures
        member_get(member_set(m, k, v), k) == Some(v),
    decreases m.len(),
{
    if m.len() > 0 && m[0].0 != k {
        lemma_member_set_same(m.drop_first(), k, v);
        assert((seq![m[0]] + member_set(m.drop_first(), k, v)).drop_first() =~= member_set(m.drop_first(), k, v));
    }
}

/// Setting member `k` leaves every other member as it reads.
proof fn lemma_member_set_other(m: Seq<(Seq<char>, JsonV)>, k: Seq<char>, v: JsonV, k2: Seq<char>)
    requires
        k2 != k,
    ensures
        member_get(member_set(m, k, v), k2) == member_get(m, k2),
    decreases m.len(),
{
    if m.len() == 0 {
        let one = seq![(k, v)];
        assert(one[0].0 == k);
        assert(one.drop_first() =~= Seq::<(Seq<char>, JsonV)>::empty());
        assert(member_get(one, k2) == member_get(one.drop_first(), k2));
    } else if m[0].0 == k {
        let u = m.update(0, (k, v));
        assert(u[0].0 == k);
        assert(u.drop_first() =~= m.drop_first());
        assert(member_get(u, k2) == member_get(u.drop_first(), k2));
    } else {
        lemma_member_set_other(m.drop_first(), k, v, k2);
        assert((seq![m[0]] + member_set(m.drop_first(), k, v)).drop_first() =~= member_set(m.drop_first(), k, v));
    }
}

/// A merge leaves the members that the patch does not name as they read.
proof fn lemma_merge_keeps(m: Seq<(Seq<char>, JsonV)>, p: Seq<(Seq<char>, JsonV)>, k: Seq<char>)
    requires
        forall|i: int| 0 <= i < p.len() ==> (#[trigger] p[i]).0 != k,
    ensures
        member_get(members_merge(m, p), k) == member_get(m, k),
    decreases p.len(),
{
    if p.len() > 0 {
        assert(p[0].0 != k);
        lemma_member_set_other(m, p[0].0, p[0].1, k);
        assert forall|i: int| 0 <= i < p.drop_first().len() implies (#[trigger] p.drop_first()[i]).0 != k by {
            assert(p.drop_first()[i] == p[i + 1]);
        }
        lemma_merge_keeps(member_set(m, p[0].0, p[0].1), p.drop_first(), k);
    }
}

/// A merge makes each member that the patch names read as the last value
/// the patch gives it.
proof fn lemma_merge_sets(m: Seq<(Seq<char>, JsonV)>, p: Seq<(Seq<char>, JsonV)>, i: int)
    requires
        0 <= i < p.len(),
        forall|j: int| i < j < p.len() ==> (#[trigger] p[j]).0 != p[i].0,
    ensures
        member_get(members_merge(m, p), p[i].0) == Some(p[i].1),
    decreases p.len(),
{
    let k = p[i].0;
    if i == 0 {
        lemma_member_set_same(m, k, p[0].1);
        assert forall|j: int| 0 <= j < p.drop_first().len() implies (#[trigger] p.drop_first()[j]).0 != k by {
            assert(p.drop_first()[j] == p[j + 1]);
        }
        lemma_merge_keeps(member_set(m, k, p[0].1), p.drop_first(), k);
    } else {
        assert(p.drop_first()[i - 1] == p[i]);
        assert forall|j: int| i - 1 < j < p.drop_first().len() implies (#[trigger] p.drop_first()[j]).0
            != p.drop_first()[i - 1].0 by {
            assert(p.drop_first()[j] == p[j + 1]);
        }
        lemma_merge_sets(member_set(m, p[0].0, p[0].1), p.drop_first(), i - 1);
    }
}

/// Patching a thread's metadata (both objects) merges it: a member the
/// patch names reads as the last value the patch gives it, every other
/// member reads as before; the patched thread is what a read then gives.
pub proof fn law_patch_merges_metadata(
    s: StoreV,
    id: Seq<char>,
    patch: Seq<(Seq<char>, JsonV)>,
    values: Option<JsonV>,
    messages: Option<Seq<crate::acp_types::MessageV>>,
    now: Timestamp,
)
    requires
        s.wf(),
        s.has_thread(id),
        s.thread(id).thread.metadata is Object,
    ensures
        ({
            let (s2, r) = s.patch_thread(id, Some(JsonV::Object(patch)), values, messages, now);
            let old_md = s.thread(id).thread.metadata;
            &&& r is Ok
            &&& s2.wf()
            &&& s2.get_thread(id) == r
            &&& r->Ok_0.metadata is Object
            &&& forall|k: Seq<char>|
                (forall|i: int| 0 <= i < patch.len() ==> (#[trigger] patch[i]).0 != k) ==> #[trigger] r->Ok_0.metadata.field(k)
                    == old_md.field(k)
            &&& forall|i: int|
                0 <= i < patch.len() && (forall|j: int| i < j < patch.len() ==> (#[trigger] patch[j]).0 != patch[i].0)
                    ==> r->Ok_0.metadata.field(#[trigger] patch[i].0) == Some(patch[i].1)
        }),
{
    let p = s.thread_pos(id);
    let (s2, r) = s.patch_thread(id, Some(JsonV::Object(patch)), values, messages, now);
    lemma_threads_update(s, p, s2.threads[p]);
    lemma_thread_pos(s2, id, p);
    let m = s.thread(id).thread.metadata->Object_0;
    assert forall|k: Seq<char>|
        (forall|i: int| 0 <= i < patch.len() ==> (#[trigger] patch[i]).0 != k) implies #[trigger] r->Ok_0.metadata.field(k)
            == s.thread(id).thread.metadata.field(k) by {
        lemma_merge_keeps(m, patch, k);
    }
    assert forall|i: int|
        0 <= i < patch.len() && (forall|j: int| i < j < patch.len() ==> (#[trigger] patch[j]).0 != patch[i].0)
            implies r->Ok_0.metadata.field(#[trigger] patch[i].0) == Some(patch[i].1) by {
        lemma_merge_sets(m, patch, i);
    }
}

// ── Agent search ─────────────────────────────────────────────────────────────

/// No agent comes after one whose name sorts after its own.
pub open spec fn sorted_by_name(s: Seq<AgentV>) -> bool {
    forall|i: int, j: int|
        0 <= i < j < s.len() ==> !text_lt(#[trigger] s[j].metadata.agent_ref.name, #[trigger] s[i].metadata.agent_ref.name)
}

/// Where `insert_by_name` places `x`: before the first agent whose name
/// comes after its own.
spec fn insert_index(s: Seq<AgentV>, x: AgentV) -> int
    decreases s.len(),
{
    if s.len() == 0 {
        0
    } else if text_lt(x.metadata.agent_ref.name, s[0].metadata.agent_ref.name) {
        0
    } else {
        1 + insert_index(s.drop_first(), x)
    }
}

proof fn lemma_insert_index(s: Seq<AgentV>, x: AgentV)
    ensures
        0 <= insert_index(s, x) <= s.len(),
        forall|k: int|
            0 <= k < insert_index(s, x) ==> !text_lt(x.metadata.agent_ref.name, #[trigger] s[k].metadata.agent_ref.name),
        insert_index(s, x) < s.len() ==> text_lt(x.metadata.agent_ref.name, s[insert_index(s, x)].metadata.agent_ref.name),
        insert_by_name(s, x) == s.insert(insert_index(s, x), x),
    decreases s.len(),
{
    if s.len() > 0 && !text_lt(x.metadata.agent_ref.name, s[0].metadata.agent_ref.name) {
        lemma_insert_index(s.drop_first(), x);
        assert forall|k: int| 0 <= k < insert_index(s, x) implies !text_lt(
            x.metadata.agent_ref.name,
            #[trigger] s[k].metadata.agent_ref.name,
        ) by {
            if k > 0 {
                assert(s[k] == s.drop_first()[k - 1]);
            }
        }
        if insert_index(s, x) < s.len() {
            assert(s[insert_index(s, x)] == s.drop_first()[insert_index(s.drop_first(), x)]);
        }
    }
    crate::agents::lemma_insert_at(s, x, insert_index(s, x));
}

/// Inserting by name into a sorted sequence keeps it sorted.
proof fn lemma_insert_sorted(s: Seq<AgentV>, x: AgentV)
    requires
        sorted_by_name(s),
    ensures
        sorted_by_name(insert_by_name(s, x)),
        insert_by_name(s, x).to_multiset() == s.to_multiset().insert(x),
{
    lemma_insert_index(s, x);
    let j = insert_index(s, x);
    let r = s.insert(j, x);
    assert forall|a: int, b: int| 0 <= a < b < r.len() implies !text_lt(
        #[trigger] r[b].metadata.agent_ref.name,
        #[trigger] r[a].metadata.agent_ref.name,
    ) by {
        let xn = x.metadata.agent_ref.name;
        if a < j && b < j {
            assert(r[a] == s[a] && r[b] == s[b]);
        } else if a < j && b == j {
            assert(r[a] == s[a] && r[b] == x);
        } else if a < j {
            assert(r[a] == s[a] && r[b] == s[b - 1]);
        } else if a == j {
            assert(r[a] == x && r[b] == s[b - 1]);
            let yn = s[b - 1].metadata.agent_ref.name;
            let jn = s[j].metadata.agent_ref.name;
            lemma_text_lt_asymmetric(xn, jn);
            if text_lt(yn, xn) {
                if b - 1 > j {
                    lemma_text_lt_transitive(yn, xn, jn);
                    assert(!text_lt(s[b - 1].metadata.agent_ref.name, s[j].metadata.agent_ref.name));
                }
            }
        } else {
            assert(r[a] == s[a - 1] && r[b] == s[b - 1]);
        }
    }
    vstd::seq_lib::to_multiset_insert(s, j, x);
}

/// Sorting by name gives a sorted sequence of the same agents.
proof fn lemma_sort_sorted(s: Seq<AgentV>)
    ensures
        sorted_by_name(sort_by_name(s)),
        sort_by_name(s).to_multiset() == s.to_multiset(),
    decreases s.len(),
{
    if s.len() > 0 {
        lemma_sort_sorted(s.drop_last());
        lemma_insert_sorted(sort_by_name(s.drop_last()), s.last());
        vstd::seq_lib::to_multiset_build(s.drop_last(), s.last());
        assert(s.drop_last().push(s.last()) =~= s);
    }
}

/// An agent search gives agents in name order, each registered and each
/// passing the filter; every registered agent that passes the filter is
/// among the results before paging; a page holds at most `max(limit, 1)`
/// of them.
pub proof fn law_agent_search_ordered(
    s: StoreV,
    name: Option<Seq<char>>,
    version: Option<Seq<char>>,
    offset: int,
    limit: int,
)
    ensures
        ({
            let all = s.agent_search(name, version);
            let r = page(all, offset, limit);
            &&& r.len() <= (if limit < 1 { 1 } else { limit })
            &&& sorted_by_name(r)
            &&& forall|i: int| 0 <= i < r.len() ==> agent_matches(name, version, #[trigger] r[i])
            &&& forall|i: int| #![trigger r[i]] 0 <= i < r.len() ==> exists|k: int| 0 <= k < s.agents.len() && #[trigger] s.agents[k].agent == r[i]
            &&& forall|k: int| 0 <= k < s.agents.len() && agent_matches(name, version, #[trigger] s.agents[k].agent)
                ==> all.contains(s.agents[k].agent)
        }),
{
    let mapped = s.agents.map_values(|e: AgentEntryV| e.agent);
    let pred = |a: AgentV| agent_matches(name, version, a);
    let f = mapped.filter(pred);
    let all = s.agent_search(name, version);
    assert(all == sort_by_name(f));
    lemma_sort_sorted(f);
    let lo = page_start(all.len() as int, offset);
    let hi = page_end(all.len() as int, offset, limit);
    let r = page(all, offset, limit);
    assert(r == all.subrange(lo, hi));
    assert forall|i: int, j: int| 0 <= i < j < r.len() implies !text_lt(
        #[trigger] r[j].metadata.agent_ref.name,
        #[trigger] r[i].metadata.agent_ref.name,
    ) by {
        assert(r[i] == all[lo + i] && r[j] == all[lo + j]);
    }
    assert forall|i: int| #![trigger r[i]] 0 <= i < r.len() implies agent_matches(name, version, r[i]) && exists|k: int|
        0 <= k < s.agents.len() && #[trigger] s.agents[k].agent == r[i] by {
        let y = r[i];
        assert(y == all[lo + i]);
        assert(all.contains(y));
        vstd::seq_lib::to_multiset_contains(all, y);
        vstd::seq_lib::to_multiset_contains(f, y);
        assert(f.contains(y));
        let t = choose|t: int| 0 <= t < f.len() && f[t] == y;
        mapped.lemma_filter_pred(pred, t);
        mapped.lemma_filter_contains_rev(pred, y);
        assert(mapped.contains(y));
        let k = choose|k: int| 0 <= k < mapped.len() && mapped[k] == y;
        assert(s.agents[k].agent == y);
    }
    assert forall|k: int| 0 <= k < s.agents.len() && agent_matches(name, version, #[trigger] s.agents[k].agent) implies all.contains(
        s.agents[k].agent,
    ) by {
        let y = s.agents[k].agent;
        assert(mapped[k] == y);
        mapped.lemma_filter_contains(pred, k);
        vstd::seq_lib::to_multiset_contains(f, y);
        vstd::seq_lib::to_multiset_contains(all, y);
    }
}

// ── Metric labels ────────────────────────────────────────────────────────────

/// A text without `/`.
spec fn no_slash(t: Seq<char>) -> bool {
    forall|i: int| 0 <= i < t.len() ==> t[i] != '/'
}

/// The label of a segment holds no `/` where the segment holds none, and
/// labelling it again changes nothing.
proof fn lemma_label_segment(seg: Seq<char>)
    requires
        no_slash(seg),
    ensures
        no_slash(label_segment(seg)),
        label_segment(label_segment(seg)) == label_segment(seg),
{
    reveal_strlit("{id}");
    if looks_like_uuid(seg) {
        assert("{id}"@.len() == 4);
        assert(!looks_like_uuid("{id}"@));
    }
}

/// The first segment of `a + "/" + b`, where `a` holds no `/`, is `a`.
proof fn lemma_first_segment(a: Seq<char>, b: Seq<char>)
    requires
        no_slash(a),
    ensures
        segment_len(a + seq!['/'] + b) == a.len(),
        (a + seq!['/'] + b).take(a.len() as int) == a,
        (a + seq!['/'] + b).skip(a.len() + 1int) == b,
{
    let q = a + seq!['/'] + b;
    assert forall|t: int| 0 <= t < a.len() implies q[t] != '/' by {
        assert(q[t] == a[t]);
    }
    assert(q[a.len() as int] == '/');
    lemma_segment_len(q, a.len() as int);
    assert(q.take(a.len() as int) =~= a);
    assert(q.skip(a.len() + 1int) =~= b);
}

/// Normalising a path that is already normalised changes nothing: the
/// labels are stable.
pub proof fn law_normalised_path_idempotent(path: Seq<char>)
    ensures
        normalised_path(normalised_path(path)) == normalised_path(path),
    decreases path.len(),
{
    let k = segment_len(path);
    lemma_segment_len_le(path);
    lemma_first_segment_no_slash(path);
    if k >= path.len() {
        assert(path.take(k as int) =~= path);
        let q = label_segment(path);
        lemma_label_segment(path);
        lemma_no_slash_segment(q);
    } else {
        let first = path.take(k as int);
        let rest = path.skip(k + 1int);
        lemma_label_segment(first);
        let l = label_segment(first);
        let q = normalised_path(path);
        assert(q == l + seq!['/'] + normalised_path(rest));
        lemma_first_segment(l, normalised_path(rest));
        law_normalised_path_idempotent(rest);
    }
}

/// Normalising a path keeps its segments, as many as it had and in order,
/// and replaces each by its label: `{id}` for a UUID, itself otherwise.
pub proof fn law_normalised_path_segments(path: Seq<char>)
    ensures
        path_segments(normalised_path(path)) == path_segments(path).map_values(|s: Seq<char>| label_segment(s)),
    decreases path.len(),
{
    let k = segment_len(path);
    lemma_first_segment_no_slash(path);
    if k >= path.len() {
        assert(path.take(k as int) =~= path);
        lemma_label_segment(path);
        lemma_no_slash_segment(label_segment(path));
        assert(path_segments(path).map_values(|s: Seq<char>| label_segment(s)) =~= seq![label_segment(path)]);
    } else {
        let first = path.take(k as int);
        let rest = path.skip(k + 1int);
        lemma_label_segment(first);
        let l = label_segment(first);
        let q = normalised_path(path);
        assert(q == l + seq!['/'] + normalised_path(rest));
        lemma_first_segment(l, normalised_path(rest));
        law_normalised_path_segments(rest);
        assert(path_segments(q) == seq![l] + path_segments(normalised_path(rest)));
        assert(path_segments(path) == seq![first] + path_segments(rest));
        assert(path_segments(path).map_values(|s: Seq<char>| label_segment(s)) =~= seq![l]
            + path_segments(rest).map_values(|s: Seq<char>| label_segment(s)));
    }
}

/// The text of every id the server writes is a UUID segment: as a path
/// segment it is labelled `{id}`.
pub proof fn law_issued_id_is_labelled(id: u128)
    ensures
        looks_like_uuid(uuid_text(id)),
        label_segment(uuid_text(id)) == "{id}"@,
{
    let t = uuid_text(id);
    assert forall|i: int| 0 <= i < t.len() implies uuid_char_at(i, #[trigger] t[i]) by {
        if !(i == 8 || i == 13 || i == 18 || i == 23) {
            let k = uuid_digit_index(i);
            let sh = (124 - 4 * k) as u128;
            let x = id >> sh;
            assert(x & 0xfu128 <= 15u128) by (bit_vector);
            let n = uuid_nibble(id, k);
            assert(0 <= n <= 15);
        }
    }
}

/// The first segment of a path holds no `/`.
proof fn lemma_first_segment_no_slash(path: Seq<char>)
    ensures
        segment_len(path) <= path.len(),
        no_slash(path.take(segment_len(path) as int)),
        segment_len(path) < path.len() ==> path[segment_len(path) as int] == '/',
    decreases path.len(),
{
    lemma_segment_len_le(path);
    if path.len() > 0 && path[0] != '/' {
        lemma_first_segment_no_slash(path.drop_first());
        let k = segment_len(path);
        assert forall|i: int| 0 <= i < k implies path.take(k as int)[i] != '/' by {
            if i > 0 {
                assert(path.take(k as int)[i] == path.drop_first().take(k - 1)[i - 1]);
            }
        }
    }
}

/// A text without `/` is one segment.
proof fn lemma_no_slash_segment(t: Seq<char>)
    requires
        no_slash(t),
    ensures
        segment_len(t) == t.len(),
{
    lemma_segment_len(t, t.len() as int);
}

/// `path[i..j]` is one whole `/`-separated segment of `path`.
pub open spec fn is_segment(path: Seq<char>, i: int, j: int) -> bool {
    &&& 0 <= i <= j <= path.len()
    &&& (i == 0 || path[i - 1] == '/')
    &&& (j == path.len() || path[j] == '/')
    &&& forall|t: int| i <= t < j ==> path[t] != '/'
}

/// A path none of whose segments looks like a UUID is its own label.
pub proof fn law_plain_path_unchanged(path: Seq<char>)
    requires
        forall|i: int, j: int| is_segment(path, i, j) ==> !looks_like_uuid(#[trigger] path.subrange(i, j)),
    ensures
        normalised_path(path) == path,
    decreases path.len(),
{
    let k = segment_len(path) as int;
    lemma_first_segment_no_slash(path);
    assert(path.take(k) =~= path.subrange(0, k));
    assert(is_segment(path, 0, k)) by {
        assert forall|t: int| 0 <= t < k implies path[t] != '/' by {
            assert(path.take(k)[t] == path[t]);
        }
    }
    if k >= path.len() {
        assert(path.take(k) =~= path);
    } else {
        let rest = path.skip(k + 1);
        assert forall|i: int, j: int| is_segment(rest, i, j) implies !looks_like_uuid(#[trigger] rest.subrange(i, j)) by {
            assert(rest.subrange(i, j) =~= path.subrange(i + k + 1, j + k + 1));
            assert forall|t: int| i + k + 1 <= t < j + k + 1 implies path[t] != '/' by {
                assert(rest[t - k - 1] == path[t]);
            }
            if i > 0 {
                assert(rest[i - 1] == path[i + k]);
            }
            if j < rest.len() {
                assert(rest[j] == path[j + k + 1]);
            }
            assert(is_segment(path, i + k + 1, j + k + 1));
        }
        law_plain_path_unchanged(rest);
        assert(path.take(k) + seq!['/'] + rest =~= path);
    }
}

// ── Embedding replies ────────────────────────────────────────────────────────

/// Adding a member under another key leaves `k` as it reads.
proof fn lemma_member_get_push(m: Seq<(Seq<char>, JsonV)>, k: Seq<char>, entry: (Seq<char>, JsonV))
    requires
        entry.0 != k,
    ensures
        member_get(m.push(entry), k) == member_get(m, k),
    decreases m.len(),
{
    assert(m.push(entry)[0] == (if m.len() == 0 { entry } else { m[0] }));
    let mp = m.push(entry);
    if m.len() == 0 {
        assert(mp.drop_first() =~= Seq::<(Seq<char>, JsonV)>::empty());
        assert(member_get(mp, k) == member_get(mp.drop_first(), k));
        assert(member_get(mp.drop_first(), k) is None);
    } else if m[0].0 != k {
        lemma_member_get_push(m.drop_first(), k, entry);
        assert(mp.drop_first() =~= m.drop_first().push(entry));
        assert(member_get(mp, k) == member_get(mp.drop_first(), k));
    } else {
        assert(member_get(mp, k) == Some(m[0].1));
    }
}

/// Setting a member to the value it already reads as changes nothing.
proof fn lemma_member_set_unchanged(m: Seq<(Seq<char>, JsonV)>, k: Seq<char>, v: JsonV)
    requires
        member_get(m, k) == Some(v),
    ensures
        member_set(m, k, v) == m,
    decreases m.len(),
{
    if m[0].0 == k {
        assert(m.update(0, (k, v)) =~= m);
    } else {
        lemma_member_set_unchanged(m.drop_first(), k, v);
        assert(seq![m[0]] + m.drop_first() =~= m);
    }
}

/// `member_or_insert` keeps what `k2` reads as, for `k2` other than `k`.
proof fn lemma_member_or_insert_other(m: Seq<(Seq<char>, JsonV)>, k: Seq<char>, v: JsonV, k2: Seq<char>)
    requires
        k != k2,
    ensures
        member_get(member_or_insert(m, k, v), k2) == member_get(m, k2),
{
    if member_get(m, k) is None {
        lemma_member_get_push(m, k2, (k, v));
    }
}

/// After `member_or_insert`, `k` is present.
proof fn lemma_member_or_insert_present(m: Seq<(Seq<char>, JsonV)>, k: Seq<char>, v: JsonV)
    ensures
        member_get(member_or_insert(m, k, v), k) is Some,
    decreases m.len(),
{
    if member_get(m, k) is None {
        lemma_member_push_present(m, k, v);
    }
}

proof fn lemma_member_push_present(m: Seq<(Seq<char>, JsonV)>, k: Seq<char>, v: JsonV)
    ensures
        member_get(m.push((k, v)), k) is Some,
    decreases m.len(),
{
    if m.len() > 0 && m[0].0 != k {
        lemma_member_push_present(m.drop_first(), k, v);
        assert(m.push((k, v)).drop_first() =~= m.drop_first().push((k, v)));
    }
}

/// Completing an item twice is completing it once.
proof fn lemma_completed_item_idempotent(item: JsonV)
    ensures
        completed_item(completed_item(item)) == completed_item(item),
{
    if let JsonV::Object(m) = item {
        lemma_member_or_insert_present(m, "object"@, JsonV::Str("embedding"@));
    }
}

/// Completing an embedding reply twice is completing it once: the members
/// that the completion supplies are only added where they are missing.
pub proof fn law_completed_response_idempotent(v: JsonV)
    ensures
        completed_response(completed_response(v)) == completed_response(v),
{
    reveal_strlit("data");
    reveal_strlit("usage");
    if let JsonV::Object(m) = v {
        let m1 = match member_get(m, "data"@) {
            Some(JsonV::Array(items)) => member_set(
                m,
                "data"@,
                JsonV::Array(items.map_values(|x: JsonV| completed_item(x))),
            ),
            _ => m,
        };
        let m2 = member_or_insert(m1, "usage"@, default_usage());
        assert(completed_response(v) == JsonV::Object(m2));
        assert("usage"@ != "data"@) by {
            assert("usage"@[0] != "data"@[0]);
        }
        lemma_member_or_insert_other(m1, "usage"@, default_usage(), "data"@);
        match member_get(m, "data"@) {
            Some(JsonV::Array(items)) => {
                let done = items.map_values(|x: JsonV| completed_item(x));
                lemma_member_set_same(m, "data"@, JsonV::Array(done));
                assert(member_get(m2, "data"@) == Some(JsonV::Array(done)));
                assert(done.map_values(|x: JsonV| completed_item(x)) =~= done) by {
                    assert forall|i: int| 0 <= i < done.len() implies #[trigger] completed_item(done[i]) == done[i] by {
                        lemma_completed_item_idempotent(items[i]);
                    }
                }
                lemma_member_set_unchanged(m2, "data"@, JsonV::Array(done));
            },
            _ => {
                assert(member_get(m2, "data"@) == member_get(m, "data"@));
            },
        }
        lemma_member_or_insert_present(m1, "usage"@, default_usage());
    }
}

// ── Searches ─────────────────────────────────────────────────────────────────

/// A thread search finds exactly the stored threads with the requested
/// status whose metadata holds every requested member; a page of it holds
/// at most `max(limit, 1)` of them.
pub proof fn law_thread_search_filters(
    s: StoreV,
    status: Option<ThreadStatus>,
    metadata: Option<JsonV>,
    offset: int,
    limit: int,
)
    ensures
        ({
            let all = s.thread_search(status, metadata);
            let r = page(all, offset, limit);
            &&& r.len() <= (if limit < 1 { 1 } else { limit })
            &&& forall|i: int| 0 <= i < all.len() ==> crate::threads::thread_matches(status, metadata, #[trigger] all[i])
            &&& forall|k: int|
                0 <= k < s.threads.len() && crate::threads::thread_matches(status, metadata, #[trigger] s.threads[k].thread)
                    ==> all.contains(s.threads[k].thread)
        }),
{
    let mapped = s.threads.map_values(|td: ThreadDataV| td.thread);
    let pred = |t: crate::acp_types::ThreadV| crate::threads::thread_matches(status, metadata, t);
    let all = s.thread_search(status, metadata);
    assert(all == mapped.filter(pred));
    assert forall|i: int| 0 <= i < all.len() implies crate::threads::thread_matches(status, metadata, #[trigger] all[i]) by {
        mapped.lemma_filter_pred(pred, i);
    }
    assert forall|k: int|
        0 <= k < s.threads.len() && crate::threads::thread_matches(status, metadata, #[trigger] s.threads[k].thread)
            implies all.contains(s.threads[k].thread) by {
        assert(mapped[k] == s.threads[k].thread);
        mapped.lemma_filter_contains(pred, k);
    }
}

/// A stateless run search finds exactly the stored runs of no thread that
/// pass the agent, status and metadata filters, as stateless runs.
pub proof fn law_run_search_filters(s: StoreV, agent: Option<u128>, status: Option<RunStatus>, metadata: Option<JsonV>)
    ensures
        ({
            let all = s.stateless_search(agent, status, metadata);
            &&& forall|i: int| #![trigger all[i]] 0 <= i < all.len() ==> exists|k: int|
                0 <= k < s.runs.len() && crate::runs::stateless_match(agent, status, metadata, #[trigger] s.runs[k])
                    && s.runs[k].stateless() == all[i]
            &&& forall|k: int| 0 <= k < s.runs.len() && crate::runs::stateless_match(agent, status, metadata, #[trigger] s.runs[k])
                ==> all.contains(s.runs[k].stateless())
        }),
{
    let pred = |r: RunDataV| crate::runs::stateless_match(agent, status, metadata, r);
    let f = |r: RunDataV| r.stateless();
    let filtered = s.runs.filter(pred);
    let all = s.stateless_search(agent, status, metadata);
    assert(all == filtered.map_values(f));
    assert forall|i: int| #![trigger all[i]] 0 <= i < all.len() implies exists|k: int|
        0 <= k < s.runs.len() && crate::runs::stateless_match(agent, status, metadata, #[trigger] s.runs[k])
            && s.runs[k].stateless() == all[i] by {
        let y = filtered[i];
        filtered.lemma_index_contains(i);
        s.runs.lemma_filter_pred(pred, i);
        s.runs.lemma_filter_contains_rev(pred, y);
        let k = choose|k: int| 0 <= k < s.runs.len() && s.runs[k] == y;
        assert(s.runs[k].stateless() == all[i]);
    }
    assert forall|k: int| 0 <= k < s.runs.len() && crate::runs::stateless_match(agent, status, metadata, #[trigger] s.runs[k])
        implies all.contains(s.runs[k].stateless()) by {
        s.runs.lemma_filter_contains(pred, k);
        let j = choose|j: int| 0 <= j < filtered.len() && filtered[j] == s.runs[k];
        assert(all[j] == s.runs[k].stateless());
    }
}

// ── Isolation ────────────────────────────────────────────────────────────────

/// Replacing the thread at one position, under its own id, leaves every
/// other thread as a read gives it.
proof fn lemma_other_thread_kept(s: StoreV, p: int, t: ThreadDataV, k: Seq<char>)
    requires
        s.wf(),
        0 <= p < s.threads.len(),
        t.thread.thread_id == s.threads[p].thread.thread_id,
        k != s.threads[p].thread.thread_id,
    ensures
        (StoreV { threads: s.threads.update(p, t), ..s }).get_thread(k) == s.get_thread(k),
{
    let s2 = StoreV { threads: s.threads.update(p, t), ..s };
    lemma_threads_update(s, p, t);
    if s.has_thread(k) {
        let j = s.thread_pos(k);
        assert(j != p);
        assert(s2.threads[j] == s.threads[j]);
        lemma_thread_pos(s2, k, j);
    } else if s2.has_thread(k) {
        let j = s2.thread_pos(k);
        assert(j != p);
        assert(s2.threads[j] == s.threads[j]);
        assert(s.has_thread(k));
    }
}

/// Removing the thread at one position leaves every other thread as a read
/// gives it.
proof fn lemma_other_thread_kept_remove(s: StoreV, p: int, k: Seq<char>)
    requires
        s.wf(),
        0 <= p < s.threads.len(),
        k != s.threads[p].thread.thread_id,
    ensures
        (StoreV { threads: s.threads.remove(p), ..s }).get_thread(k) == s.get_thread(k),
{
    let s2 = StoreV { threads: s.threads.remove(p), ..s };
    assert forall|a: int, b: int| 0 <= a < b < s2.threads.len() implies s2.threads[a].thread.thread_id
        != s2.threads[b].thread.thread_id by {
        let a0 = if a < p { a } else { a + 1 };
        let b0 = if b < p { b } else { b + 1 };
        assert(s2.threads[a] == s.threads[a0]);
        assert(s2.threads[b] == s.threads[b0]);
    }
    if s.has_thread(k) {
        let j = s.thread_pos(k);
        assert(j != p);
        let j2 = if j < p { j } else { j - 1 };
        assert(s2.threads[j2] == s.threads[j]);
        lemma_thread_pos(s2, k, j2);
    } else if s2.has_thread(k) {
        let j = s2.thread_pos(k);
        let j0 = if j < p { j } else { j + 1 };
        assert(s2.threads[j] == s.threads[j0]);
        assert(s.has_thread(k));
    }
}

/// What happens to one thread leaves every other thread as it was: patching,
/// starting or finishing a run on it, and deleting it.
pub proof fn law_thread_changes_are_local(
    s: StoreV,
    id: Seq<char>,
    other: Seq<char>,
    metadata: Option<JsonV>,
    values: Option<JsonV>,
    messages: Option<Seq<crate::acp_types::MessageV>>,
    input: Option<JsonV>,
    run_id: u128,
    now: Timestamp,
    checkpoint_id: u128,
)
    requires
        s.wf(),
        other != id,
    ensures
        s.patch_thread(id, metadata, values, messages, now).0.get_thread(other) == s.get_thread(other),
        s.begin_thread_run(id, input).get_thread(other) == s.get_thread(other),
        s.finish_thread_run(id, run_id, now, checkpoint_id).get_thread(other) == s.get_thread(other),
        s.delete_thread(id).0.get_thread(other) == s.get_thread(other),
{
    if s.has_thread(id) {
        let p = s.thread_pos(id);
        let s1 = s.patch_thread(id, metadata, values, messages, now).0;
        lemma_other_thread_kept(s, p, s1.threads[p], other);
        let s2 = s.begin_thread_run(id, input);
        lemma_other_thread_kept(s, p, s2.threads[p], other);
        let s3 = s.finish_thread_run(id, run_id, now, checkpoint_id);
        lemma_other_thread_kept(s, p, s3.threads[p], other);
        if s.thread(id).thread.status != ThreadStatus::Busy {
            lemma_other_thread_kept_remove(s, p, other);
        }
    }
}

/// What happens to runs leaves the threads as they are: creating, settling,
/// cancelling and deleting runs.
pub proof fn law_run_changes_leave_threads(
    s: StoreV,
    agent_name: Option<Seq<char>>,
    creation: RunCreateStatelessV,
    id: u128,
    outcome: RunOutcomeV,
    timeout_secs: u64,
    description: Seq<char>,
    now: Timestamp,
)
    ensures
        s.create_stateless_run(agent_name, creation, id, now).0.threads == s.threads,
        s.record_outcome(id, outcome, timeout_secs, now).threads == s.threads,
        s.cancel_run(id, description, now).0.threads == s.threads,
        s.delete_run(id).0.threads == s.threads,
{
}

// ── Stored metadata ──────────────────────────────────────────────────────────

/// No two members share a key.
pub open spec fn keys_unique(m: Seq<(Seq<char>, JsonV)>) -> bool {
    forall|i: int, j: int| 0 <= i < j < m.len() ==> (#[trigger] m[i]).0 != (#[trigger] m[j]).0
}

/// Setting a member keeps keys unique.
proof fn lemma_member_set_unique(m: Seq<(Seq<char>, JsonV)>, k: Seq<char>, v: JsonV)
    requires
        keys_unique(m),
    ensures
        keys_unique(member_set(m, k, v)),
{
    if exists|i: int| 0 <= i < m.len() && m[i].0 == k {
        let i = choose|i: int| 0 <= i < m.len() && m[i].0 == k;
        assert forall|t: int| 0 <= t < i implies (#[trigger] m[t]).0 != k by {}
        crate::json::lemma_member_set_at(m, k, v, i);
        let r = m.update(i, (k, v));
        assert forall|a: int, b: int| 0 <= a < b < r.len() implies (#[trigger] r[a]).0 != (#[trigger] r[b]).0 by {
            assert(r[a].0 == m[a].0);
            assert(r[b].0 == m[b].0);
        }
    } else {
        assert forall|t: int| 0 <= t < m.len() implies (#[trigger] m[t]).0 != k by {}
        crate::json::lemma_member_set_absent(m, k, v);
        let r = m.push((k, v));
        assert forall|a: int, b: int| 0 <= a < b < r.len() implies (#[trigger] r[a]).0 != (#[trigger] r[b]).0 by {
            assert(r[a] == m[a]);
            if b < m.len() {
                assert(r[b] == m[b]);
            }
        }
    }
}

/// A merge keeps keys unique, and every key of the target stays present.
proof fn lemma_merge_unique_present(m: Seq<(Seq<char>, JsonV)>, p: Seq<(Seq<char>, JsonV)>)
    requires
        keys_unique(m),
    ensures
        keys_unique(members_merge(m, p)),
        forall|k: Seq<char>| #[trigger] member_get(m, k) is Some ==> member_get(members_merge(m, p), k) is Some,
    decreases p.len(),
{
    if p.len() > 0 {
        let m1 = member_set(m, p[0].0, p[0].1);
        lemma_member_set_unique(m, p[0].0, p[0].1);
        lemma_merge_unique_present(m1, p.drop_first());
        assert forall|k: Seq<char>| #[trigger] member_get(m, k) is Some implies member_get(members_merge(m, p), k) is Some by {
            if k == p[0].0 {
                lemma_member_set_same(m, k, p[0].1);
            } else {
                lemma_member_set_other(m, p[0].0, p[0].1, k);
            }
            assert(member_get(m1, k) is Some);
        }
    }
}

/// Storing patched metadata over the metadata it was patched from gives the
/// patched metadata back, member for member: what the store merges in is
/// what the thread holds.
pub proof fn law_stored_metadata_consistent(stored: Seq<(Seq<char>, JsonV)>, patch: Seq<(Seq<char>, JsonV)>)
    requires
        keys_unique(stored),
    ensures
        ({
            let patched = JsonV::Object(members_merge(stored, patch));
            let again = crate::persistence::merged_metadata_value(Some(JsonV::Object(stored)), patched);
            &&& again is Object
            &&& forall|k: Seq<char>| #[trigger] again.field(k) == patched.field(k)
        }),
{
    let q = members_merge(stored, patch);
    lemma_merge_unique_present(stored, patch);
    assert forall|k: Seq<char>| #[trigger] member_get(members_merge(stored, q), k) == member_get(q, k) by {
        if exists|i: int| 0 <= i < q.len() && q[i].0 == k {
            let i = choose|i: int| 0 <= i < q.len() && q[i].0 == k;
            assert forall|t: int| 0 <= t < i implies (#[trigger] q[t]).0 != k by {}
            crate::embedding::lemma_member_get_at(q, k, i);
            assert forall|j: int| i < j < q.len() implies (#[trigger] q[j]).0 != q[i].0 by {}
            lemma_merge_sets(stored, q, i);
        } else {
            assert forall|t: int| 0 <= t < q.len() implies (#[trigger] q[t]).0 != k by {}
            crate::embedding::lemma_member_get_absent(q, k);
            lemma_merge_keeps(stored, q, k);
        }
    }
}

// ── What the operations are for ──────────────────────────────────────────────

/// A stateless run search returns stateless runs only: each result is a
/// stored run of no thread, of the requested agent and status, whose
/// creation metadata holds every requested member; and every such stored
/// run is found.
pub proof fn law_run_search_returns_stateless_runs(
    s: StoreV,
    agent: Option<u128>,
    status: Option<RunStatus>,
    metadata: Option<JsonV>,
)
    ensures
        ({
            let all = s.stateless_search(agent, status, metadata);
            &&& forall|i: int| #![trigger all[i]] 0 <= i < all.len() ==> exists|k: int|
                0 <= k < s.runs.len() && #[trigger] s.runs[k].stateless() == all[i]
                    && s.runs[k].run.thread_id is None
                    && (agent matches Some(a) ==> s.runs[k].run.agent_id == a)
                    && (status matches Some(st) ==> s.runs[k].run.status == st)
                    && requested_members_held(creation_metadata(s.runs[k]), metadata)
            &&& forall|k: int|
                0 <= k < s.runs.len() && #[trigger] s.runs[k].run.thread_id is None
                    && (agent matches Some(a) ==> s.runs[k].run.agent_id == a)
                    && (status matches Some(st) ==> s.runs[k].run.status == st)
                    && requested_members_held(creation_metadata(s.runs[k]), metadata)
                    ==> all.contains(s.runs[k].stateless())
        }),
{
    law_run_search_filters(s, agent, status, metadata);
    let all = s.stateless_search(agent, status, metadata);
    assert forall|i: int| #![trigger all[i]] 0 <= i < all.len() implies exists|k: int|
        0 <= k < s.runs.len() && #[trigger] s.runs[k].stateless() == all[i]
            && s.runs[k].run.thread_id is None
            && (agent matches Some(a) ==> s.runs[k].run.agent_id == a)
            && (status matches Some(st) ==> s.runs[k].run.status == st)
            && requested_members_held(creation_metadata(s.runs[k]), metadata) by {
        let k = choose|k: int|
            0 <= k < s.runs.len() && crate::runs::stateless_match(agent, status, metadata, #[trigger] s.runs[k])
                && s.runs[k].stateless() == all[i];
        assert(s.runs[k].run.thread_id is None);
    }
    assert forall|k: int|
        0 <= k < s.runs.len() && #[trigger] s.runs[k].run.thread_id is None
            && (agent matches Some(a) ==> s.runs[k].run.agent_id == a)
            && (status matches Some(st) ==> s.runs[k].run.status == st)
            && requested_members_held(creation_metadata(s.runs[k]), metadata)
            implies all.contains(s.runs[k].stateless()) by {
        assert(crate::runs::stateless_match(agent, status, metadata, s.runs[k]));
    }
}

/// The metadata a stateless run was created with (an empty object where it
/// was created with none).
pub open spec fn creation_metadata(r: RunDataV) -> JsonV {
    match r.creation_stateless {
        Some(c) => match c.base.metadata {
            Some(m) => m,
            None => JsonV::Object(Seq::empty()),
        },
        None => JsonV::Object(Seq::empty()),
    }
}

/// `md` holds each member of the requested metadata object (anything does
/// where none, or no object, is requested).
pub open spec fn requested_members_held(md: JsonV, metadata: Option<JsonV>) -> bool {
    match metadata {
        Some(JsonV::Object(w)) => forall|i: int| 0 <= i < w.len() ==> md.field(#[trigger] w[i].0) == Some(w[i].1),
        _ => true,
    }
}

/// The runs listed for a thread are exactly its own: each comes from a
/// stored run whose thread is the thread's run key, and each such stored
/// run is listed, as many as there are and in stored order.
pub proof fn law_thread_runs_are_its_own(s: StoreV, key: u128)
    ensures
        ({
            let all = s.thread_runs(key);
            &&& forall|i: int| #![trigger all[i]] 0 <= i < all.len() ==> exists|k: int|
                0 <= k < s.runs.len() && s.runs[k].run.thread_id == Some(key)
                    && #[trigger] s.runs[k].stateful() == all[i]
            &&& forall|k: int| 0 <= k < s.runs.len() && #[trigger] s.runs[k].run.thread_id == Some(key)
                ==> all.contains(s.runs[k].stateful())
            &&& all.len() == s.runs.filter(|r: RunDataV| r.run.thread_id == Some(key)).len()
        }),
{
    let pred = |r: RunDataV| r.run.thread_id == Some(key);
    let f = |r: RunDataV| r.stateful();
    let filtered = s.runs.filter(pred);
    let all = s.thread_runs(key);
    assert(all == filtered.map_values(f));
    assert forall|i: int| #![trigger all[i]] 0 <= i < all.len() implies exists|k: int|
        0 <= k < s.runs.len() && s.runs[k].run.thread_id == Some(key)
            && #[trigger] s.runs[k].stateful() == all[i] by {
        let y = filtered[i];
        filtered.lemma_index_contains(i);
        s.runs.lemma_filter_pred(pred, i);
        s.runs.lemma_filter_contains_rev(pred, y);
        let k = choose|k: int| 0 <= k < s.runs.len() && s.runs[k] == y;
        assert(s.runs[k].stateful() == all[i]);
    }
    assert forall|k: int| 0 <= k < s.runs.len() && #[trigger] s.runs[k].run.thread_id == Some(key)
        implies all.contains(s.runs[k].stateful()) by {
        s.runs.lemma_filter_contains(pred, k);
        let j = choose|j: int| 0 <= j < filtered.len() && filtered[j] == s.runs[k];
        assert(all[j] == s.runs[k].stateful());
    }
}

/// `filter_map` over a concatenation is the concatenation of the parts.
proof fn lemma_filter_map_concat<A, B>(a: Seq<A>, b: Seq<A>, f: spec_fn(A) -> Option<B>)
    ensures
        (a + b).filter_map(f) == a.filter_map(f) + b.filter_map(f),
    decreases b.len(),
{
    if b.len() == 0 {
        assert(a + b =~= a);
        assert(a.filter_map(f) + b.filter_map(f) =~= a.filter_map(f));
    } else {
        let c = a + b;
        assert(c.drop_last() =~= a + b.drop_last());
        assert(c.last() == b.last());
        lemma_filter_map_concat(a, b.drop_last(), f);
        match f(b.last()) {
            Some(x) => {
                assert(c.filter_map(f) == c.drop_last().filter_map(f) + seq![x]);
                assert(b.filter_map(f) == b.drop_last().filter_map(f) + seq![x]);
                assert(c.filter_map(f) =~= a.filter_map(f) + b.filter_map(f));
            },
            None => {
                assert(c.filter_map(f) == c.drop_last().filter_map(f));
                assert(b.filter_map(f) == b.drop_last().filter_map(f));
            },
        }
    }
}

/// A run input whose `messages` are `items`.
pub open spec fn messages_input(items: Seq<JsonV>) -> Option<JsonV> {
    Some(JsonV::Object(seq![("messages"@, JsonV::Array(items))]))
}

/// The messages a run input adds to its thread: every item of its
/// `messages` array with a string `role` and a `content` adds one message
/// carrying them, in order; any other item adds none; an input without a
/// `messages` array adds nothing.
pub proof fn law_input_adds_each_message(input: JsonV, a: Seq<JsonV>, b: Seq<JsonV>, m: JsonV)
    ensures
        input_thread_messages(messages_input(a + b)) == input_thread_messages(messages_input(a))
            + input_thread_messages(messages_input(b)),
        match (m.field("role"@), m.field("content"@)) {
            (Some(JsonV::Str(role)), Some(content)) => input_thread_messages(messages_input(seq![m]))
                == seq![MessageV { role, content, id: None, metadata: None }],
            _ => input_thread_messages(messages_input(seq![m])) == Seq::<MessageV>::empty(),
        },
        match input.field("messages"@) {
            Some(JsonV::Array(items)) => input_thread_messages(Some(input)) == input_thread_messages(
                messages_input(items),
            ),
            _ => input_thread_messages(Some(input)) == Seq::<MessageV>::empty(),
        },
        input_thread_messages(None) == Seq::<MessageV>::empty(),
{
    let f = |x: JsonV| crate::threads::input_thread_message(x);
    lemma_filter_map_concat(a, b, f);
    Seq::lemma_filter_map_singleton(m, f);
}

/// The text a conversation message's content gives the model.
pub open spec fn content_as_text(content: JsonV) -> Seq<char> {
    match content {
        JsonV::Str(t) => t,
        other => json_text(other),
    }
}

/// The chat messages sent for a thread's conversation: each message whose
/// role is `user`, `system` or `assistant` gives one chat message of that
/// kind with its content as text, in order; a message of any other role
/// gives none.
pub proof fn law_conversation_chat_messages(a: Seq<MessageV>, b: Seq<MessageV>, m: MessageV)
    ensures
        history_chat_messages(a + b) == history_chat_messages(a) + history_chat_messages(b),
        m.role == "user"@ ==> history_chat_messages(seq![m]) == seq![ChatMessageV::User(content_as_text(m.content))],
        m.role == "system"@ ==> history_chat_messages(seq![m]) == seq![
            ChatMessageV::System(content_as_text(m.content)),
        ],
        m.role == "assistant"@ ==> history_chat_messages(seq![m]) == seq![
            ChatMessageV::Assistant(content_as_text(m.content)),
        ],
        m.role != "user"@ && m.role != "system"@ && m.role != "assistant"@ ==> history_chat_messages(seq![m])
            == Seq::<ChatMessageV>::empty(),
{
    reveal_strlit("user");
    reveal_strlit("system");
    reveal_strlit("assistant");
    assert("system"@[0] != "user"@[0]);
    assert("assistant"@[0] != "user"@[0] && "assistant"@[0] != "system"@[0]);
    let f = |x: MessageV| crate::inference::chat_of_role(x.role, crate::inference::content_text(x.content));
    lemma_filter_map_concat(a, b, f);
    Seq::lemma_filter_map_singleton(m, f);
}

/// A patch changes only what it gives: without messages the stored
/// conversation and the thread's messages stay as they were, without values
/// the values stay; given messages or values replace them. The thread keeps
/// its id, status, creation time and checkpoint history.
pub proof fn law_patch_keeps_what_it_omits(
    s: StoreV,
    id: Seq<char>,
    metadata: Option<JsonV>,
    values: Option<JsonV>,
    messages: Option<Seq<MessageV>>,
    now: Timestamp,
)
    requires
        s.wf(),
        s.has_thread(id),
    ensures
        ({
            let (s2, r) = s.patch_thread(id, metadata, values, messages, now);
            let before = s.thread(id);
            let after = s2.thread(id);
            &&& r is Ok
            &&& s2.wf()
            &&& s2.has_thread(id)
            &&& r == Ok::<ThreadV, AcpErrorV>(after.thread)
            &&& after.history == before.history
            &&& after.thread.thread_id == before.thread.thread_id
            &&& after.thread.status == before.thread.status
            &&& after.thread.created_at == before.thread.created_at
            &&& match messages {
                None => after.messages == before.messages && after.thread.messages == before.thread.messages,
                Some(msgs) => after.messages == msgs && after.thread.messages == Some(msgs),
            }
            &&& match values {
                None => after.thread.values == before.thread.values,
                Some(v) => after.thread.values == Some(v),
            }
            &&& s2.threads.len() == s.threads.len()
        }),
{
    let p = s.thread_pos(id);
    let (s2, r) = s.patch_thread(id, metadata, values, messages, now);
    lemma_threads_update(s, p, s2.threads[p]);
    lemma_thread_pos(s2, id, p);
}

} // verus!
