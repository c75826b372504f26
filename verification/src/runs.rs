//! Runs: creation, lookup, waiting, search, cancellation, deletion, and how
//! a finished run is recorded.

use vstd::prelude::*;
use crate::acp_types::{
    CancelAction, Message, MessageV, RunCreateStateless, RunCreateStatelessV, RunOutput, RunOutputV, RunSearchRequest,
    RunStateful, RunStatefulV, RunStateless, RunStatelessV, RunStatus, RunWaitResponseStateful,
    RunWaitResponseStateless, ValueRunResultUpdate, ValueRunResultUpdateV,
};
use crate::error::{AcpError, AcpErrorV, NOT_FOUND, UNPROCESSABLE_ENTITY};
use crate::ids::{new_uuid_v4, utc_now, uuid_string, uuid_text, Timestamp};
use crate::json::{
    copy_json, empty_object, holds_members, json_str, lemma_json_members_view, lemma_json_seq_view, members_held,
    object2, JsonV, JsonValue,
};
use crate::threads::{message_json, message_to_json};
use crate::paging::{page, paginate};
use crate::state::{new_run_data, AppState, RunData, RunDataV, StoreV};
use crate::text::{concat2, decimal_string, decimal_text, text_string};

verus! {

broadcast use vstd::std_specs::vec::group_vec_axioms;

// ── The model ────────────────────────────────────────────────────────────────

/// The answer to a request for a run that is not stored.
pub open spec fn run_not_found(id: u128) -> AcpErrorV {
    AcpErrorV { status: NOT_FOUND, message: "Run not found: "@ + uuid_text(id) }
}

/// The error code a cancelled run reports.
pub const CANCELLED_ERRCODE: i64 = 499;

/// The error code a run that failed reports.
pub const FAILED_ERRCODE: i64 = 500;

/// The error code a run that ran out of time reports.
pub const TIMEOUT_ERRCODE: i64 = 408;

/// The metadata a run was created with: an empty object where it was
/// created with none.
pub open spec fn run_metadata(r: RunDataV) -> JsonV {
    match r.creation_stateless {
        Some(c) => match c.base.metadata {
            Some(m) => m,
            None => JsonV::Object(Seq::empty()),
        },
        None => JsonV::Object(Seq::empty()),
    }
}

/// The runs that a stateless run search keeps: runs of no thread, of the
/// requested agent and status, whose creation metadata holds every member of
/// the requested metadata (each where requested).
pub open spec fn stateless_match(
    agent: Option<u128>,
    status: Option<RunStatus>,
    metadata: Option<JsonV>,
    r: RunDataV,
) -> bool {
    &&& r.run.thread_id is None
    &&& match agent {
        Some(a) => r.run.agent_id == a,
        None => true,
    }
    &&& match status {
        Some(st) => r.run.status == st,
        None => true,
    }
    &&& match metadata {
        Some(want) => holds_members(run_metadata(r), want),
        None => true,
    }
}

/// The assistant message carrying `text`.
pub open spec fn assistant_message(text: Seq<char>) -> MessageV {
    MessageV { role: "assistant"@, content: JsonV::Str(text), id: None, metadata: None }
}

/// The output of a run that completed with `text` and token `usage`.
pub open spec fn success_output(text: Seq<char>, usage: JsonV) -> RunOutputV {
    RunOutputV::Result {
        values: Some(JsonV::Object(seq![("text"@, JsonV::Str(text)), ("usage"@, usage)])),
        messages: Some(seq![assistant_message(text)]),
    }
}

/// The output of a streamed run that completed with `text`.
pub open spec fn streamed_output(text: Seq<char>) -> RunOutputV {
    RunOutputV::Result {
        values: Some(JsonV::Object(seq![("text"@, JsonV::Str(text))])),
        messages: Some(seq![assistant_message(text)]),
    }
}

/// The output of a run that failed with `description`.
pub open spec fn failed_output(run_id: u128, errcode: i64, description: Seq<char>) -> RunOutputV {
    RunOutputV::Error { run_id, errcode, description }
}

/// What a run that ran out of time after `secs` seconds reports.
pub open spec fn timeout_text(secs: u64) -> Seq<char> {
    "Run timed out after "@ + decimal_text(secs as nat) + " seconds"@
}

/// A `values` streaming update carrying the assistant's `text` so far: its
/// values hold `messages`, a list of the one assistant message.
pub open spec fn text_update(run_id: u128, status: RunStatus, text: Seq<char>) -> ValueRunResultUpdateV {
    ValueRunResultUpdateV {
        update_type: "values"@,
        run_id,
        status,
        values: JsonV::Object(seq![("messages"@, JsonV::Array(seq![message_json(assistant_message(text))]))]),
        messages: None,
    }
}

impl StoreV {
    /// Creating a stateless run: the agent is resolved, then a pending run is
    /// stored with its creation payload.
    pub open spec fn create_stateless_run(
        self,
        agent_name: Option<Seq<char>>,
        creation: RunCreateStatelessV,
        run_id: u128,
        now: Timestamp,
    ) -> (StoreV, Result<RunStatelessV, AcpErrorV>) {
        match self.resolve_agent(agent_name) {
            Err(e) => (self, Err(e)),
            Ok(agent_id) => {
                let rd = RunDataV {
                    creation_stateless: Some(creation),
                    ..new_run_data(run_id, agent_id, None, now)
                };
                (self.put_run(rd), Ok(rd.stateless()))
            },
        }
    }

    /// The stored run `id` as a stateless run.
    pub open spec fn get_run_stateless(self, id: u128) -> Result<RunStatelessV, AcpErrorV> {
        if self.has_run(id) {
            Ok(self.run(id).stateless())
        } else {
            Err(run_not_found(id))
        }
    }

    /// The stored run `id` as a thread run.
    pub open spec fn get_run_stateful(self, id: u128) -> Result<RunStatefulV, AcpErrorV> {
        if self.has_run(id) {
            Ok(self.run(id).stateful())
        } else {
            Err(run_not_found(id))
        }
    }

    /// The runs a stateless search finds, in store order, before paging.
    pub open spec fn stateless_search(
        self,
        agent: Option<u128>,
        status: Option<RunStatus>,
        metadata: Option<JsonV>,
    ) -> Seq<RunStatelessV> {
        self.runs.filter(|r: RunDataV| stateless_match(agent, status, metadata, r)).map_values(
            |r: RunDataV| r.stateless(),
        )
    }

    /// Deleting run `id`.
    pub open spec fn delete_run(self, id: u128) -> (StoreV, Result<(), AcpErrorV>) {
        if self.has_run(id) {
            (StoreV { runs: self.runs.remove(self.run_pos(id)), ..self }, Ok(()))
        } else {
            (self, Err(run_not_found(id)))
        }
    }

    /// Run `id` is stored and still pending.
    pub open spec fn run_pending(self, id: u128) -> bool {
        self.has_run(id) && self.run(id).run.status == RunStatus::Pending
    }

    /// The state with run `id` changed to `status` and `output` at time `now`
    /// where it is still pending; unchanged where no such run is stored or it
    /// has already ended (a cancelled run stays cancelled).
    pub open spec fn settle_run(self, id: u128, status: RunStatus, output: RunOutputV, now: Timestamp) -> StoreV {
        if self.run_pending(id) {
            let rd = self.run(id);
            let nrd = RunDataV {
                run: crate::acp_types::Run { status, updated_at: now, ..rd.run },
                output: Some(output),
                ..rd
            };
            StoreV { runs: self.runs.update(self.run_pos(id), nrd), ..self }
        } else {
            self
        }
    }

    /// Cancelling run `id`: a pending run becomes an error with code 499; a
    /// run that is no longer pending stays as it is.
    pub open spec fn cancel_run(self, id: u128, description: Seq<char>, now: Timestamp) -> (StoreV, Result<(), AcpErrorV>) {
        if !self.has_run(id) {
            (self, Err(run_not_found(id)))
        } else if self.run(id).run.status == RunStatus::Pending {
            (
                self.settle_run(id, RunStatus::Error, failed_output(id, CANCELLED_ERRCODE, description), now),
                Ok(()),
            )
        } else {
            (self, Ok(()))
        }
    }

    /// Waiting on run `id`: nothing yet while it is pending, else the run and
    /// its output.
    pub open spec fn wait_stateless(self, id: u128) -> Result<Option<(RunStatelessV, Option<RunOutputV>)>, AcpErrorV> {
        if !self.has_run(id) {
            Err(run_not_found(id))
        } else if self.run(id).run.status == RunStatus::Pending {
            Ok(None)
        } else {
            Ok(Some((self.run(id).stateless(), self.run(id).output)))
        }
    }

    /// Waiting on thread run `id`: nothing yet while it is pending, else the
    /// run and its output.
    pub open spec fn wait_stateful(self, id: u128) -> Result<Option<(RunStatefulV, Option<RunOutputV>)>, AcpErrorV> {
        if !self.has_run(id) {
            Err(run_not_found(id))
        } else if self.run(id).run.status == RunStatus::Pending {
            Ok(None)
        } else {
            Ok(Some((self.run(id).stateful(), self.run(id).output)))
        }
    }
}

// ── Helpers ──────────────────────────────────────────────────────────────────

fn run_not_found_error(id: u128) -> (r: AcpError)
    ensures
        r@ == run_not_found(id),
{
    proof {
        reveal_strlit("Run not found: ");
    }
    let t = uuid_string(id);
    AcpError::not_found(concat2("Run not found: ", t.as_str()))
}

/// The assistant message carrying `text`.
pub fn new_assistant_message(text: &str) -> (r: Message)
    ensures
        r@ == assistant_message(text@),
{
    proof {
        reveal_strlit("assistant");
    }
    Message { role: text_string("assistant"), content: json_str(text), id: None, metadata: None }
}

/// The output of a run that completed with `text` and token `usage`.
pub fn new_success_output(text: &str, usage: JsonValue) -> (r: RunOutput)
    ensures
        r@ == success_output(text@, usage@),
{
    proof {
        reveal_strlit("text");
        reveal_strlit("usage");
    }
    let values = object2("text", json_str(text), "usage", usage);
    let mut messages: Vec<Message> = Vec::new();
    messages.push(new_assistant_message(text));
    let r = RunOutput::Result { values: Some(values), messages: Some(messages) };
    assert(r@->Result_messages->0 =~= seq![assistant_message(text@)]);
    r
}

/// The output of a streamed run that completed with `text`.
pub fn new_streamed_output(text: &str) -> (r: RunOutput)
    ensures
        r@ == streamed_output(text@),
{
    proof {
        reveal_strlit("text");
    }
    let values = crate::json::object1("text", json_str(text));
    let mut messages: Vec<Message> = Vec::new();
    messages.push(new_assistant_message(text));
    let r = RunOutput::Result { values: Some(values), messages: Some(messages) };
    assert(r@->Result_messages->0 =~= seq![assistant_message(text@)]);
    r
}

/// A `values` streaming update carrying the assistant's `text` so far.
pub fn new_text_update(run_id: u128, status: RunStatus, text: &str) -> (r: ValueRunResultUpdate)
    ensures
        r@ == text_update(run_id, status, text@),
{
    broadcast use lemma_json_seq_view;

    proof {
        reveal_strlit("values");
        reveal_strlit("messages");
    }
    let mut list: Vec<JsonValue> = Vec::new();
    list.push(message_to_json(&new_assistant_message(text)));
    let ghost lv = list@;
    let arr = JsonValue::Array(list);
    assert(arr@ == JsonV::Array(crate::json::json_seq_view(lv)));
    assert(arr@->Array_0 =~= seq![message_json(assistant_message(text@))]);
    ValueRunResultUpdate {
        update_type: text_string("values"),
        run_id,
        status,
        values: crate::json::object1("messages", arr),
        messages: None,
    }
}

/// What a run that ran out of time after `secs` seconds reports.
pub fn timeout_message(secs: u64) -> (r: String)
    ensures
        r@ == timeout_text(secs),
{
    proof {
        reveal_strlit("Run timed out after ");
        reveal_strlit(" seconds");
    }
    let mut s = text_string("Run timed out after ");
    let d = decimal_string(secs);
    s.append(d.as_str());
    s.append(" seconds");
    s
}

// ── Operations ───────────────────────────────────────────────────────────────

impl AppState {
    /// Creates a stateless run `run_id` at time `now` (see
    /// `StoreV::create_stateless_run`).
    pub fn create_stateless_run_at(&mut self, req: RunCreateStateless, run_id: u128, now: Timestamp) -> (r: Result<RunStateless, AcpError>)
        requires
            old(self)@.wf(),
        ensures
            (final(self)@, crate::error::result_view(r)) == old(self)@.create_stateless_run(
                req.base.agent_id.deep_view(),
                req@,
                run_id,
                now,
            ),
            final(self)@.wf(),
            final(self).max_runs == old(self).max_runs,
            final(self).run_timeout_secs == old(self).run_timeout_secs,
    {
        let ghost s0 = self@;
        let ghost creation = req@;
        let agent_name: Option<&str> = match &req.base.agent_id {
            Some(a) => Some(a.as_str()),
            None => None,
        };
        assert(agent_name.deep_view() == req.base.agent_id.deep_view());
        let agent_id = match self.resolve_agent_id(agent_name) {
            Ok(a) => a,
            Err(e) => {
                return Err(e);
            },
        };
        self.create_run_at(run_id, agent_id, None, now);
        let ghost s3 = self@;
        let j = match self.find_run(run_id) {
            Some(j) => j,
            None => {
                proof {
                    assert(s3.has_run(run_id)) by {
                        if s0.has_run(run_id) {
                            let p = s0.run_pos(run_id);
                            assert(s3.runs[p].run.run_id == run_id);
                        } else {
                            assert(s3.runs[s0.runs.len() as int].run.run_id == run_id);
                        }
                    }
                }
                return Err(AcpError::internal(String::new()));
            },
        };
        let mut rd = self.take_run(j);
        rd.creation_stateless = Some(req);
        let result = rd.to_stateless();
        self.set_run(j, rd);
        proof {
            let exp = RunDataV {
                creation_stateless: Some(creation),
                ..new_run_data(run_id, agent_id, None, now)
            };
            if s0.has_run(run_id) {
                let p = s0.run_pos(run_id);
                crate::state::lemma_run_pos(s3, run_id, p);
                assert(self@.runs =~= s0.runs.update(p, exp));
            } else {
                crate::state::lemma_run_pos(s3, run_id, s0.runs.len() as int);
                assert(self@.runs =~= s0.runs.push(exp));
            }
        }
        Ok(result)
    }

    /// POST /runs: creates a stateless run with a new random id at the
    /// current time.
    pub fn create_stateless_run(&mut self, req: RunCreateStateless) -> (r: Result<RunStateless, AcpError>)
        requires
            old(self)@.wf(),
        ensures
            exists|run_id: u128, now: Timestamp|
                (final(self)@, crate::error::result_view(r)) == old(self)@.create_stateless_run(
                    req.base.agent_id.deep_view(),
                    req@,
                    run_id,
                    now,
                ),
            final(self)@.wf(),
            final(self).max_runs == old(self).max_runs,
            final(self).run_timeout_secs == old(self).run_timeout_secs,
    {
        let run_id = new_uuid_v4();
        let now = utc_now();
        self.create_stateless_run_at(req, run_id, now)
    }

    /// GET /runs/:run_id
    pub fn get_stateless_run(&self, run_id: u128) -> (r: Result<RunStateless, AcpError>)
        requires
            self@.wf(),
        ensures
            crate::error::result_view(r) == self@.get_run_stateless(run_id),
    {
        match self.find_run(run_id) {
            Some(j) => Ok(self.runs[j].to_stateless()),
            None => Err(run_not_found_error(run_id)),
        }
    }

    /// GET /threads/:thread_id/runs/:run_id
    pub fn get_thread_run(&self, run_id: u128) -> (r: Result<RunStateful, AcpError>)
        requires
            self@.wf(),
        ensures
            crate::error::result_view(r) == self@.get_run_stateful(run_id),
    {
        match self.find_run(run_id) {
            Some(j) => Ok(self.runs[j].to_stateful()),
            None => Err(run_not_found_error(run_id)),
        }
    }

    /// One look at a stateless run that is being waited on: `None` while it is
    /// pending, else the response.
    pub fn wait_stateless_run(&self, run_id: u128) -> (r: Result<Option<RunWaitResponseStateless>, AcpError>)
        requires
            self@.wf(),
        ensures
            match r {
                Ok(None) => self@.wait_stateless(run_id) == Ok::<_, AcpErrorV>(None::<(RunStatelessV, Option<RunOutputV>)>),
                Ok(Some(w)) => w.run is Some && self@.wait_stateless(run_id) == Ok::<_, AcpErrorV>(
                    Some((w.run->0@, w.output.deep_view())),
                ),
                Err(e) => self@.wait_stateless(run_id) == Err::<Option<(RunStatelessV, Option<RunOutputV>)>, AcpErrorV>(e@),
            },
    {
        match self.find_run(run_id) {
            None => Err(run_not_found_error(run_id)),
            Some(j) => {
                if self.runs[j].run.status == RunStatus::Pending {
                    Ok(None)
                } else {
                    let output = match &self.runs[j].output {
                        Some(o) => Some(o.clone()),
                        None => None,
                    };
                    Ok(Some(RunWaitResponseStateless { run: Some(self.runs[j].to_stateless()), output }))
                }
            },
        }
    }

    /// One look at a thread run that is being waited on: `None` while it is
    /// pending, else the response.
    pub fn wait_thread_run(&self, run_id: u128) -> (r: Result<Option<RunWaitResponseStateful>, AcpError>)
        requires
            self@.wf(),
        ensures
            match r {
                Ok(None) => self@.wait_stateful(run_id) == Ok::<_, AcpErrorV>(None::<(RunStatefulV, Option<RunOutputV>)>),
                Ok(Some(w)) => w.run is Some && self@.wait_stateful(run_id) == Ok::<_, AcpErrorV>(
                    Some((w.run->0@, w.output.deep_view())),
                ),
                Err(e) => self@.wait_stateful(run_id) == Err::<Option<(RunStatefulV, Option<RunOutputV>)>, AcpErrorV>(e@),
            },
    {
        match self.find_run(run_id) {
            None => Err(run_not_found_error(run_id)),
            Some(j) => {
                if self.runs[j].run.status == RunStatus::Pending {
                    Ok(None)
                } else {
                    let output = match &self.runs[j].output {
                        Some(o) => Some(o.clone()),
                        None => None,
                    };
                    Ok(Some(RunWaitResponseStateful { run: Some(self.runs[j].to_stateful()), output }))
                }
            },
        }
    }

    /// POST /runs/search: runs of no thread, filtered by agent, status and
    /// creation metadata, paged.
    pub fn search_stateless_runs(&self, req: &RunSearchRequest) -> (r: Vec<RunStateless>)
        ensures
            r.deep_view() == page(
                self@.stateless_search(req.agent_id, req.status, req.metadata.deep_view()),
                req.offset as int,
                req.limit as int,
            ),
    {
        let ghost q = |r: RunDataV| stateless_match(req.agent_id, req.status, req.metadata.deep_view(), r);
        let ghost f = |r: RunDataV| r.stateless();
        let mut out: Vec<RunStateless> = Vec::new();
        let mut i: usize = 0;
        while i < self.runs.len()
            invariant
                i <= self.runs.len(),
                q == (|r: RunDataV| stateless_match(req.agent_id, req.status, req.metadata.deep_view(), r)),
                f == (|r: RunDataV| r.stateless()),
                out.deep_view() == self@.runs.take(i as int).filter(q).map_values(f),
            decreases self.runs.len() - i,
        {
            proof {
                assert(self@.runs.take(i + 1).drop_last() =~= self@.runs.take(i as int));
                reveal_with_fuel(Seq::<_>::filter, 1);
            }
            let ghost before = self@.runs.take(i as int).filter(q);
            let ghost before_out = out.deep_view();
            let run = self.runs[i].run;
            let keep = run.thread_id.is_none() && match req.agent_id {
                Some(a) => run.agent_id == a,
                None => true,
            } && match req.status {
                Some(st) => run.status == st,
                None => true,
            } && match &req.metadata {
                Some(want) => {
                    let none = empty_object();
                    let md = match &self.runs[i].creation_stateless {
                        Some(c) => match &c.base.metadata {
                            Some(m) => m,
                            None => &none,
                        },
                        None => &none,
                    };
                    members_held(md, want)
                },
                None => true,
            };
            if keep {
                out.push(self.runs[i].to_stateless());
                assert(out.deep_view() =~= before_out.push(f(self@.runs[i as int])));
                assert(self@.runs.take(i + 1).filter(q) == before.push(self@.runs[i as int]));
                assert(out.deep_view() =~= self@.runs.take(i + 1).filter(q).map_values(f));
            } else {
                assert(self@.runs.take(i + 1).filter(q) == before);
                assert(out.deep_view() =~= self@.runs.take(i + 1).filter(q).map_values(f));
            }
            i = i + 1;
        }
        assert(self@.runs.take(self.runs.len() as int) =~= self@.runs);
        let r = paginate(out, req.offset, req.limit);
        assert(r.deep_view() =~= page(self@.stateless_search(req.agent_id, req.status, req.metadata.deep_view()), req.offset as int, req.limit as int));
        r
    }

    /// DELETE /runs/:run_id
    pub fn delete_run(&mut self, run_id: u128) -> (r: Result<(), AcpError>)
        requires
            old(self)@.wf(),
        ensures
            (final(self)@, crate::error::result_view(r)) == old(self)@.delete_run(run_id),
            final(self)@.wf(),
            final(self).max_runs == old(self).max_runs,
            final(self).run_timeout_secs == old(self).run_timeout_secs,
    {
        let ghost s0 = self@;
        match self.find_run(run_id) {
            None => Err(run_not_found_error(run_id)),
            Some(j) => {
                self.runs.remove(j);
                assert(self@.runs =~= s0.runs.remove(j as int));
                assert(self@.agents =~= s0.agents);
                assert(self@.threads =~= s0.threads);
                Ok(())
            },
        }
    }

    /// Whether run `run_id` is stored and still pending.
    pub fn is_run_pending(&self, run_id: u128) -> (r: bool)
        requires
            self@.wf(),
        ensures
            r == self@.run_pending(run_id),
    {
        match self.find_run(run_id) {
            Some(j) => self.runs[j].run.status == RunStatus::Pending,
            None => false,
        }
    }

    /// Records `status` and `output` on run `run_id` at time `now` where it
    /// is still pending; nothing happens where the run is gone or has ended.
    pub fn settle_run_at(&mut self, run_id: u128, status: RunStatus, output: RunOutput, now: Timestamp)
        requires
            old(self)@.wf(),
        ensures
            final(self)@ == old(self)@.settle_run(run_id, status, output@, now),
            final(self)@.wf(),
            final(self).max_runs == old(self).max_runs,
            final(self).run_timeout_secs == old(self).run_timeout_secs,
    {
        let ghost s0 = self@;
        match self.find_run(run_id) {
            None => {},
            Some(j) => {
                if self.runs[j].run.status == RunStatus::Pending {
                    let mut rd = self.take_run(j);
                    rd.run.status = status;
                    rd.run.updated_at = now;
                    rd.output = Some(output);
                    self.set_run(j, rd);
                    assert(self@.runs =~= s0.settle_run(run_id, status, output@, now).runs);
                }
            },
        }
    }

    /// Cancels run `run_id` at time `now` with `description` (see
    /// `StoreV::cancel_run`).
    pub fn cancel_run_at(&mut self, run_id: u128, description: &str, now: Timestamp) -> (r: Result<(), AcpError>)
        requires
            old(self)@.wf(),
        ensures
            (final(self)@, crate::error::result_view(r)) == old(self)@.cancel_run(run_id, description@, now),
            final(self)@.wf(),
            final(self).max_runs == old(self).max_runs,
            final(self).run_timeout_secs == old(self).run_timeout_secs,
    {
        match self.find_run(run_id) {
            None => Err(run_not_found_error(run_id)),
            Some(j) => {
                if self.runs[j].run.status == RunStatus::Pending {
                    let output = RunOutput::Error {
                        run_id,
                        errcode: CANCELLED_ERRCODE,
                        description: text_string(description),
                    };
                    self.settle_run_at(run_id, RunStatus::Error, output, now);
                }
                Ok(())
            },
        }
    }

    /// POST /runs/:run_id/cancel
    pub fn cancel_stateless_run(&mut self, run_id: u128) -> (r: Result<(), AcpError>)
        requires
            old(self)@.wf(),
        ensures
            exists|now: Timestamp|
                (final(self)@, crate::error::result_view(r)) == old(self)@.cancel_run(
                    run_id,
                    "Run cancelled by client"@,
                    now,
                ),
            final(self)@.wf(),
            final(self).max_runs == old(self).max_runs,
            final(self).run_timeout_secs == old(self).run_timeout_secs,
    {
        let now = utc_now();
        self.cancel_run_at(run_id, "Run cancelled by client", now)
    }

    /// POST /threads/:thread_id/runs/:run_id/cancel
    pub fn cancel_thread_run(&mut self, run_id: u128) -> (r: Result<(), AcpError>)
        requires
            old(self)@.wf(),
        ensures
            exists|now: Timestamp|
                (final(self)@, crate::error::result_view(r)) == old(self)@.cancel_run(run_id, "Run cancelled"@, now),
            final(self)@.wf(),
            final(self).max_runs == old(self).max_runs,
            final(self).run_timeout_secs == old(self).run_timeout_secs,
    {
        let now = utc_now();
        self.cancel_run_at(run_id, "Run cancelled", now)
    }
}

/// The query of a cancel request.
#[derive(Debug)]
pub struct CancelQuery {
    pub wait: bool,
    pub action: CancelAction,
}

/// The cancel action a request takes where it names none.
pub fn default_cancel_action() -> (r: CancelAction)
    ensures
        r == CancelAction::Interrupt,
{
    CancelAction::Interrupt
}

/// The answer to a resume request for a stateless run: this server supports
/// no interrupts.
pub fn resume_stateless_run() -> (r: AcpError)
    ensures
        r@ == (AcpErrorV {
            status: UNPROCESSABLE_ENTITY,
            message: "Interrupts and resume are not supported by this server"@,
        }),
{
    AcpError::validation(text_string("Interrupts and resume are not supported by this server"))
}

/// The answer to a resume request for a thread run: this server supports no
/// interrupts.
pub fn resume_thread_run() -> (r: AcpError)
    ensures
        r@ == (AcpErrorV { status: UNPROCESSABLE_ENTITY, message: "Interrupts and resume are not supported"@ }),
{
    AcpError::validation(text_string("Interrupts and resume are not supported"))
}

} // verus!
