//! The server's state: the agent registry, the thread store and the run
//! store, with the values that contracts speak of.

use vstd::prelude::*;
use crate::acp_types::{
    Agent, AgentACPDescriptor, AgentACPDescriptorV, AgentV, IfNotExists, Message, MessageV,
    MultitaskStrategy, OnCompletion, OnDisconnect, Run, RunCreate, RunCreateStateful,
    RunCreateStatefulV, RunCreateStateless, RunCreateStatelessV, RunCreateV, RunOutput, RunOutputV,
    RunStateful, RunStatefulV, RunStateless, RunStatelessV, RunStatus, Thread, ThreadState,
    ThreadStateV, ThreadV,
};
use crate::error::{AcpError, AcpErrorV, NOT_FOUND};
use crate::ids::{
    new_uuid_v4, new_uuid_v5, parse_uuid, utc_now, uuid_parse, uuid_v5, Timestamp,
    AGENT_NAMESPACE,
};
use crate::json::JsonV;
use crate::text::concat2;

verus! {

broadcast use vstd::std_specs::vec::group_vec_axioms;

/// The agent id that a model alias stands for: the version 5 UUID of the
/// alias (its UTF-8 bytes) in the agent namespace.
pub open spec fn alias_agent_id(alias: Seq<char>) -> u128 {
    uuid_v5(AGENT_NAMESPACE, vstd::utf8::encode_utf8(alias))
}

/// Deterministic agent ID from a model alias: a version-5, RFC 4122 UUID.
pub fn agent_id_from_alias(alias: &str) -> (r: u128)
    ensures
        r == alias_agent_id(alias@),
        (r >> 76u128) & 0xfu128 == 5,
        (r >> 62u128) & 3u128 == 2,
{
    new_uuid_v5(AGENT_NAMESPACE, alias.as_bytes())
}

/// A registered ACP agent backed by a model.
#[derive(Debug)]
pub struct AgentEntry {
    pub agent: Agent,
    pub descriptor: AgentACPDescriptor,
    pub model_alias: String,
    /// Whether the model was loaded at registration time.
    pub is_loaded: bool,
}

pub struct AgentEntryV {
    pub agent: AgentV,
    pub descriptor: AgentACPDescriptorV,
    pub model_alias: Seq<char>,
    pub is_loaded: bool,
}

impl View for AgentEntry {
    type V = AgentEntryV;

    open spec fn view(&self) -> AgentEntryV {
        AgentEntryV {
            agent: self.agent@,
            descriptor: self.descriptor@,
            model_alias: self.model_alias@,
            is_loaded: self.is_loaded,
        }
    }
}

/// A thread with the conversation it holds and its checkpoints.
#[derive(Debug)]
pub struct ThreadData {
    pub thread: Thread,
    pub messages: Vec<Message>,
    pub history: Vec<ThreadState>,
}

pub struct ThreadDataV {
    pub thread: ThreadV,
    pub messages: Seq<MessageV>,
    pub history: Seq<ThreadStateV>,
}

impl View for ThreadData {
    type V = ThreadDataV;

    open spec fn view(&self) -> ThreadDataV {
        ThreadDataV {
            thread: self.thread@,
            messages: self.messages.deep_view(),
            history: self.history.deep_view(),
        }
    }
}

/// A copy of a list of checkpoints.
pub fn copy_history(v: &Vec<ThreadState>) -> (r: Vec<ThreadState>)
    ensures
        r.deep_view() == v.deep_view(),
{
    let mut out: Vec<ThreadState> = Vec::new();
    let mut i: usize = 0;
    while i < v.len()
        invariant
            i <= v.len(),
            out@.len() == i,
            forall|j: int| 0 <= j < i ==> (#[trigger] out@[j])@ == v@[j]@,
        decreases v.len() - i,
    {
        out.push(v[i].clone());
        i = i + 1;
    }
    assert(out.deep_view() =~= v.deep_view());
    out
}

/// A run with what created it and what it produced.
#[derive(Debug)]
pub struct RunData {
    pub run: Run,
    pub creation_stateless: Option<RunCreateStateless>,
    pub creation_stateful: Option<RunCreateStateful>,
    pub output: Option<RunOutput>,
}

pub struct RunDataV {
    pub run: Run,
    pub creation_stateless: Option<RunCreateStatelessV>,
    pub creation_stateful: Option<RunCreateStatefulV>,
    pub output: Option<RunOutputV>,
}

impl View for RunData {
    type V = RunDataV;

    open spec fn view(&self) -> RunDataV {
        RunDataV {
            run: self.run,
            creation_stateless: self.creation_stateless.deep_view(),
            creation_stateful: self.creation_stateful.deep_view(),
            output: self.output.deep_view(),
        }
    }
}

/// The creation payload with every field at its default.
pub open spec fn default_run_create() -> RunCreateV {
    RunCreateV {
        agent_id: None,
        input: None,
        metadata: None,
        config: None,
        webhook: None,
        stream_mode: None,
        on_disconnect: OnDisconnect::Cancel,
        multitask_strategy: MultitaskStrategy::Reject,
        after_seconds: None,
    }
}

fn new_default_run_create() -> (r: RunCreate)
    ensures
        r@ == default_run_create(),
{
    RunCreate {
        agent_id: None,
        input: None,
        metadata: None,
        config: None,
        webhook: None,
        stream_mode: None,
        on_disconnect: OnDisconnect::Cancel,
        multitask_strategy: MultitaskStrategy::Reject,
        after_seconds: None,
    }
}

impl RunDataV {
    /// The run as a stateless run: its creation payload, or the defaults
    /// where it has none.
    pub open spec fn stateless(self) -> RunStatelessV {
        RunStatelessV {
            run: self.run,
            creation: match self.creation_stateless {
                Some(c) => c,
                None => RunCreateStatelessV {
                    base: default_run_create(),
                    on_completion: OnCompletion::Delete,
                },
            },
        }
    }

    /// The run as a thread run: its creation payload, or the defaults
    /// where it has none.
    pub open spec fn stateful(self) -> RunStatefulV {
        RunStatefulV {
            run: self.run,
            creation: match self.creation_stateful {
                Some(c) => c,
                None => RunCreateStatefulV {
                    base: default_run_create(),
                    stream_subgraphs: false,
                    if_not_exists: IfNotExists::Reject,
                },
            },
        }
    }
}

impl RunData {
    pub fn to_stateless(&self) -> (r: RunStateless)
        ensures
            r@ == self@.stateless(),
    {
        let creation = match &self.creation_stateless {
            Some(c) => c.clone(),
            None => RunCreateStateless {
                base: new_default_run_create(),
                on_completion: OnCompletion::Delete,
            },
        };
        RunStateless { run: self.run, creation }
    }

    pub fn to_stateful(&self) -> (r: RunStateful)
        ensures
            r@ == self@.stateful(),
    {
        let creation = match &self.creation_stateful {
            Some(c) => c.clone(),
            None => RunCreateStateful {
                base: new_default_run_create(),
                stream_subgraphs: false,
                if_not_exists: IfNotExists::Reject,
            },
        };
        RunStateful { run: self.run, creation }
    }
}

/// Shared application state: the agents, threads and runs the server holds,
/// and its run limits.
pub struct AppState {
    pub agents: Vec<AgentEntry>,
    pub threads: Vec<ThreadData>,
    pub runs: Vec<RunData>,
    /// Maximum concurrent runs (0 = unlimited).
    pub max_runs: usize,
    /// Maximum time a single run may execute, in seconds.
    pub run_timeout_secs: u64,
}

/// The value of the server's state.
pub struct StoreV {
    pub agents: Seq<AgentEntryV>,
    pub threads: Seq<ThreadDataV>,
    pub runs: Seq<RunDataV>,
}

impl View for AppState {
    type V = StoreV;

    open spec fn view(&self) -> StoreV {
        StoreV {
            agents: Seq::new(self.agents@.len(), |i: int| self.agents@[i]@),
            threads: Seq::new(self.threads@.len(), |i: int| self.threads@[i]@),
            runs: Seq::new(self.runs@.len(), |i: int| self.runs@[i]@),
        }
    }
}

impl StoreV {
    /// No two agents, threads or runs share an id.
    pub open spec fn wf(self) -> bool {
        &&& forall|i: int, j: int|
            0 <= i < j < self.agents.len() ==> self.agents[i].agent.agent_id
                != self.agents[j].agent.agent_id
        &&& forall|i: int, j: int|
            0 <= i < j < self.threads.len() ==> self.threads[i].thread.thread_id
                != self.threads[j].thread.thread_id
        &&& forall|i: int, j: int|
            0 <= i < j < self.runs.len() ==> self.runs[i].run.run_id != self.runs[j].run.run_id
    }

    pub open spec fn has_agent(self, id: u128) -> bool {
        exists|i: int| 0 <= i < self.agents.len() && self.agents[i].agent.agent_id == id
    }

    pub open spec fn agent_pos(self, id: u128) -> int {
        choose|i: int| 0 <= i < self.agents.len() && self.agents[i].agent.agent_id == id
    }

    /// The registered agent `id`.
    pub open spec fn agent(self, id: u128) -> AgentEntryV {
        self.agents[self.agent_pos(id)]
    }

    pub open spec fn has_thread(self, id: Seq<char>) -> bool {
        exists|i: int| 0 <= i < self.threads.len() && self.threads[i].thread.thread_id == id
    }

    pub open spec fn thread_pos(self, id: Seq<char>) -> int {
        choose|i: int| 0 <= i < self.threads.len() && self.threads[i].thread.thread_id == id
    }

    /// The stored thread `id`.
    pub open spec fn thread(self, id: Seq<char>) -> ThreadDataV {
        self.threads[self.thread_pos(id)]
    }

    pub open spec fn has_run(self, id: u128) -> bool {
        exists|i: int| 0 <= i < self.runs.len() && self.runs[i].run.run_id == id
    }

    pub open spec fn run_pos(self, id: u128) -> int {
        choose|i: int| 0 <= i < self.runs.len() && self.runs[i].run.run_id == id
    }

    /// The stored run `id`.
    pub open spec fn run(self, id: u128) -> RunDataV {
        self.runs[self.run_pos(id)]
    }

    /// The state with `t` stored under its id: in place of the thread with
    /// that id, or last.
    pub open spec fn put_thread(self, t: ThreadDataV) -> StoreV {
        if self.has_thread(t.thread.thread_id) {
            StoreV { threads: self.threads.update(self.thread_pos(t.thread.thread_id), t), ..self }
        } else {
            StoreV { threads: self.threads.push(t), ..self }
        }
    }

    /// The state with `r` stored under its id: in place of the run with
    /// that id, or last.
    pub open spec fn put_run(self, r: RunDataV) -> StoreV {
        if self.has_run(r.run.run_id) {
            StoreV { runs: self.runs.update(self.run_pos(r.run.run_id), r), ..self }
        } else {
            StoreV { runs: self.runs.push(r), ..self }
        }
    }

    /// The state with `a` registered under its id: in place of the agent with
    /// that id, or last.
    pub open spec fn put_agent(self, a: AgentEntryV) -> StoreV {
        if self.has_agent(a.agent.agent_id) {
            StoreV { agents: self.agents.update(self.agent_pos(a.agent.agent_id), a), ..self }
        } else {
            StoreV { agents: self.agents.push(a), ..self }
        }
    }

    /// The agent that a run request names: by its UUID if that is a registered
    /// agent, else by the model alias; the first agent where it names none.
    pub open spec fn resolve_agent(self, name: Option<Seq<char>>) -> Result<u128, AcpErrorV> {
        match name {
            Some(t) => {
                if uuid_parse(t) is Some && self.has_agent(uuid_parse(t)->0) {
                    Ok(uuid_parse(t)->0)
                } else if self.has_agent(alias_agent_id(t)) {
                    Ok(alias_agent_id(t))
                } else {
                    Err(AcpErrorV { status: NOT_FOUND, message: "Agent not found: "@ + t })
                }
            },
            None => {
                if self.agents.len() > 0 {
                    Ok(self.agents[0].agent.agent_id)
                } else {
                    Err(AcpErrorV { status: NOT_FOUND, message: "No agents available"@ })
                }
            },
        }
    }
}

/// A fresh pending run.
pub open spec fn new_run_data(run_id: u128, agent_id: u128, thread_id: Option<u128>, now: Timestamp) -> RunDataV {
    RunDataV {
        run: Run {
            run_id,
            thread_id,
            agent_id,
            created_at: now,
            updated_at: now,
            status: RunStatus::Pending,
        },
        creation_stateless: None,
        creation_stateful: None,
        output: None,
    }
}

impl AppState {
    /// An empty state with the given limits.
    pub fn new(max_runs: usize, run_timeout_secs: u64) -> (r: Self)
        ensures
            r@.agents.len() == 0,
            r@.threads.len() == 0,
            r@.runs.len() == 0,
            r@.wf(),
            r.max_runs == max_runs,
            r.run_timeout_secs == run_timeout_secs,
    {
        AppState { agents: Vec::new(), threads: Vec::new(), runs: Vec::new(), max_runs, run_timeout_secs }
    }

    /// The number of registered agents.
    pub fn agent_count(&self) -> (r: usize)
        ensures
            r == self@.agents.len(),
    {
        self.agents.len()
    }

    /// The number of stored threads.
    pub fn thread_count(&self) -> (r: usize)
        ensures
            r == self@.threads.len(),
    {
        self.threads.len()
    }

    /// The number of stored runs.
    pub fn run_count(&self) -> (r: usize)
        ensures
            r == self@.runs.len(),
    {
        self.runs.len()
    }

    /// The registered agents, in registration order.
    pub fn agent_entries(&self) -> (r: &Vec<AgentEntry>)
        ensures
            r@.len() == self@.agents.len(),
            forall|i: int| 0 <= i < r@.len() ==> #[trigger] r@[i]@ == self@.agents[i],
    {
        &self.agents
    }

    /// The position of agent `id` in the registry.
    pub fn find_agent(&self, id: u128) -> (r: Option<usize>)
        requires
            self@.wf(),
        ensures
            match r {
                Some(i) => i < self@.agents.len() && i == self@.agent_pos(id) && self@.has_agent(id),
                None => !self@.has_agent(id),
            },
    {
        let mut i: usize = 0;
        while i < self.agents.len()
            invariant
                i <= self.agents.len(),
                self@.wf(),
                forall|k: int| 0 <= k < i ==> self@.agents[k].agent.agent_id != id,
            decreases self.agents.len() - i,
        {
            if self.agents[i].agent.agent_id == id {
                assert(self@.agents[i as int].agent.agent_id == id);
                proof {
                    let j = self@.agent_pos(id);
                    assert(self@.has_agent(id));
                    assert(self@.agents[j].agent.agent_id == id);
                    if j < i {
                        assert(self@.agents[j].agent.agent_id != self@.agents[i as int].agent.agent_id);
                    } else if j > i {
                        assert(self@.agents[i as int].agent.agent_id != self@.agents[j].agent.agent_id);
                    }
                }
                return Some(i);
            }
            i = i + 1;
        }
        None
    }

    /// The position of thread `id` in the store.
    pub fn find_thread(&self, id: &str) -> (r: Option<usize>)
        requires
            self@.wf(),
        ensures
            match r {
                Some(i) => i < self@.threads.len() && i == self@.thread_pos(id@) && self@.has_thread(id@),
                None => !self@.has_thread(id@),
            },
    {
        let mut i: usize = 0;
        while i < self.threads.len()
            invariant
                i <= self.threads.len(),
                self@.wf(),
                forall|k: int| 0 <= k < i ==> self@.threads[k].thread.thread_id != id@,
            decreases self.threads.len() - i,
        {
            if crate::text::text_eq(self.threads[i].thread.thread_id.as_str(), id) {
                assert(self@.threads[i as int].thread.thread_id == id@);
                proof {
                    let j = self@.thread_pos(id@);
                    assert(self@.has_thread(id@));
                    assert(self@.threads[j].thread.thread_id == id@);
                    if j < i {
                        assert(self@.threads[j].thread.thread_id != self@.threads[i as int].thread.thread_id);
                    } else if j > i {
                        assert(self@.threads[i as int].thread.thread_id != self@.threads[j].thread.thread_id);
                    }
                }
                return Some(i);
            }
            i = i + 1;
        }
        None
    }

    /// The position of run `id` in the store.
    pub fn find_run(&self, id: u128) -> (r: Option<usize>)
        requires
            self@.wf(),
        ensures
            match r {
                Some(i) => i < self@.runs.len() && i == self@.run_pos(id) && self@.has_run(id),
                None => !self@.has_run(id),
            },
    {
        let mut i: usize = 0;
        while i < self.runs.len()
            invariant
                i <= self.runs.len(),
                self@.wf(),
                forall|k: int| 0 <= k < i ==> self@.runs[k].run.run_id != id,
            decreases self.runs.len() - i,
        {
            if self.runs[i].run.run_id == id {
                assert(self@.runs[i as int].run.run_id == id);
                proof {
                    let j = self@.run_pos(id);
                    assert(self@.has_run(id));
                    assert(self@.runs[j].run.run_id == id);
                    if j < i {
                        assert(self@.runs[j].run.run_id != self@.runs[i as int].run.run_id);
                    } else if j > i {
                        assert(self@.runs[i as int].run.run_id != self@.runs[j].run.run_id);
                    }
                }
                return Some(i);
            }
            i = i + 1;
        }
        None
    }

    /// Registers an agent under its id, replacing an agent with the same id.
    pub fn register_agent(&mut self, entry: AgentEntry)
        requires
            old(self)@.wf(),
        ensures
            final(self)@ == old(self)@.put_agent(entry@),
            final(self)@.wf(),
            final(self).max_runs == old(self).max_runs,
            final(self).run_timeout_secs == old(self).run_timeout_secs,
    {
        let ghost s0 = self@;
        let ghost e = entry@;
        match self.find_agent(entry.agent.agent_id) {
            Some(i) => {
                self.agents.set(i, entry);
                assert(self@.agents =~= s0.agents.update(i as int, e));
            },
            None => {
                self.agents.push(entry);
                assert(self@.agents =~= s0.agents.push(e));
            },
        }
        assert(self@.threads =~= s0.threads);
        assert(self@.runs =~= s0.runs);
    }

    /// Stores a new pending run with the given id, replacing a run with the
    /// same id.
    pub fn create_run_at(&mut self, run_id: u128, agent_id: u128, thread_id: Option<u128>, now: Timestamp)
        requires
            old(self)@.wf(),
        ensures
            final(self)@ == old(self)@.put_run(new_run_data(run_id, agent_id, thread_id, now)),
            final(self)@.wf(),
            final(self).max_runs == old(self).max_runs,
            final(self).run_timeout_secs == old(self).run_timeout_secs,
    {
        let ghost s0 = self@;
        let data = RunData {
            run: Run {
                run_id,
                thread_id,
                agent_id,
                created_at: now,
                updated_at: now,
                status: RunStatus::Pending,
            },
            creation_stateless: None,
            creation_stateful: None,
            output: None,
        };
        let ghost d = data@;
        match self.find_run(run_id) {
            Some(i) => {
                self.runs.set(i, data);
                assert(self@.runs =~= s0.runs.update(i as int, d));
            },
            None => {
                self.runs.push(data);
                assert(self@.runs =~= s0.runs.push(d));
            },
        }
        assert(self@.agents =~= s0.agents);
        assert(self@.threads =~= s0.threads);
    }

    /// Create a new run record (random id, current time) and return its ID.
    pub fn create_run(&mut self, agent_id: u128, thread_id: Option<u128>) -> (r: u128)
        requires
            old(self)@.wf(),
        ensures
            exists|now: Timestamp|
                final(self)@ == old(self)@.put_run(new_run_data(r, agent_id, thread_id, now)),
            final(self)@.wf(),
            final(self).max_runs == old(self).max_runs,
            final(self).run_timeout_secs == old(self).run_timeout_secs,
    {
        let run_id = new_uuid_v4();
        let now = utc_now();
        self.create_run_at(run_id, agent_id, thread_id, now);
        run_id
    }

    /// Resolve the agent id that a run creation payload names.
    pub fn resolve_agent_id(&self, agent_id_str: Option<&str>) -> (r: Result<u128, AcpError>)
        requires
            self@.wf(),
        ensures
            match r {
                Ok(u) => self@.resolve_agent(agent_id_str.deep_view()) == Ok::<u128, AcpErrorV>(u),
                Err(e) => self@.resolve_agent(agent_id_str.deep_view()) == Err::<u128, AcpErrorV>(e@),
            },
    {
        match agent_id_str {
            Some(id_str) => {
                if let Some(uid) = parse_uuid(id_str) {
                    if self.find_agent(uid).is_some() {
                        return Ok(uid);
                    }
                }
                let uid = agent_id_from_alias(id_str);
                if self.find_agent(uid).is_some() {
                    Ok(uid)
                } else {
                    proof {
                        reveal_strlit("Agent not found: ");
                    }
                    Err(AcpError::not_found(concat2("Agent not found: ", id_str)))
                }
            },
            None => {
                if self.agents.len() > 0 {
                    Ok(self.agents[0].agent.agent_id)
                } else {
                    proof {
                        reveal_strlit("No agents available");
                    }
                    Err(AcpError::not_found(crate::text::text_string("No agents available")))
                }
            },
        }
    }
}


/// In a well-formed state, the thread at a position holding `id` is the one
/// that `thread_pos` names.
pub proof fn lemma_thread_pos(s: StoreV, id: Seq<char>, i: int)
    requires
        s.wf(),
        0 <= i < s.threads.len(),
        s.threads[i].thread.thread_id == id,
    ensures
        s.has_thread(id),
        s.thread_pos(id) == i,
{
    assert(s.has_thread(id));
    let j = s.thread_pos(id);
    if j < i {
        assert(s.threads[j].thread.thread_id != s.threads[i].thread.thread_id);
    } else if j > i {
        assert(s.threads[i].thread.thread_id != s.threads[j].thread.thread_id);
    }
}

/// In a well-formed state, the run at a position holding `id` is the one
/// that `run_pos` names.
pub proof fn lemma_run_pos(s: StoreV, id: u128, i: int)
    requires
        s.wf(),
        0 <= i < s.runs.len(),
        s.runs[i].run.run_id == id,
    ensures
        s.has_run(id),
        s.run_pos(id) == i,
{
    assert(s.has_run(id));
    let j = s.run_pos(id);
    if j < i {
        assert(s.runs[j].run.run_id != s.runs[i].run.run_id);
    } else if j > i {
        assert(s.runs[i].run.run_id != s.runs[j].run.run_id);
    }
}

impl AppState {
    /// Replaces the run at position `i`.
    pub(crate) fn set_run(&mut self, i: usize, rd: RunData)
        requires
            i < old(self)@.runs.len(),
        ensures
            final(self)@ == (StoreV { runs: old(self)@.runs.update(i as int, rd@), ..old(self)@ }),
            final(self).max_runs == old(self).max_runs,
            final(self).run_timeout_secs == old(self).run_timeout_secs,
    {
        let ghost s0 = self@;
        let ghost rv = rd@;
        self.runs.set(i, rd);
        assert(self@.runs =~= s0.runs.update(i as int, rv));
        assert(self@.agents =~= s0.agents);
        assert(self@.threads =~= s0.threads);
    }

    /// Takes the run at position `i` out for change, leaving a placeholder.
    pub(crate) fn take_run(&mut self, i: usize) -> (r: RunData)
        requires
            i < old(self)@.runs.len(),
        ensures
            r@ == old(self)@.runs[i as int],
            final(self)@.runs.len() == old(self)@.runs.len(),
            forall|j: int|
                0 <= j < old(self)@.runs.len() && j != i ==> final(self)@.runs[j] == old(self)@.runs[j],
            final(self)@.agents == old(self)@.agents,
            final(self)@.threads == old(self)@.threads,
            final(self).max_runs == old(self).max_runs,
            final(self).run_timeout_secs == old(self).run_timeout_secs,
    {
        let ghost s0 = self@;
        let placeholder = RunData {
            run: Run {
                run_id: 0,
                thread_id: None,
                agent_id: 0,
                created_at: Timestamp { secs: 0, nanos: 0 },
                updated_at: Timestamp { secs: 0, nanos: 0 },
                status: RunStatus::Pending,
            },
            creation_stateless: None,
            creation_stateful: None,
            output: None,
        };
        let ghost pv = placeholder@;
        let rd = self.runs.remove(i);
        self.runs.insert(i, placeholder);
        assert(self@.runs =~= s0.runs.update(i as int, pv));
        assert(self@.agents =~= s0.agents);
        assert(self@.threads =~= s0.threads);
        rd
    }
}

} // verus!
