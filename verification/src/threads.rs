//! Threads: creation, lookup, search, patching, copying, deletion, history,
//! and the thread side of a thread run.

use vstd::prelude::*;
use crate::acp_types::{
    copy_messages, IfExists, IfNotExists, Message, MessageV, RunCreateStateful, RunOutput, RunOutputV,
    RunStateful, RunStatefulV, RunStatus, Thread, ThreadCheckpoint, ThreadCreate, ThreadPatch, ThreadSearchRequest,
    ThreadState, ThreadStateV, ThreadStatus, ThreadV,
};
use crate::error::{AcpError, AcpErrorV, CONFLICT, NOT_FOUND};
use crate::ids::{
    new_uuid_v4, new_uuid_v5, parse_uuid, utc_now, uuid_parse, uuid_string, uuid_text, uuid_v5,
    Timestamp, URL_NAMESPACE,
};
use crate::json::{
    copy_json, copy_json_opt, empty_object, holds_members, json_str, lemma_json_members_view,
    lemma_json_seq_view, members_held, merge_objects, members_merge, JsonV, JsonValue,
};
use crate::paging::{page, paginate};
use crate::state::{copy_history, new_run_data, AppState, RunDataV, StoreV, ThreadData, ThreadDataV};
use crate::text::{concat2, text_string};

verus! {

broadcast use vstd::std_specs::vec::group_vec_axioms;

// ── The model ────────────────────────────────────────────────────────────────

/// The answer to a request for a thread that is not stored.
pub open spec fn thread_not_found(id: Seq<char>) -> AcpErrorV {
    AcpErrorV { status: NOT_FOUND, message: "Thread not found: "@ + id }
}

/// A new idle thread with no messages.
pub open spec fn new_thread(id: Seq<char>, metadata: JsonV, now: Timestamp) -> ThreadDataV {
    ThreadDataV {
        thread: ThreadV {
            thread_id: id,
            created_at: now,
            updated_at: now,
            metadata,
            status: ThreadStatus::Idle,
            values: None,
            messages: Some(Seq::empty()),
        },
        messages: Seq::empty(),
        history: Seq::empty(),
    }
}

/// The run key of a thread: the thread id read as a UUID, or else the
/// version 5 UUID of its text in the URL namespace.
pub open spec fn thread_key(id: Seq<char>) -> u128 {
    match uuid_parse(id) {
        Some(u) => u,
        None => uuid_v5(URL_NAMESPACE, vstd::utf8::encode_utf8(id)),
    }
}

/// A message as the protocol's JSON writes it (members in key order; absent
/// optional members left out).
pub open spec fn message_json(m: MessageV) -> JsonV {
    JsonV::Object(
        seq![("content"@, m.content)]
            + (match m.id {
                Some(i) => seq![("id"@, JsonV::Str(i))],
                None => Seq::empty(),
            })
            + (match m.metadata {
                Some(x) => seq![("metadata"@, x)],
                None => Seq::empty(),
            })
            + seq![("role"@, JsonV::Str(m.role))],
    )
}

/// The checkpoint recorded after a thread run.
pub open spec fn checkpoint_of(messages: Seq<MessageV>, checkpoint_id: u128) -> ThreadStateV {
    ThreadStateV {
        checkpoint: ThreadCheckpoint { checkpoint_id },
        values: JsonV::Object(
            seq![("messages"@, JsonV::Array(messages.map_values(|m: MessageV| message_json(m))))],
        ),
        messages: Some(messages),
        metadata: None,
    }
}

/// The messages that a run input adds to a thread: each item of its
/// `messages` array with a string `role` and a `content`, in order.
pub open spec fn input_thread_messages(input: Option<JsonV>) -> Seq<MessageV> {
    match input {
        Some(v) => match v.field("messages"@) {
            Some(JsonV::Array(items)) => items.filter_map(|m: JsonV| input_thread_message(m)),
            _ => Seq::empty(),
        },
        None => Seq::empty(),
    }
}

/// The message that one input item adds to a thread, if it adds one.
pub open spec fn input_thread_message(m: JsonV) -> Option<MessageV> {
    match (m.field("role"@), m.field("content"@)) {
        (Some(JsonV::Str(role)), Some(content)) => Some(
            MessageV { role, content, id: None, metadata: None },
        ),
        _ => None,
    }
}

/// The messages that a finished run adds to its thread.
pub open spec fn run_reply_messages(s: StoreV, run_id: u128) -> Seq<MessageV> {
    if s.has_run(run_id) {
        match s.run(run_id).output {
            Some(RunOutputV::Result { messages: Some(msgs), .. }) => msgs,
            _ => Seq::empty(),
        }
    } else {
        Seq::empty()
    }
}

/// The threads whose status is `status` (every thread where it is `None`).
pub open spec fn status_matches(status: Option<ThreadStatus>, t: ThreadV) -> bool {
    match status {
        Some(st) => t.status == st,
        None => true,
    }
}

/// A thread passes a search where it has the requested status and its
/// metadata holds every member of the requested metadata (each where
/// requested).
pub open spec fn thread_matches(status: Option<ThreadStatus>, metadata: Option<JsonV>, t: ThreadV) -> bool {
    &&& status_matches(status, t)
    &&& match metadata {
        Some(want) => holds_members(t.metadata, want),
        None => true,
    }
}

/// How many checkpoints a history request gives: `max(limit, 1)`, at most
/// the number recorded.
pub open spec fn history_count(len: int, limit: int) -> int {
    let n = if limit < 1 { 1 } else { limit };
    if n >= len { len } else { n }
}

impl StoreV {
    /// The threads a search finds, in store order, before paging.
    pub open spec fn thread_search(self, status: Option<ThreadStatus>, metadata: Option<JsonV>) -> Seq<ThreadV> {
        self.threads.map_values(|td: ThreadDataV| td.thread).filter(
            |t: ThreadV| thread_matches(status, metadata, t),
        )
    }

    /// The runs of the thread with run key `key`, in store order.
    pub open spec fn thread_runs(self, key: u128) -> Seq<RunStatefulV> {
        self.runs.filter(|r: RunDataV| r.run.thread_id == Some(key)).map_values(
            |r: RunDataV| r.stateful(),
        )
    }

    /// The stored thread `id`, or the answer that it is not stored.
    pub open spec fn get_thread(self, id: Seq<char>) -> Result<ThreadV, AcpErrorV> {
        if self.has_thread(id) {
            Ok(self.thread(id).thread)
        } else {
            Err(thread_not_found(id))
        }
    }

    /// Creating thread `id`: an existing thread is given back unchanged or
    /// refused, as `if_exists` says; otherwise a new idle thread is stored.
    pub open spec fn create_thread(
        self,
        id: Seq<char>,
        metadata: Option<JsonV>,
        if_exists: IfExists,
        now: Timestamp,
    ) -> (StoreV, Result<ThreadV, AcpErrorV>) {
        if self.has_thread(id) {
            match if_exists {
                IfExists::DoNothing => (self, Ok(self.thread(id).thread)),
                IfExists::Raise => (
                    self,
                    Err(AcpErrorV { status: CONFLICT, message: "Thread already exists: "@ + id }),
                ),
            }
        } else {
            let t = new_thread(
                id,
                match metadata {
                    Some(m) => m,
                    None => JsonV::Object(Seq::empty()),
                },
                now,
            );
            (StoreV { threads: self.threads.push(t), ..self }, Ok(t.thread))
        }
    }

    /// Deleting thread `id`: refused while the thread is busy.
    pub open spec fn delete_thread(self, id: Seq<char>) -> (StoreV, Result<(), AcpErrorV>) {
        if !self.has_thread(id) {
            (self, Err(thread_not_found(id)))
        } else if self.thread(id).thread.status == ThreadStatus::Busy {
            (
                self,
                Err(AcpErrorV { status: CONFLICT, message: "Cannot delete thread with pending runs"@ }),
            )
        } else {
            (StoreV { threads: self.threads.remove(self.thread_pos(id)), ..self }, Ok(()))
        }
    }

    /// Patching thread `id`: metadata members are merged in (where both are
    /// objects), values and messages are replaced where given.
    pub open spec fn patch_thread(
        self,
        id: Seq<char>,
        metadata: Option<JsonV>,
        values: Option<JsonV>,
        messages: Option<Seq<MessageV>>,
        now: Timestamp,
    ) -> (StoreV, Result<ThreadV, AcpErrorV>) {
        if !self.has_thread(id) {
            (self, Err(thread_not_found(id)))
        } else {
            let td = self.thread(id);
            let md = match metadata {
                Some(JsonV::Object(p)) => match td.thread.metadata {
                    JsonV::Object(m) => JsonV::Object(members_merge(m, p)),
                    _ => td.thread.metadata,
                },
                _ => td.thread.metadata,
            };
            let vals = match values {
                Some(v) => Some(v),
                None => td.thread.values,
            };
            let (msgs, tmsgs) = match messages {
                Some(m) => (m, Some(m)),
                None => (td.messages, td.thread.messages),
            };
            let t = ThreadV { metadata: md, values: vals, messages: tmsgs, updated_at: now, ..td.thread };
            let ntd = ThreadDataV { thread: t, messages: msgs, history: td.history };
            (StoreV { threads: self.threads.update(self.thread_pos(id), ntd), ..self }, Ok(t))
        }
    }

    /// Copying thread `id` under `new_id`: an idle thread with the same
    /// metadata, values, messages and history.
    pub open spec fn copy_thread(self, id: Seq<char>, new_id: Seq<char>, now: Timestamp) -> (
        StoreV,
        Result<ThreadV, AcpErrorV>,
    ) {
        if !self.has_thread(id) {
            (self, Err(thread_not_found(id)))
        } else {
            let td = self.thread(id);
            let t = ThreadV {
                thread_id: new_id,
                created_at: now,
                updated_at: now,
                metadata: td.thread.metadata,
                status: ThreadStatus::Idle,
                values: td.thread.values,
                messages: Some(td.messages),
            };
            (self.put_thread(ThreadDataV { thread: t, messages: td.messages, history: td.history }), Ok(t))
        }
    }

    /// Readying thread `id` for a run: the thread is created where it is
    /// missing and the request allows it, must be idle and becomes busy; then
    /// the agent is resolved and a pending run is stored for the thread.
    pub open spec fn prepare_thread_run(
        self,
        id: Seq<char>,
        agent_name: Option<Seq<char>>,
        if_not_exists: IfNotExists,
        creation: crate::acp_types::RunCreateStatefulV,
        run_id: u128,
        now: Timestamp,
    ) -> (StoreV, Result<(u128, u128), AcpErrorV>) {
        if !self.has_thread(id) && if_not_exists == IfNotExists::Reject {
            (self, Err(thread_not_found(id)))
        } else {
            let s1 = if self.has_thread(id) {
                self
            } else {
                StoreV { threads: self.threads.push(new_thread(id, JsonV::Object(Seq::empty()), now)), ..self }
            };
            let td = s1.thread(id);
            if td.thread.status == ThreadStatus::Busy {
                (s1, Err(AcpErrorV { status: CONFLICT, message: "Thread already has a pending run"@ }))
            } else {
                let busy = ThreadDataV {
                    thread: ThreadV { status: ThreadStatus::Busy, updated_at: now, ..td.thread },
                    ..td
                };
                let s2 = StoreV { threads: s1.threads.update(s1.thread_pos(id), busy), ..s1 };
                match s2.resolve_agent(agent_name) {
                    Err(e) => (s2, Err(e)),
                    Ok(agent_id) => {
                        let rd = RunDataV {
                            creation_stateful: Some(creation),
                            ..new_run_data(run_id, agent_id, Some(thread_key(id)), now)
                        };
                        (s2.put_run(rd), Ok((run_id, agent_id)))
                    },
                }
            }
        }
    }

    /// The thread side of starting a run: the input's messages are appended
    /// to the thread's conversation.
    pub open spec fn begin_thread_run(self, id: Seq<char>, input: Option<JsonV>) -> StoreV {
        if !self.has_thread(id) {
            self
        } else {
            let td = self.thread(id);
            let ntd = ThreadDataV { messages: td.messages + input_thread_messages(input), ..td };
            StoreV { threads: self.threads.update(self.thread_pos(id), ntd), ..self }
        }
    }

    /// The thread side of finishing a run: the run's reply is appended, the
    /// thread shows the whole conversation, becomes idle, and a checkpoint of
    /// the conversation is recorded.
    pub open spec fn finish_thread_run(
        self,
        id: Seq<char>,
        run_id: u128,
        now: Timestamp,
        checkpoint_id: u128,
    ) -> StoreV {
        if !self.has_thread(id) {
            self
        } else {
            let td = self.thread(id);
            let msgs = td.messages + run_reply_messages(self, run_id);
            let ntd = ThreadDataV {
                thread: ThreadV {
                    messages: Some(msgs),
                    status: ThreadStatus::Idle,
                    updated_at: now,
                    ..td.thread
                },
                messages: msgs,
                history: td.history.push(checkpoint_of(msgs, checkpoint_id)),
            };
            StoreV { threads: self.threads.update(self.thread_pos(id), ntd), ..self }
        }
    }
}

// ── Helpers ──────────────────────────────────────────────────────────────────

/// The JSON form of a message.
pub fn message_to_json(m: &Message) -> (r: JsonValue)
    ensures
        r@ == message_json(m@),
{
    broadcast use lemma_json_members_view;

    let mut members: Vec<(String, JsonValue)> = Vec::new();
    members.push((text_string("content"), copy_json(&m.content)));
    match &m.id {
        Some(i) => members.push((text_string("id"), json_str(i.as_str()))),
        None => {},
    }
    match &m.metadata {
        Some(x) => members.push((text_string("metadata"), copy_json(x))),
        None => {},
    }
    members.push((text_string("role"), json_str(m.role.as_str())));
    let ghost mv = members@;
    let r = JsonValue::Object(members);
    proof {
        reveal_strlit("content");
        reveal_strlit("id");
        reveal_strlit("metadata");
        reveal_strlit("role");
        assert(r@ == JsonV::Object(crate::json::json_members_view(mv)));
        assert(r@->Object_0 =~= message_json(m@)->Object_0);
    }
    r
}

/// The JSON array of a list of messages.
pub fn messages_to_json(v: &Vec<Message>) -> (r: JsonValue)
    ensures
        r@ == JsonV::Array(v.deep_view().map_values(|m: MessageV| message_json(m))),
{
    broadcast use lemma_json_seq_view;

    let mut out: Vec<JsonValue> = Vec::new();
    let mut i: usize = 0;
    while i < v.len()
        invariant
            i <= v.len(),
            out@.len() == i,
            forall|j: int| 0 <= j < i ==> (#[trigger] out@[j])@ == message_json(v@[j]@),
        decreases v.len() - i,
    {
        out.push(message_to_json(&v[i]));
        i = i + 1;
    }
    let ghost ov = out@;
    let r = JsonValue::Array(out);
    assert(r@ == JsonV::Array(crate::json::json_seq_view(ov)));
    assert(r@->Array_0 =~= v.deep_view().map_values(|m: MessageV| message_json(m)));
    r
}

/// The run key of a thread id.
pub fn thread_uuid(thread_id: &str) -> (r: u128)
    ensures
        r == thread_key(thread_id@),
{
    match parse_uuid(thread_id) {
        Some(u) => u,
        None => new_uuid_v5(URL_NAMESPACE, thread_id.as_bytes()),
    }
}

fn not_found_error(id: &str) -> (r: AcpError)
    ensures
        r@ == thread_not_found(id@),
{
    proof {
        reveal_strlit("Thread not found: ");
    }
    AcpError::not_found(concat2("Thread not found: ", id))
}

/// The messages that a run input adds to a thread.
pub fn input_messages(input: &Option<JsonValue>) -> (r: Vec<Message>)
    ensures
        r.deep_view() == input_thread_messages(input.deep_view()),
{
    let mut out: Vec<Message> = Vec::new();
    match input {
        Some(v) => {
            proof {
                reveal_strlit("messages");
            }
            match v.get("messages") {
                Some(JsonValue::Array(items)) => {
                    let ghost iv = crate::json::json_seq_view(items@);
                    proof {
                        lemma_json_seq_view(items@);
                    }
                    let mut i: usize = 0;
                    while i < items.len()
                        invariant
                            i <= items.len(),
                            iv == crate::json::json_seq_view(items@),
                            iv.len() == items.len(),
                            out.deep_view() == iv.take(i as int).filter_map(
                                |m: JsonV| input_thread_message(m),
                            ),
                        decreases items.len() - i,
                    {
                        proof {
                            lemma_json_seq_view(items@);
                            reveal_strlit("role");
                            reveal_strlit("content");
                            assert(iv.take(i + 1).drop_last() =~= iv.take(i as int));
                            reveal_with_fuel(Seq::<_>::filter_map, 1);
                        }
                        let m = &items[i];
                        let ghost before = out.deep_view();
                        match (m.get("role"), m.get("content")) {
                            (Some(JsonValue::Str(role)), Some(content)) => {
                                out.push(
                                    Message {
                                        role: role.clone(),
                                        content: copy_json(content),
                                        id: None,
                                        metadata: None,
                                    },
                                );
                                assert(out.deep_view() =~= before.push(
                                    input_thread_message(iv[i as int])->0,
                                ));
                            },
                            _ => {},
                        }
                        i = i + 1;
                    }
                    assert(iv.take(items.len() as int) =~= iv);
                },
                _ => {
                    assert(out.deep_view() =~= Seq::<MessageV>::empty());
                },
            }
        },
        None => {
            assert(out.deep_view() =~= Seq::<MessageV>::empty());
        },
    }
    out
}

// ── Operations ───────────────────────────────────────────────────────────────

impl AppState {
    /// Creates thread `thread_id` at time `now` (see `StoreV::create_thread`).
    pub fn create_thread_with(
        &mut self,
        thread_id: String,
        metadata: Option<JsonValue>,
        if_exists: IfExists,
        now: Timestamp,
    ) -> (r: Result<Thread, AcpError>)
        requires
            old(self)@.wf(),
        ensures
            (final(self)@, crate::error::result_view(r)) == old(self)@.create_thread(
                thread_id@,
                metadata.deep_view(),
                if_exists,
                now,
            ),
            final(self)@.wf(),
            final(self).max_runs == old(self).max_runs,
            final(self).run_timeout_secs == old(self).run_timeout_secs,
    {
        let ghost s0 = self@;
        match self.find_thread(thread_id.as_str()) {
            Some(i) => match if_exists {
                IfExists::DoNothing => Ok(self.threads[i].thread.clone()),
                IfExists::Raise => {
                    proof {
                        reveal_strlit("Thread already exists: ");
                    }
                    Err(AcpError::conflict(concat2("Thread already exists: ", thread_id.as_str())))
                },
            },
            None => {
                let md = match metadata {
                    Some(m) => m,
                    None => empty_object(),
                };
                let thread = Thread {
                    thread_id,
                    created_at: now,
                    updated_at: now,
                    metadata: md,
                    status: ThreadStatus::Idle,
                    values: None,
                    messages: Some(Vec::new()),
                };
                let result = thread.clone();
                let td = ThreadData { thread, messages: Vec::new(), history: Vec::new() };
                let ghost tv = td@;
                self.threads.push(td);
                proof {
                    assert(tv.messages =~= Seq::<MessageV>::empty());
                    assert(tv.history =~= Seq::<ThreadStateV>::empty());
                    assert(tv.thread.messages->0 =~= Seq::<MessageV>::empty());
                    assert(self@.threads =~= s0.threads.push(tv));
                    assert(self@.agents =~= s0.agents);
                    assert(self@.runs =~= s0.runs);
                }
                Ok(result)
            },
        }
    }

    /// POST /threads: creates a thread under the requested id, or under a
    /// new random UUID where the request names none.
    pub fn create_thread(&mut self, req: ThreadCreate) -> (r: Result<Thread, AcpError>)
        requires
            old(self)@.wf(),
        ensures
            exists|id: Seq<char>, now: Timestamp|
                (req.thread_id is Some ==> id == req.thread_id->0@) && (final(self)@,
                crate::error::result_view(r)) == old(self)@.create_thread(
                    id,
                    req.metadata.deep_view(),
                    req.if_exists,
                    now,
                ),
            final(self)@.wf(),
            final(self).max_runs == old(self).max_runs,
            final(self).run_timeout_secs == old(self).run_timeout_secs,
    {
        let thread_id = match req.thread_id {
            Some(t) => t,
            None => uuid_string(new_uuid_v4()),
        };
        let now = utc_now();
        self.create_thread_with(thread_id, req.metadata, req.if_exists, now)
    }

    /// GET /threads/:thread_id
    pub fn get_thread(&self, thread_id: &str) -> (r: Result<Thread, AcpError>)
        requires
            self@.wf(),
        ensures
            crate::error::result_view(r) == self@.get_thread(thread_id@),
    {
        match self.find_thread(thread_id) {
            Some(i) => Ok(self.threads[i].thread.clone()),
            None => Err(not_found_error(thread_id)),
        }
    }

    /// Replaces the thread at position `i`.
    fn set_thread(&mut self, i: usize, td: ThreadData)
        requires
            i < old(self)@.threads.len(),
        ensures
            final(self)@ == (StoreV { threads: old(self)@.threads.update(i as int, td@), ..old(self)@ }),
            final(self).max_runs == old(self).max_runs,
            final(self).run_timeout_secs == old(self).run_timeout_secs,
    {
        let ghost s0 = self@;
        let ghost tv = td@;
        self.threads.set(i, td);
        assert(self@.threads =~= s0.threads.update(i as int, tv));
        assert(self@.agents =~= s0.agents);
        assert(self@.runs =~= s0.runs);
    }

    /// Takes the thread at position `i` out for change, leaving an empty
    /// placeholder.
    fn take_thread(&mut self, i: usize) -> (r: ThreadData)
        requires
            i < old(self)@.threads.len(),
        ensures
            r@ == old(self)@.threads[i as int],
            final(self)@.threads.len() == old(self)@.threads.len(),
            forall|j: int|
                0 <= j < old(self)@.threads.len() && j != i ==> final(self)@.threads[j]
                    == old(self)@.threads[j],
            final(self)@.agents == old(self)@.agents,
            final(self)@.runs == old(self)@.runs,
            final(self).max_runs == old(self).max_runs,
            final(self).run_timeout_secs == old(self).run_timeout_secs,
    {
        let ghost s0 = self@;
        let placeholder = ThreadData {
            thread: Thread {
                thread_id: String::new(),
                created_at: Timestamp { secs: 0, nanos: 0 },
                updated_at: Timestamp { secs: 0, nanos: 0 },
                metadata: JsonValue::Null,
                status: ThreadStatus::Idle,
                values: None,
                messages: None,
            },
            messages: Vec::new(),
            history: Vec::new(),
        };
        let ghost pv = placeholder@;
        let td = self.threads.remove(i);
        self.threads.insert(i, placeholder);
        assert(self@.threads =~= s0.threads.update(i as int, pv));
        assert(self@.agents =~= s0.agents);
        assert(self@.runs =~= s0.runs);
        td
    }

    /// POST /threads/search: threads with the requested status whose metadata
    /// holds every requested member, paged.
    pub fn search_threads(&self, req: &ThreadSearchRequest) -> (r: Vec<Thread>)
        ensures
            r.deep_view() == page(
                self@.thread_search(req.status, req.metadata.deep_view()),
                req.offset as int,
                req.limit as int,
            ),
    {
        let ghost all = self@.threads.map_values(|td: ThreadDataV| td.thread);
        let ghost p = |t: ThreadV| thread_matches(req.status, req.metadata.deep_view(), t);
        let mut out: Vec<Thread> = Vec::new();
        let mut i: usize = 0;
        while i < self.threads.len()
            invariant
                i <= self.threads.len(),
                all == self@.threads.map_values(|td: ThreadDataV| td.thread),
                p == (|t: ThreadV| thread_matches(req.status, req.metadata.deep_view(), t)),
                out.deep_view() == all.take(i as int).filter(p),
            decreases self.threads.len() - i,
        {
            proof {
                assert(all.take(i + 1).drop_last() =~= all.take(i as int));
                reveal_with_fuel(Seq::<_>::filter, 1);
            }
            let ghost before = out.deep_view();
            let keep = match req.status {
                Some(st) => self.threads[i].thread.status == st,
                None => true,
            } && match &req.metadata {
                Some(want) => members_held(&self.threads[i].thread.metadata, want),
                None => true,
            };
            if keep {
                out.push(self.threads[i].thread.clone());
                assert(out.deep_view() =~= before.push(all[i as int]));
            }
            i = i + 1;
        }
        assert(all.take(self.threads.len() as int) =~= all);
        let r = paginate(out, req.offset, req.limit);
        assert(r.deep_view() =~= page(
            self@.thread_search(req.status, req.metadata.deep_view()),
            req.offset as int,
            req.limit as int,
        ));
        r
    }

    /// Patches thread `thread_id` at time `now` (see `StoreV::patch_thread`).
    pub fn patch_thread_at(&mut self, thread_id: &str, patch: ThreadPatch, now: Timestamp) -> (r: Result<Thread, AcpError>)
        requires
            old(self)@.wf(),
        ensures
            (final(self)@, crate::error::result_view(r)) == old(self)@.patch_thread(
                thread_id@,
                patch.metadata.deep_view(),
                patch.values.deep_view(),
                patch.messages.deep_view(),
                now,
            ),
            final(self)@.wf(),
            final(self).max_runs == old(self).max_runs,
            final(self).run_timeout_secs == old(self).run_timeout_secs,
    {
        let ghost s0 = self@;
        let ghost pmd = patch.metadata.deep_view();
        let ghost pvals = patch.values.deep_view();
        let ghost pmsgs = patch.messages.deep_view();
        match self.find_thread(thread_id) {
            None => Err(not_found_error(thread_id)),
            Some(i) => {
                let mut td = self.take_thread(i);
                let ghost t0 = td@;
                assert(t0 == s0.thread(thread_id@));
                match patch.metadata {
                    Some(md) => merge_objects(&mut td.thread.metadata, md),
                    None => {},
                }
                match patch.values {
                    Some(v) => {
                        td.thread.values = Some(v);
                    },
                    None => {},
                }
                match patch.messages {
                    Some(m) => {
                        td.messages = copy_messages(&m);
                        td.thread.messages = Some(m);
                    },
                    None => {},
                }
                td.thread.updated_at = now;
                let result = td.thread.clone();
                let ghost t1 = td@;
                proof {
                    let sp = s0.patch_thread(thread_id@, pmd, pvals, pmsgs, now);
                    let exp = sp.0.threads[i as int];
                    assert(t1.thread.metadata == exp.thread.metadata);
                    assert(t1.thread.values == exp.thread.values);
                    assert(t1.thread.messages == exp.thread.messages);
                    assert(t1.messages == exp.messages);
                    assert(t1.history == exp.history);
                    assert(t1.thread == exp.thread);
                    assert(t1 == exp);
                }
                self.set_thread(i, td);
                proof {
                    let sp = s0.patch_thread(thread_id@, pmd, pvals, pmsgs, now);
                    assert(self@.threads =~= sp.0.threads);
                }
                Ok(result)
            },
        }
    }

    /// PATCH /threads/:thread_id
    pub fn patch_thread(&mut self, thread_id: &str, patch: ThreadPatch) -> (r: Result<Thread, AcpError>)
        requires
            old(self)@.wf(),
        ensures
            exists|now: Timestamp|
                (final(self)@, crate::error::result_view(r)) == old(self)@.patch_thread(
                    thread_id@,
                    patch.metadata.deep_view(),
                    patch.values.deep_view(),
                    patch.messages.deep_view(),
                    now,
                ),
            final(self)@.wf(),
            final(self).max_runs == old(self).max_runs,
            final(self).run_timeout_secs == old(self).run_timeout_secs,
    {
        let now = utc_now();
        self.patch_thread_at(thread_id, patch, now)
    }

    /// DELETE /threads/:thread_id: refused while the thread has a pending run.
    pub fn delete_thread(&mut self, thread_id: &str) -> (r: Result<(), AcpError>)
        requires
            old(self)@.wf(),
        ensures
            (final(self)@, crate::error::result_view(r)) == old(self)@.delete_thread(thread_id@),
            final(self)@.wf(),
            final(self).max_runs == old(self).max_runs,
            final(self).run_timeout_secs == old(self).run_timeout_secs,
    {
        let ghost s0 = self@;
        match self.find_thread(thread_id) {
            None => Err(not_found_error(thread_id)),
            Some(i) => {
                if self.threads[i].thread.status == ThreadStatus::Busy {
                    proof {
                        reveal_strlit("Cannot delete thread with pending runs");
                    }
                    return Err(AcpError::conflict(text_string("Cannot delete thread with pending runs")));
                }
                self.threads.remove(i);
                assert(self@.threads =~= s0.threads.remove(i as int));
                assert(self@.agents =~= s0.agents);
                assert(self@.runs =~= s0.runs);
                Ok(())
            },
        }
    }

    /// Copies thread `thread_id` under `new_id` at time `now` (see
    /// `StoreV::copy_thread`).
    pub fn copy_thread_at(&mut self, thread_id: &str, new_id: String, now: Timestamp) -> (r: Result<Thread, AcpError>)
        requires
            old(self)@.wf(),
        ensures
            (final(self)@, crate::error::result_view(r)) == old(self)@.copy_thread(thread_id@, new_id@, now),
            final(self)@.wf(),
            final(self).max_runs == old(self).max_runs,
            final(self).run_timeout_secs == old(self).run_timeout_secs,
    {
        let ghost s0 = self@;
        match self.find_thread(thread_id) {
            None => Err(not_found_error(thread_id)),
            Some(i) => {
                let new_thread = Thread {
                    thread_id: new_id,
                    created_at: now,
                    updated_at: now,
                    metadata: copy_json(&self.threads[i].thread.metadata),
                    status: ThreadStatus::Idle,
                    values: copy_json_opt(&self.threads[i].thread.values),
                    messages: Some(copy_messages(&self.threads[i].messages)),
                };
                let new_td = ThreadData {
                    thread: new_thread.clone(),
                    messages: copy_messages(&self.threads[i].messages),
                    history: copy_history(&self.threads[i].history),
                };
                let ghost nv = new_td@;
                match self.find_thread(new_td.thread.thread_id.as_str()) {
                    Some(j) => {
                        self.threads.set(j, new_td);
                        assert(self@.threads =~= s0.threads.update(j as int, nv));
                    },
                    None => {
                        self.threads.push(new_td);
                        assert(self@.threads =~= s0.threads.push(nv));
                    },
                }
                assert(self@.agents =~= s0.agents);
                assert(self@.runs =~= s0.runs);
                Ok(new_thread)
            },
        }
    }

    /// POST /threads/:thread_id/copy: the copy gets a new random UUID.
    pub fn copy_thread(&mut self, thread_id: &str) -> (r: Result<Thread, AcpError>)
        requires
            old(self)@.wf(),
        ensures
            exists|new_id: Seq<char>, now: Timestamp|
                (final(self)@, crate::error::result_view(r)) == old(self)@.copy_thread(thread_id@, new_id, now),
            final(self)@.wf(),
            final(self).max_runs == old(self).max_runs,
            final(self).run_timeout_secs == old(self).run_timeout_secs,
    {
        let new_id = uuid_string(new_uuid_v4());
        let now = utc_now();
        self.copy_thread_at(thread_id, new_id, now)
    }

    /// GET /threads/:thread_id/history: the newest `max(limit, 1)`
    /// checkpoints, newest first.
    pub fn get_thread_history(&self, thread_id: &str, query: &HistoryQuery) -> (r: Result<Vec<ThreadState>, AcpError>)
        requires
            self@.wf(),
        ensures
            match r {
                Ok(h) => self@.has_thread(thread_id@) && h.deep_view() == self@.thread(thread_id@).history.reverse().take(
                    history_count(self@.thread(thread_id@).history.len() as int, query.limit as int),
                ),
                Err(e) => !self@.has_thread(thread_id@) && e@ == thread_not_found(thread_id@),
            },
    {
        let limit = query.limit;
        match self.find_thread(thread_id) {
            None => Err(not_found_error(thread_id)),
            Some(i) => {
                let hist = &self.threads[i].history;
                let ghost hv = hist.deep_view();
                let n: usize = if limit < 1 {
                    if hist.len() == 0 { 0 } else { 1 }
                } else if limit as u128 >= hist.len() as u128 {
                    hist.len()
                } else {
                    limit as usize
                };
                assert(n == history_count(hist.len() as int, limit as int));
                let mut out: Vec<ThreadState> = Vec::new();
                let mut k: usize = 0;
                while k < n
                    invariant
                        n <= hist.len(),
                        hv == hist.deep_view(),
                        k <= n,
                        out.deep_view() == hv.reverse().take(k as int),
                    decreases n - k,
                {
                    let ghost before = out.deep_view();
                    let x = hist[hist.len() - 1 - k].clone();
                    assert(x@ == hv[hv.len() - 1 - k]);
                    assert(hv.reverse()[k as int] == hv[hv.len() - 1 - k]);
                    out.push(x);
                    assert(out.deep_view() =~= before.push(hv.reverse()[k as int]));
                    assert(hv.reverse().take(k + 1) =~= hv.reverse().take(k as int).push(hv.reverse()[k as int]));
                    k = k + 1;
                }
                Ok(out)
            },
        }
    }

    /// GET /threads/:thread_id/runs: the thread's runs, paged (offset 0 and
    /// limit 10 where the query names none).
    pub fn list_thread_runs(&self, thread_id: &str, pagination: &PaginationQuery) -> (r: Result<Vec<RunStateful>, AcpError>)
        requires
            self@.wf(),
        ensures
            match r {
                Ok(v) => self@.has_thread(thread_id@) && v.deep_view() == page(
                    self@.thread_runs(thread_key(thread_id@)),
                    match pagination.offset { Some(o) => o as int, None => 0 },
                    match pagination.limit { Some(l) => l as int, None => 10 },
                ),
                Err(e) => !self@.has_thread(thread_id@) && e@ == thread_not_found(thread_id@),
            },
    {
        let limit = pagination.limit;
        let offset = pagination.offset;
        if self.find_thread(thread_id).is_none() {
            return Err(not_found_error(thread_id));
        }
        let key = thread_uuid(thread_id);
        let ghost q = |r: RunDataV| r.run.thread_id == Some(key);
        let ghost f = |r: RunDataV| r.stateful();
        let mut out: Vec<RunStateful> = Vec::new();
        let mut i: usize = 0;
        while i < self.runs.len()
            invariant
                i <= self.runs.len(),
                q == (|r: RunDataV| r.run.thread_id == Some(key)),
                f == (|r: RunDataV| r.stateful()),
                out.deep_view() == self@.runs.take(i as int).filter(q).map_values(f),
            decreases self.runs.len() - i,
        {
            proof {
                assert(self@.runs.take(i + 1).drop_last() =~= self@.runs.take(i as int));
                reveal_with_fuel(Seq::<_>::filter, 1);
            }
            let ghost before = self@.runs.take(i as int).filter(q);
            let ghost before_out = out.deep_view();
            if self.runs[i].run.thread_id == Some(key) {
                out.push(self.runs[i].to_stateful());
                assert(out.deep_view() =~= before_out.push(f(self@.runs[i as int])));
                assert(self@.runs.take(i + 1).filter(q) == before.push(self@.runs[i as int]));
                assert(out.deep_view() =~= self@.runs.take(i + 1).filter(q).map_values(f));
            } else {
                assert(self@.runs.take(i + 1).filter(q) == before);
                assert(out.deep_view() =~= self@.runs.take(i + 1).filter(q).map_values(f));
            }
            i = i + 1;
        }
        assert(self@.runs.take(self.runs.len() as int) =~= self@.runs);
        let off: i64 = match offset { Some(o) => o, None => 0 };
        let lim: i64 = match limit { Some(l) => l, None => 10 };
        let r = paginate(out, off, lim);
        assert(r.deep_view() =~= page(self@.thread_runs(key), off as int, lim as int));
        Ok(r)
    }

    /// Readies thread `thread_id` for run `run_id` at time `now` (see
    /// `StoreV::prepare_thread_run`).
    pub fn prepare_thread_run_at(&mut self, thread_id: &str, req: RunCreateStateful, run_id: u128, now: Timestamp) -> (r: Result<(u128, u128), AcpError>)
        requires
            old(self)@.wf(),
        ensures
            (final(self)@, crate::error::result_view(r)) == old(self)@.prepare_thread_run(
                thread_id@,
                req.base.agent_id.deep_view(),
                req.if_not_exists,
                req@,
                run_id,
                now,
            ),
            final(self)@.wf(),
            final(self).max_runs == old(self).max_runs,
            final(self).run_timeout_secs == old(self).run_timeout_secs,
    {
        let ghost s0 = self@;
        let ghost creation = req@;
        let i = match self.find_thread(thread_id) {
            Some(i) => i,
            None => match req.if_not_exists {
                IfNotExists::Reject => {
                    return Err(not_found_error(thread_id));
                },
                IfNotExists::Create => {
                    let md = empty_object();
                    let td = ThreadData {
                        thread: Thread {
                            thread_id: text_string(thread_id),
                            created_at: now,
                            updated_at: now,
                            metadata: md,
                            status: ThreadStatus::Idle,
                            values: None,
                            messages: Some(Vec::new()),
                        },
                        messages: Vec::new(),
                        history: Vec::new(),
                    };
                    let ghost tv = td@;
                    self.threads.push(td);
                    proof {
                        assert(tv.messages =~= Seq::<MessageV>::empty());
                        assert(tv.history =~= Seq::<ThreadStateV>::empty());
                        assert(tv.thread.messages->0 =~= Seq::<MessageV>::empty());
                        assert(tv == new_thread(thread_id@, JsonV::Object(Seq::empty()), now));
                        assert(self@.threads =~= s0.threads.push(tv));
                        assert(self@.agents =~= s0.agents);
                        assert(self@.runs =~= s0.runs);
                    }
                    self.threads.len() - 1
                },
            },
        };
        let ghost s1 = self@;
        proof {
            crate::state::lemma_thread_pos(s1, thread_id@, i as int);
        }
        if self.threads[i].thread.status == ThreadStatus::Busy {
            proof {
                reveal_strlit("Thread already has a pending run");
            }
            return Err(AcpError::conflict(text_string("Thread already has a pending run")));
        }
        let mut td = self.take_thread(i);
        td.thread.status = ThreadStatus::Busy;
        td.thread.updated_at = now;
        self.set_thread(i, td);
        let ghost s2 = self@;
        assert(s2.threads =~= s1.threads.update(i as int, s2.threads[i as int]));
        let agent_name: Option<&str> = match &req.base.agent_id {
            Some(a) => Some(a.as_str()),
            None => None,
        };
        assert(agent_name.deep_view() == req.base.agent_id.deep_view());
        let agent_id = match self.resolve_agent_id(agent_name) {
            Ok(a) => a,
            Err(e) => {
                return Err(e);
            },
        };
        let key = thread_uuid(thread_id);
        self.create_run_at(run_id, agent_id, Some(key), now);
        let ghost s3 = self@;
        let j = match self.find_run(run_id) {
            Some(j) => j,
            None => {
                proof {
                    assert(s3.has_run(run_id)) by {
                        if s2.has_run(run_id) {
                            let p = s2.run_pos(run_id);
                            assert(s3.runs[p].run.run_id == run_id);
                        } else {
                            assert(s3.runs[s2.runs.len() as int].run.run_id == run_id);
                        }
                    }
                }
                return Err(AcpError::internal(String::new()));
            },
        };
        let mut rd = self.take_run(j);
        rd.creation_stateful = Some(req);
        self.set_run(j, rd);
        proof {
            let exp = RunDataV {
                creation_stateful: Some(creation),
                ..new_run_data(run_id, agent_id, Some(thread_key(thread_id@)), now)
            };
            if s2.has_run(run_id) {
                let p = s2.run_pos(run_id);
                crate::state::lemma_run_pos(s3, run_id, p);
                assert(self@.runs =~= s2.runs.update(p, exp));
            } else {
                crate::state::lemma_run_pos(s3, run_id, s2.runs.len() as int);
                assert(self@.runs =~= s2.runs.push(exp));
            }
        }
        Ok((run_id, agent_id))
    }

    /// The thread side of starting a run on thread `thread_id`: the input's
    /// messages are appended to the conversation, which is then given back;
    /// nothing where the thread is gone.
    pub fn begin_thread_run(&mut self, thread_id: &str, input: &Option<JsonValue>) -> (r: Option<Vec<Message>>)
        requires
            old(self)@.wf(),
        ensures
            final(self)@ == old(self)@.begin_thread_run(thread_id@, input.deep_view()),
            r is Some <==> old(self)@.has_thread(thread_id@),
            r is Some ==> r->0.deep_view() == final(self)@.thread(thread_id@).messages,
            final(self)@.wf(),
            final(self).max_runs == old(self).max_runs,
            final(self).run_timeout_secs == old(self).run_timeout_secs,
    {
        let ghost s0 = self@;
        match self.find_thread(thread_id) {
            None => None,
            Some(i) => {
                let mut td = self.take_thread(i);
                let mut added = input_messages(input);
                let ghost m0 = td.messages.deep_view();
                let ghost a0 = added.deep_view();
                td.messages.append(&mut added);
                assert(td.messages.deep_view() =~= m0 + a0);
                let result = copy_messages(&td.messages);
                self.set_thread(i, td);
                proof {
                    let exp = s0.begin_thread_run(thread_id@, input.deep_view());
                    assert(self@.threads =~= exp.threads);
                    crate::state::lemma_thread_pos(self@, thread_id@, i as int);
                }
                Some(result)
            },
        }
    }

    /// The thread side of finishing run `run_id` on thread `thread_id` at
    /// time `now` (see `StoreV::finish_thread_run`).
    pub fn finish_thread_run_at(&mut self, thread_id: &str, run_id: u128, now: Timestamp, checkpoint_id: u128)
        requires
            old(self)@.wf(),
        ensures
            final(self)@ == old(self)@.finish_thread_run(thread_id@, run_id, now, checkpoint_id),
            final(self)@.wf(),
            final(self).max_runs == old(self).max_runs,
            final(self).run_timeout_secs == old(self).run_timeout_secs,
    {
        let ghost s0 = self@;
        match self.find_thread(thread_id) {
            None => {},
            Some(i) => {
                let mut reply: Vec<Message> = match self.find_run(run_id) {
                    Some(j) => match &self.runs[j].output {
                        Some(RunOutput::Result { messages: Some(m), .. }) => copy_messages(m),
                        _ => Vec::new(),
                    },
                    None => Vec::new(),
                };
                assert(reply.deep_view() =~= run_reply_messages(s0, run_id));
                let mut td = self.take_thread(i);
                let ghost m0 = td.messages.deep_view();
                let ghost a0 = reply.deep_view();
                td.messages.append(&mut reply);
                assert(td.messages.deep_view() =~= m0 + a0);
                td.thread.messages = Some(copy_messages(&td.messages));
                td.thread.status = ThreadStatus::Idle;
                td.thread.updated_at = now;
                let checkpoint = ThreadState {
                    checkpoint: ThreadCheckpoint { checkpoint_id },
                    values: crate::json::object1("messages", messages_to_json(&td.messages)),
                    messages: Some(copy_messages(&td.messages)),
                    metadata: None,
                };
                proof {
                    reveal_strlit("messages");
                    assert(checkpoint@ == checkpoint_of(td.messages.deep_view(), checkpoint_id));
                }
                let ghost h0 = td.history.deep_view();
                let ghost cv = checkpoint@;
                td.history.push(checkpoint);
                assert(td.history.deep_view() =~= h0.push(cv));
                self.set_thread(i, td);
                proof {
                    let exp = s0.finish_thread_run(thread_id@, run_id, now, checkpoint_id);
                    assert(self@.threads =~= exp.threads);
                }
            },
        }
    }

    /// The thread side of finishing a run, at the current time with a new
    /// random checkpoint id.
    pub fn finish_thread_run(&mut self, thread_id: &str, run_id: u128)
        requires
            old(self)@.wf(),
        ensures
            exists|now: Timestamp, checkpoint_id: u128|
                final(self)@ == old(self)@.finish_thread_run(thread_id@, run_id, now, checkpoint_id),
            final(self)@.wf(),
            final(self).max_runs == old(self).max_runs,
            final(self).run_timeout_secs == old(self).run_timeout_secs,
    {
        let now = utc_now();
        let checkpoint_id = new_uuid_v4();
        self.finish_thread_run_at(thread_id, run_id, now, checkpoint_id);
    }

    /// Readies a thread for a run, with a new random run id at the current
    /// time.
    pub fn prepare_thread_run(&mut self, thread_id: &str, req: RunCreateStateful) -> (r: Result<(u128, u128), AcpError>)
        requires
            old(self)@.wf(),
        ensures
            exists|run_id: u128, now: Timestamp|
                (final(self)@, crate::error::result_view(r)) == old(self)@.prepare_thread_run(
                    thread_id@,
                    req.base.agent_id.deep_view(),
                    req.if_not_exists,
                    req@,
                    run_id,
                    now,
                ),
            final(self)@.wf(),
            final(self).max_runs == old(self).max_runs,
            final(self).run_timeout_secs == old(self).run_timeout_secs,
    {
        let run_id = new_uuid_v4();
        let now = utc_now();
        self.prepare_thread_run_at(thread_id, req, run_id, now)
    }
}

/// The query of a history request.
#[derive(Debug)]
pub struct HistoryQuery {
    /// The number of checkpoints to return (at least one is returned where
    /// there are any).
    pub limit: i64,
    pub before: Option<String>,
}

/// The number of checkpoints a history request returns where it names none.
pub fn default_history_limit() -> (r: i64)
    ensures
        r == 10,
{
    10
}

/// The paging of a list request.
#[derive(Debug)]
pub struct PaginationQuery {
    pub limit: Option<i64>,
    pub offset: Option<i64>,
}

} // verus!
