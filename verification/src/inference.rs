//! Between ACP runs and model inference: the chat messages a run sends, the
//! sampling settings it asks for, and how the outcome is recorded.

use vstd::prelude::*;
use crate::acp_types::{Message, MessageV, RunConfig, RunOutput, RunStatus, ValueRunResultUpdate};
use crate::ids::{utc_now, Timestamp};
use crate::json::{
    json_seq_view, json_text, json_to_string, lemma_json_members_view, lemma_json_seq_view, JsonV,
    JsonValue,
};
use crate::runs::{
    failed_output, new_streamed_output, new_success_output, new_text_update, streamed_output,
    success_output, text_update, timeout_message, timeout_text, FAILED_ERRCODE,
};
use crate::state::{AppState, StoreV};
use crate::text::{decimal_string, decimal_text, text_eq, text_string};

verus! {

broadcast use vstd::std_specs::vec::group_vec_axioms;

/// A chat message sent to the model.
#[derive(Debug)]
pub enum ChatMessage {
    User(String),
    System(String),
    Assistant(String),
}

pub enum ChatMessageV {
    User(Seq<char>),
    System(Seq<char>),
    Assistant(Seq<char>),
}

impl DeepView for ChatMessage {
    type V = ChatMessageV;

    open spec fn deep_view(&self) -> ChatMessageV {
        match self {
            ChatMessage::User(s) => ChatMessageV::User(s@),
            ChatMessage::System(s) => ChatMessageV::System(s@),
            ChatMessage::Assistant(s) => ChatMessageV::Assistant(s@),
        }
    }
}

/// The chat message for a role: `user`, `system` and `assistant` are sent;
/// any other role is left out.
pub open spec fn chat_of_role(role: Seq<char>, content: Seq<char>) -> Option<ChatMessageV> {
    if role == "user"@ {
        Some(ChatMessageV::User(content))
    } else if role == "system"@ {
        Some(ChatMessageV::System(content))
    } else if role == "assistant"@ {
        Some(ChatMessageV::Assistant(content))
    } else {
        None
    }
}

/// The chat message of one input item: its `role` and `content` must both
/// be strings.
pub open spec fn input_item_chat(m: JsonV) -> Option<ChatMessageV> {
    match (m.field("role"@), m.field("content"@)) {
        (Some(JsonV::Str(role)), Some(JsonV::Str(content))) => chat_of_role(role, content),
        _ => None,
    }
}

/// The chat messages of a run input: a plain string is one user message; an
/// array (the `messages` member, or the input itself) gives one message per
/// usable item; an object with a string `content` is one user message.
pub open spec fn input_chat_messages(input: Option<JsonV>) -> Seq<ChatMessageV> {
    match input {
        None => Seq::empty(),
        Some(v) => match v {
            JsonV::Str(text) => seq![ChatMessageV::User(text)],
            _ => {
                let list = match v.field("messages"@) {
                    Some(m) => m,
                    None => v,
                };
                match list {
                    JsonV::Array(items) => items.filter_map(|m: JsonV| input_item_chat(m)),
                    _ => match v.field("content"@) {
                        Some(JsonV::Str(text)) => seq![ChatMessageV::User(text)],
                        _ => Seq::empty(),
                    },
                }
            },
        },
    }
}

/// The text of a message's content: a string as it is, anything else as its
/// JSON text.
pub open spec fn content_text(content: JsonV) -> Seq<char> {
    match content {
        JsonV::Str(s) => s,
        other => json_text(other),
    }
}

/// The chat messages of a thread's conversation.
pub open spec fn history_chat_messages(history: Seq<MessageV>) -> Seq<ChatMessageV> {
    history.filter_map(|m: MessageV| chat_of_role(m.role, content_text(m.content)))
}

fn role_chat(role: &str, content: String) -> (r: Option<ChatMessage>)
    ensures
        r.deep_view() == chat_of_role(role@, content@),
{
    proof {
        reveal_strlit("user");
        reveal_strlit("system");
        reveal_strlit("assistant");
    }
    if text_eq(role, "user") {
        Some(ChatMessage::User(content))
    } else if text_eq(role, "system") {
        Some(ChatMessage::System(content))
    } else if text_eq(role, "assistant") {
        Some(ChatMessage::Assistant(content))
    } else {
        None
    }
}

fn item_chat(m: &JsonValue) -> (r: Option<ChatMessage>)
    ensures
        r.deep_view() == input_item_chat(m@),
{
    proof {
        reveal_strlit("role");
        reveal_strlit("content");
    }
    match (m.get("role"), m.get("content")) {
        (Some(JsonValue::Str(role)), Some(JsonValue::Str(content))) => role_chat(role.as_str(), content.clone()),
        _ => None,
    }
}

fn items_chat(items: &Vec<JsonValue>) -> (r: Vec<ChatMessage>)
    ensures
        r.deep_view() == json_seq_view(items@).filter_map(|m: JsonV| input_item_chat(m)),
{
    let ghost iv = json_seq_view(items@);
    proof {
        lemma_json_seq_view(items@);
    }
    let mut out: Vec<ChatMessage> = Vec::new();
    let mut i: usize = 0;
    while i < items.len()
        invariant
            i <= items.len(),
            iv == json_seq_view(items@),
            iv.len() == items.len(),
            out.deep_view() == iv.take(i as int).filter_map(|m: JsonV| input_item_chat(m)),
        decreases items.len() - i,
    {
        proof {
            lemma_json_seq_view(items@);
            assert(iv.take(i + 1).drop_last() =~= iv.take(i as int));
            reveal_with_fuel(Seq::<_>::filter_map, 1);
        }
        let ghost before = out.deep_view();
        match item_chat(&items[i]) {
            Some(c) => {
                out.push(c);
                assert(out.deep_view() =~= before.push(input_item_chat(iv[i as int])->0));
            },
            None => {
                assert(out.deep_view() =~= before);
            },
        }
        i = i + 1;
    }
    assert(iv.take(items.len() as int) =~= iv);
    out
}

/// Extract chat messages from ACP input JSON.
pub fn extract_messages(input: &Option<JsonValue>) -> (r: Vec<ChatMessage>)
    ensures
        r.deep_view() == input_chat_messages(input.deep_view()),
{
    let mut out: Vec<ChatMessage> = Vec::new();
    match input {
        None => {
            assert(out.deep_view() =~= Seq::<ChatMessageV>::empty());
            out
        },
        Some(v) => {
            if let Some(text) = v.as_str() {
                out.push(ChatMessage::User(text_string(text)));
                assert(out.deep_view() =~= seq![ChatMessageV::User(text@)]);
                return out;
            }
            proof {
                reveal_strlit("messages");
                reveal_strlit("content");
            }
            let list = match v.get("messages") {
                Some(m) => m,
                None => v,
            };
            match list.as_array() {
                Some(items) => items_chat(items),
                None => {
                    match v.get("content") {
                        Some(JsonValue::Str(text)) => {
                            out.push(ChatMessage::User(text.clone()));
                            assert(out.deep_view() =~= seq![ChatMessageV::User(text@)]);
                        },
                        _ => {
                            assert(out.deep_view() =~= Seq::<ChatMessageV>::empty());
                        },
                    }
                    out
                },
            }
        },
    }
}

/// The text of a message's content.
pub fn message_content_text(content: &JsonValue) -> (r: String)
    ensures
        r@ == content_text(content@),
{
    match content {
        JsonValue::Str(s) => s.clone(),
        _ => json_to_string(content),
    }
}

/// Combine thread messages (if any) with input messages for the run: the
/// conversation first, then the input.
pub fn build_message_list(thread_messages: Option<&Vec<Message>>, input: &Option<JsonValue>) -> (r: Vec<ChatMessage>)
    ensures
        r.deep_view() == (match thread_messages {
            Some(h) => history_chat_messages(h.deep_view()),
            None => Seq::empty(),
        }) + input_chat_messages(input.deep_view()),
{
    let mut msgs: Vec<ChatMessage> = Vec::new();
    match thread_messages {
        Some(history) => {
            let ghost hv = history.deep_view();
            let mut i: usize = 0;
            while i < history.len()
                invariant
                    i <= history.len(),
                    hv == history.deep_view(),
                    msgs.deep_view() == history_chat_messages(hv.take(i as int)),
                decreases history.len() - i,
            {
                proof {
                    assert(hv.take(i + 1).drop_last() =~= hv.take(i as int));
                    reveal_with_fuel(Seq::<_>::filter_map, 1);
                }
                let ghost before = msgs.deep_view();
                let m = &history[i];
                let content = message_content_text(&m.content);
                match role_chat(m.role.as_str(), content) {
                    Some(c) => {
                        msgs.push(c);
                        assert(msgs.deep_view() =~= before.push(
                            chat_of_role(hv[i as int].role, content_text(hv[i as int].content))->0,
                        ));
                    },
                    None => {
                        assert(msgs.deep_view() =~= before);
                    },
                }
                i = i + 1;
            }
            assert(hv.take(history.len() as int) =~= hv);
        },
        None => {
            assert(msgs.deep_view() =~= Seq::<ChatMessageV>::empty());
        },
    }
    let ghost m0 = msgs.deep_view();
    let mut extra = extract_messages(input);
    let ghost e0 = extra.deep_view();
    msgs.append(&mut extra);
    assert(msgs.deep_view() =~= m0 + e0);
    msgs
}

/// The sampling settings a run asks for. Temperature and top-p are JSON
/// numbers, held as their text.
#[derive(Debug)]
pub struct InferenceConfig {
    pub temperature: Option<String>,
    pub max_tokens: Option<u32>,
    pub top_p: Option<String>,
}

/// The text of a JSON number.
pub open spec fn number_text(v: Option<JsonV>) -> Option<Seq<char>> {
    match v {
        Some(JsonV::Number(t)) => Some(t),
        _ => None,
    }
}

/// The member `key` of the `configurable` object of a run config.
pub open spec fn configurable_field(config: Option<crate::acp_types::RunConfigV>, key: Seq<char>) -> Option<JsonV> {
    match config {
        Some(c) => match c.configurable {
            Some(v) => v.field(key),
            None => None,
        },
        None => None,
    }
}

fn number_of(v: Option<&JsonValue>) -> (r: Option<String>)
    ensures
        r.deep_view() == number_text(match v {
            Some(x) => Some(x@),
            None => None,
        }),
{
    match v {
        Some(JsonValue::Number(t)) => Some(t.clone()),
        _ => None,
    }
}

/// Extract temperature/max_tokens/top_p from ACP config: temperature and
/// top-p where they are numbers; max_tokens where it is a non-negative
/// integer, cut to its low 32 bits.
pub fn extract_config(config: &Option<RunConfig>) -> (r: InferenceConfig)
    ensures
        r.temperature.deep_view() == number_text(configurable_field(config.deep_view(), "temperature"@)),
        r.top_p.deep_view() == number_text(configurable_field(config.deep_view(), "top_p"@)),
        r.max_tokens == (match configurable_field(config.deep_view(), "max_tokens"@) {
            Some(v) => match v.u64_of() {
                Some(n) => Some(n as u32),
                None => None,
            },
            None => None,
        }),
{
    proof {
        reveal_strlit("temperature");
        reveal_strlit("top_p");
        reveal_strlit("max_tokens");
    }
    match config {
        None => InferenceConfig { temperature: None, max_tokens: None, top_p: None },
        Some(c) => match &c.configurable {
            None => InferenceConfig { temperature: None, max_tokens: None, top_p: None },
            Some(cfg) => {
                let temperature = number_of(cfg.get("temperature"));
                let top_p = number_of(cfg.get("top_p"));
                let max_tokens = match cfg.get("max_tokens") {
                    Some(v) => match v.as_u64() {
                        Some(n) => Some(n as u32),
                        None => None,
                    },
                    None => None,
                };
                InferenceConfig { temperature, max_tokens, top_p }
            },
        },
    }
}

/// Token usage as a run reports it.
pub open spec fn usage_json(prompt: u32, completion: u32, total: u32) -> JsonV {
    JsonV::Object(
        seq![
            ("completion_tokens"@, JsonV::Number(decimal_text(completion as nat))),
            ("prompt_tokens"@, JsonV::Number(decimal_text(prompt as nat))),
            ("total_tokens"@, JsonV::Number(decimal_text(total as nat))),
        ],
    )
}

/// How a run ended.
#[derive(Debug)]
pub enum RunOutcome {
    /// The model answered with `text`; `usage` is its token usage (or null).
    Completed { text: String, usage: JsonValue },
    /// The run failed with `message`.
    Failed { message: String },
    /// The run did not finish within the run timeout.
    TimedOut,
}

/// What a completed chat request gives a run: the first choice's text (empty
/// where there is none), and the token usage where the model reported it.
pub fn completion_outcome(first_content: Option<String>, usage: Option<(u32, u32, u32)>) -> (r: RunOutcome)
    ensures
        match r {
            RunOutcome::Completed { text, usage: u } => text@ == (match first_content {
                Some(c) => c@,
                None => Seq::empty(),
            }) && u@ == (match usage {
                Some((p, c, t)) => usage_json(p, c, t),
                None => JsonV::Null,
            }),
            _ => false,
        },
{
    broadcast use lemma_json_members_view;

    let text = match first_content {
        Some(c) => c,
        None => String::new(),
    };
    let u = match usage {
        Some((p, c, t)) => {
            proof {
                reveal_strlit("completion_tokens");
                reveal_strlit("prompt_tokens");
                reveal_strlit("total_tokens");
            }
            let mut m: Vec<(String, JsonValue)> = Vec::new();
            m.push((text_string("completion_tokens"), JsonValue::Number(decimal_string(c as u64))));
            m.push((text_string("prompt_tokens"), JsonValue::Number(decimal_string(p as u64))));
            m.push((text_string("total_tokens"), JsonValue::Number(decimal_string(t as u64))));
            let ghost mv = m@;
            let v = JsonValue::Object(m);
            assert(v@ == JsonV::Object(crate::json::json_members_view(mv)));
            assert(v@->Object_0 =~= usage_json(p, c, t)->Object_0);
            v
        },
        None => JsonValue::Null,
    };
    RunOutcome::Completed { text, usage: u }
}

impl StoreV {
    /// The state once streamed run `id` has completed with `text` at time
    /// `now` (unchanged where the run is gone).
    pub open spec fn record_streamed(self, id: u128, text: Seq<char>, now: Timestamp) -> StoreV {
        if self.has_run(id) {
            self.settle_run(id, RunStatus::Success, streamed_output(text), now)
        } else {
            self
        }
    }

    /// The state once run `id` has ended with `outcome` at time `now`.
    pub open spec fn record_outcome(
        self,
        id: u128,
        outcome: RunOutcomeV,
        timeout_secs: u64,
        now: Timestamp,
    ) -> StoreV {
        match outcome {
            RunOutcomeV::Completed { text, usage } => self.settle_run(
                id,
                RunStatus::Success,
                success_output(text, usage),
                now,
            ),
            RunOutcomeV::Failed { message } => self.settle_run(
                id,
                RunStatus::Error,
                failed_output(id, FAILED_ERRCODE, message),
                now,
            ),
            RunOutcomeV::TimedOut => self.settle_run(
                id,
                RunStatus::Timeout,
                failed_output(id, crate::runs::TIMEOUT_ERRCODE, timeout_text(timeout_secs)),
                now,
            ),
        }
    }
}

pub enum RunOutcomeV {
    Completed { text: Seq<char>, usage: JsonV },
    Failed { message: Seq<char> },
    TimedOut,
}

impl View for RunOutcome {
    type V = RunOutcomeV;

    open spec fn view(&self) -> RunOutcomeV {
        match self {
            RunOutcome::Completed { text, usage } => RunOutcomeV::Completed { text: text@, usage: usage@ },
            RunOutcome::Failed { message } => RunOutcomeV::Failed { message: message@ },
            RunOutcome::TimedOut => RunOutcomeV::TimedOut,
        }
    }
}

impl AppState {
    /// Records how run `run_id` ended, at time `now`. A completed run also
    /// yields the final `values` update for its stream; nothing is recorded
    /// or yielded where the run is gone or no longer pending (cancelled).
    pub fn record_run_outcome_at(&mut self, run_id: u128, outcome: RunOutcome, now: Timestamp) -> (r: Option<ValueRunResultUpdate>)
        requires
            old(self)@.wf(),
        ensures
            final(self)@ == old(self)@.record_outcome(run_id, outcome@, old(self).run_timeout_secs, now),
            r is Some <==> (old(self)@.run_pending(run_id) && outcome is Completed),
            r is Some ==> r->0@ == text_update(run_id, RunStatus::Success, outcome@->Completed_text),
            final(self)@.wf(),
            final(self).max_runs == old(self).max_runs,
            final(self).run_timeout_secs == old(self).run_timeout_secs,
    {
        let present = self.is_run_pending(run_id);
        match outcome {
            RunOutcome::Completed { text, usage } => {
                let update = new_text_update(run_id, RunStatus::Success, text.as_str());
                let output = new_success_output(text.as_str(), usage);
                self.settle_run_at(run_id, RunStatus::Success, output, now);
                if present { Some(update) } else { None }
            },
            RunOutcome::Failed { message } => {
                let output = RunOutput::Error { run_id, errcode: FAILED_ERRCODE, description: message };
                self.settle_run_at(run_id, RunStatus::Error, output, now);
                None
            },
            RunOutcome::TimedOut => {
                let output = RunOutput::Error {
                    run_id,
                    errcode: crate::runs::TIMEOUT_ERRCODE,
                    description: timeout_message(self.run_timeout_secs),
                };
                self.settle_run_at(run_id, RunStatus::Timeout, output, now);
                None
            },
        }
    }

    /// Records how run `run_id` ended, at the current time.
    pub fn record_run_outcome(&mut self, run_id: u128, outcome: RunOutcome) -> (r: Option<ValueRunResultUpdate>)
        requires
            old(self)@.wf(),
        ensures
            exists|now: Timestamp|
                final(self)@ == old(self)@.record_outcome(run_id, outcome@, old(self).run_timeout_secs, now),
            r is Some <==> (old(self)@.run_pending(run_id) && outcome is Completed),
            r is Some ==> r->0@ == text_update(run_id, RunStatus::Success, outcome@->Completed_text),
            final(self)@.wf(),
            final(self).max_runs == old(self).max_runs,
            final(self).run_timeout_secs == old(self).run_timeout_secs,
    {
        let now = utc_now();
        self.record_run_outcome_at(run_id, outcome, now)
    }

    /// Marks run `run_id` failed with `msg` (code 500) at the current time,
    /// where it is still pending.
    pub fn update_run_error(&mut self, run_id: u128, msg: String)
        requires
            old(self)@.wf(),
        ensures
            exists|now: Timestamp|
                final(self)@ == old(self)@.settle_run(
                    run_id,
                    RunStatus::Error,
                    failed_output(run_id, FAILED_ERRCODE, msg@),
                    now,
                ),
            final(self)@.wf(),
            final(self).max_runs == old(self).max_runs,
            final(self).run_timeout_secs == old(self).run_timeout_secs,
    {
        let now = utc_now();
        let output = RunOutput::Error { run_id, errcode: FAILED_ERRCODE, description: msg };
        self.settle_run_at(run_id, RunStatus::Error, output, now);
    }

    /// Records that streamed run `run_id` completed with `text` at time
    /// `now`, and yields the final `values` update; nothing where the run is
    /// gone or no longer pending (cancelled).
    pub fn finish_streaming_run_at(&mut self, run_id: u128, text: &str, now: Timestamp) -> (r: Option<ValueRunResultUpdate>)
        requires
            old(self)@.wf(),
        ensures
            final(self)@ == old(self)@.record_streamed(run_id, text@, now),
            r is Some <==> old(self)@.run_pending(run_id),
            r is Some ==> r->0@ == text_update(run_id, RunStatus::Success, text@),
            final(self)@.wf(),
            final(self).max_runs == old(self).max_runs,
            final(self).run_timeout_secs == old(self).run_timeout_secs,
    {
        if !self.is_run_pending(run_id) {
            return None;
        }
        let output = new_streamed_output(text);
        self.settle_run_at(run_id, RunStatus::Success, output, now);
        Some(new_text_update(run_id, RunStatus::Success, text))
    }

    /// Records that streamed run `run_id` completed with `text`, at the
    /// current time.
    pub fn finish_streaming_run(&mut self, run_id: u128, text: &str) -> (r: Option<ValueRunResultUpdate>)
        requires
            old(self)@.wf(),
        ensures
            exists|now: Timestamp|
                final(self)@ == old(self)@.record_streamed(run_id, text@, now),
            r is Some <==> old(self)@.run_pending(run_id),
            r is Some ==> r->0@ == text_update(run_id, RunStatus::Success, text@),
            final(self)@.wf(),
            final(self).max_runs == old(self).max_runs,
            final(self).run_timeout_secs == old(self).run_timeout_secs,
    {
        let ghost s0 = self@;
        let now = utc_now();
        let r = self.finish_streaming_run_at(run_id, text, now);
        assert(self@ == s0.record_streamed(run_id, text@, now));
        r
    }
}

/// The text a streamed run has produced so far.
#[derive(Debug)]
pub struct StreamAccumulator {
    pub run_id: u128,
    pub text: String,
}

impl StreamAccumulator {
    /// Nothing produced yet.
    pub fn new(run_id: u128) -> (r: Self)
        ensures
            r.run_id == run_id,
            r.text@ == Seq::<char>::empty(),
    {
        StreamAccumulator { run_id, text: String::new() }
    }

    /// Adds one piece of streamed content and yields the update to send: the
    /// whole text so far, not the piece (replacement semantics).
    pub fn push_delta(&mut self, delta: &str) -> (r: ValueRunResultUpdate)
        ensures
            final(self).run_id == old(self).run_id,
            final(self).text@ == old(self).text@ + delta@,
            r@ == text_update(old(self).run_id, RunStatus::Pending, final(self).text@),
    {
        self.text.append(delta);
        new_text_update(self.run_id, RunStatus::Pending, self.text.as_str())
    }
}

} // verus!
