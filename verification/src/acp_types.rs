//! The data types of the Agent Connect Protocol (v0.2.3), with the values
//! that contracts speak of.

use vstd::prelude::*;
use crate::ids::Timestamp;
use crate::json::{copy_json, copy_json_opt, JsonV, JsonValue};

verus! {

// ── Enums ────────────────────────────────────────────────────────────────────

#[derive(Clone, Copy, PartialEq, Eq, Debug, Structural)]
pub enum RunStatus {
    Pending,
    Error,
    Success,
    Timeout,
    Interrupted,
}

#[derive(Clone, Copy, PartialEq, Eq, Debug, Structural)]
pub enum ThreadStatus {
    Idle,
    Busy,
    Interrupted,
    Error,
}

#[derive(Clone, Copy, PartialEq, Eq, Debug, Structural)]
pub enum StreamingMode {
    Values,
    Custom,
}

#[derive(Clone, Copy, PartialEq, Eq, Debug, Structural)]
pub enum OnDisconnect {
    Cancel,
    Continue,
}

#[derive(Clone, Copy, PartialEq, Eq, Debug, Structural)]
pub enum MultitaskStrategy {
    Reject,
    Rollback,
    Interrupt,
    Enqueue,
}

#[derive(Clone, Copy, PartialEq, Eq, Debug, Structural)]
pub enum OnCompletion {
    Delete,
    Keep,
}

#[derive(Clone, Copy, PartialEq, Eq, Debug, Structural)]
pub enum IfNotExists {
    Create,
    Reject,
}

#[derive(Clone, Copy, PartialEq, Eq, Debug, Structural)]
pub enum IfExists {
    Raise,
    DoNothing,
}

#[derive(Clone, Copy, PartialEq, Eq, Debug, Structural)]
pub enum CancelAction {
    Interrupt,
    Rollback,
}

impl DeepView for RunStatus {
    type V = RunStatus;

    open spec fn deep_view(&self) -> RunStatus {
        *self
    }
}

impl DeepView for ThreadStatus {
    type V = ThreadStatus;

    open spec fn deep_view(&self) -> ThreadStatus {
        *self
    }
}

// ── Agent types ──────────────────────────────────────────────────────────────

#[derive(Debug)]
pub struct AgentRef {
    pub name: String,
    pub version: String,
    pub url: Option<String>,
}

pub struct AgentRefV {
    pub name: Seq<char>,
    pub version: Seq<char>,
    pub url: Option<Seq<char>>,
}

impl View for AgentRef {
    type V = AgentRefV;

    open spec fn view(&self) -> AgentRefV {
        AgentRefV { name: self.name@, version: self.version@, url: self.url.deep_view() }
    }
}

impl Clone for AgentRef {
    fn clone(&self) -> (r: Self)
        ensures
            r@ == self@,
    {
        AgentRef { name: self.name.clone(), version: self.version.clone(), url: self.url.clone() }
    }
}

#[derive(Debug)]
pub struct AgentMetadata {
    pub agent_ref: AgentRef,
    pub description: String,
}

pub struct AgentMetadataV {
    pub agent_ref: AgentRefV,
    pub description: Seq<char>,
}

impl View for AgentMetadata {
    type V = AgentMetadataV;

    open spec fn view(&self) -> AgentMetadataV {
        AgentMetadataV { agent_ref: self.agent_ref@, description: self.description@ }
    }
}

impl Clone for AgentMetadata {
    fn clone(&self) -> (r: Self)
        ensures
            r@ == self@,
    {
        AgentMetadata { agent_ref: self.agent_ref.clone(), description: self.description.clone() }
    }
}

#[derive(Debug)]
pub struct Agent {
    pub agent_id: u128,
    pub metadata: AgentMetadata,
}

pub struct AgentV {
    pub agent_id: u128,
    pub metadata: AgentMetadataV,
}

impl DeepView for Agent {
    type V = AgentV;

    open spec fn deep_view(&self) -> AgentV {
        self@
    }
}

impl View for Agent {
    type V = AgentV;

    open spec fn view(&self) -> AgentV {
        AgentV { agent_id: self.agent_id, metadata: self.metadata@ }
    }
}

impl Clone for Agent {
    fn clone(&self) -> (r: Self)
        ensures
            r@ == self@,
    {
        Agent { agent_id: self.agent_id, metadata: self.metadata.clone() }
    }
}

#[derive(Clone, Copy, PartialEq, Eq, Debug, Structural)]
pub struct StreamingCapabilities {
    pub values: Option<bool>,
    pub custom: Option<bool>,
}

#[derive(Clone, Copy, PartialEq, Eq, Debug, Structural)]
pub struct AgentCapabilities {
    pub threads: bool,
    pub interrupts: bool,
    pub callbacks: bool,
    pub streaming: Option<StreamingCapabilities>,
}

#[derive(Debug)]
pub struct AgentACPSpec {
    pub capabilities: AgentCapabilities,
    pub input: JsonValue,
    pub output: JsonValue,
    pub config: JsonValue,
    pub thread_state: Option<JsonValue>,
    pub interrupts: Option<Vec<JsonValue>>,
    pub custom_streaming_update: Option<JsonValue>,
}

pub struct AgentACPSpecV {
    pub capabilities: AgentCapabilities,
    pub input: JsonV,
    pub output: JsonV,
    pub config: JsonV,
    pub thread_state: Option<JsonV>,
    pub interrupts: Option<Seq<JsonV>>,
    pub custom_streaming_update: Option<JsonV>,
}

impl View for AgentACPSpec {
    type V = AgentACPSpecV;

    open spec fn view(&self) -> AgentACPSpecV {
        AgentACPSpecV {
            capabilities: self.capabilities,
            input: self.input@,
            output: self.output@,
            config: self.config@,
            thread_state: self.thread_state.deep_view(),
            interrupts: self.interrupts.deep_view(),
            custom_streaming_update: self.custom_streaming_update.deep_view(),
        }
    }
}

#[derive(Debug)]
pub struct AgentACPDescriptor {
    pub metadata: AgentMetadata,
    pub specs: AgentACPSpec,
}

pub struct AgentACPDescriptorV {
    pub metadata: AgentMetadataV,
    pub specs: AgentACPSpecV,
}

impl View for AgentACPDescriptor {
    type V = AgentACPDescriptorV;

    open spec fn view(&self) -> AgentACPDescriptorV {
        AgentACPDescriptorV { metadata: self.metadata@, specs: self.specs@ }
    }
}

#[derive(Debug)]
pub struct AgentSearchRequest {
    pub name: Option<String>,
    pub version: Option<String>,
    pub limit: i64,
    pub offset: i64,
}

// ── Message ──────────────────────────────────────────────────────────────────

#[derive(Debug, PartialEq)]
pub struct Message {
    pub role: String,
    pub content: JsonValue,
    pub id: Option<String>,
    pub metadata: Option<JsonValue>,
}

pub struct MessageV {
    pub role: Seq<char>,
    pub content: JsonV,
    pub id: Option<Seq<char>>,
    pub metadata: Option<JsonV>,
}

impl DeepView for Message {
    type V = MessageV;

    open spec fn deep_view(&self) -> MessageV {
        MessageV {
            role: self.role@,
            content: self.content@,
            id: self.id.deep_view(),
            metadata: self.metadata.deep_view(),
        }
    }
}

impl View for Message {
    type V = MessageV;

    open spec fn view(&self) -> MessageV {
        self.deep_view()
    }
}

impl Clone for Message {
    fn clone(&self) -> (r: Self)
        ensures
            r@ == self@,
    {
        Message {
            role: self.role.clone(),
            content: copy_json(&self.content),
            id: self.id.clone(),
            metadata: copy_json_opt(&self.metadata),
        }
    }
}

/// A copy of a list of messages.
pub fn copy_messages(v: &Vec<Message>) -> (r: Vec<Message>)
    ensures
        r.deep_view() == v.deep_view(),
{
    let mut out: Vec<Message> = Vec::new();
    let mut i: usize = 0;
    while i < v.len()
        invariant
            i <= v.len(),
            out@.len() == i,
            forall|j: int| 0 <= j < i ==> (#[trigger] out@[j])@ == v@[j]@,
        decreases v.len() - i,
    {
        out.push(v[i].clone());
        i = i + 1;
    }
    assert(out.deep_view() =~= v.deep_view());
    out
}

/// A copy of an optional list of messages.
pub fn copy_messages_opt(v: &Option<Vec<Message>>) -> (r: Option<Vec<Message>>)
    ensures
        r.deep_view() == v.deep_view(),
{
    match v {
        Some(m) => Some(copy_messages(m)),
        None => None,
    }
}

// ── Thread types ─────────────────────────────────────────────────────────────

#[derive(Debug)]
pub struct Thread {
    pub thread_id: String,
    pub created_at: Timestamp,
    pub updated_at: Timestamp,
    pub metadata: JsonValue,
    pub status: ThreadStatus,
    pub values: Option<JsonValue>,
    pub messages: Option<Vec<Message>>,
}

pub struct ThreadV {
    pub thread_id: Seq<char>,
    pub created_at: Timestamp,
    pub updated_at: Timestamp,
    pub metadata: JsonV,
    pub status: ThreadStatus,
    pub values: Option<JsonV>,
    pub messages: Option<Seq<MessageV>>,
}

impl DeepView for Thread {
    type V = ThreadV;

    open spec fn deep_view(&self) -> ThreadV {
        self@
    }
}

impl View for Thread {
    type V = ThreadV;

    open spec fn view(&self) -> ThreadV {
        ThreadV {
            thread_id: self.thread_id@,
            created_at: self.created_at,
            updated_at: self.updated_at,
            metadata: self.metadata@,
            status: self.status,
            values: self.values.deep_view(),
            messages: self.messages.deep_view(),
        }
    }
}

impl Clone for Thread {
    fn clone(&self) -> (r: Self)
        ensures
            r@ == self@,
    {
        Thread {
            thread_id: self.thread_id.clone(),
            created_at: self.created_at,
            updated_at: self.updated_at,
            metadata: copy_json(&self.metadata),
            status: self.status,
            values: copy_json_opt(&self.values),
            messages: copy_messages_opt(&self.messages),
        }
    }
}

#[derive(Debug)]
pub struct ThreadCreate {
    pub thread_id: Option<String>,
    pub metadata: Option<JsonValue>,
    pub if_exists: IfExists,
}

#[derive(Clone, Copy, PartialEq, Eq, Debug, Structural)]
pub struct ThreadCheckpoint {
    pub checkpoint_id: u128,
}

#[derive(Debug)]
pub struct ThreadPatch {
    pub checkpoint: Option<ThreadCheckpoint>,
    pub metadata: Option<JsonValue>,
    pub values: Option<JsonValue>,
    pub messages: Option<Vec<Message>>,
}

#[derive(Debug)]
pub struct ThreadState {
    pub checkpoint: ThreadCheckpoint,
    pub values: JsonValue,
    pub messages: Option<Vec<Message>>,
    pub metadata: Option<JsonValue>,
}

pub struct ThreadStateV {
    pub checkpoint: ThreadCheckpoint,
    pub values: JsonV,
    pub messages: Option<Seq<MessageV>>,
    pub metadata: Option<JsonV>,
}

impl DeepView for ThreadState {
    type V = ThreadStateV;

    open spec fn deep_view(&self) -> ThreadStateV {
        ThreadStateV {
            checkpoint: self.checkpoint,
            values: self.values@,
            messages: self.messages.deep_view(),
            metadata: self.metadata.deep_view(),
        }
    }
}

impl View for ThreadState {
    type V = ThreadStateV;

    open spec fn view(&self) -> ThreadStateV {
        self.deep_view()
    }
}

impl Clone for ThreadState {
    fn clone(&self) -> (r: Self)
        ensures
            r@ == self@,
    {
        ThreadState {
            checkpoint: self.checkpoint,
            values: copy_json(&self.values),
            messages: copy_messages_opt(&self.messages),
            metadata: copy_json_opt(&self.metadata),
        }
    }
}

#[derive(Debug)]
pub struct ThreadSearchRequest {
    pub metadata: Option<JsonValue>,
    pub values: Option<JsonValue>,
    pub status: Option<ThreadStatus>,
    pub limit: i64,
    pub offset: i64,
}

// ── Run types ────────────────────────────────────────────────────────────────

#[derive(Debug)]
pub struct RunConfig {
    pub tags: Option<Vec<String>>,
    pub recursion_limit: Option<i64>,
    pub configurable: Option<JsonValue>,
}

pub struct RunConfigV {
    pub tags: Option<Seq<Seq<char>>>,
    pub recursion_limit: Option<i64>,
    pub configurable: Option<JsonV>,
}

impl DeepView for RunConfig {
    type V = RunConfigV;

    open spec fn deep_view(&self) -> RunConfigV {
        RunConfigV {
            tags: self.tags.deep_view(),
            recursion_limit: self.recursion_limit,
            configurable: self.configurable.deep_view(),
        }
    }
}

impl Clone for RunConfig {
    fn clone(&self) -> (r: Self)
        ensures
            r.deep_view() == self.deep_view(),
    {
        let tags = match &self.tags {
            Some(t) => Some(copy_strings(t)),
            None => None,
        };
        RunConfig {
            tags,
            recursion_limit: self.recursion_limit,
            configurable: copy_json_opt(&self.configurable),
        }
    }
}

/// A copy of a list of strings.
pub fn copy_strings(v: &Vec<String>) -> (r: Vec<String>)
    ensures
        r.deep_view() == v.deep_view(),
{
    let mut out: Vec<String> = Vec::new();
    let mut i: usize = 0;
    while i < v.len()
        invariant
            i <= v.len(),
            out@.len() == i,
            forall|j: int| 0 <= j < i ==> (#[trigger] out@[j])@ == v@[j]@,
        decreases v.len() - i,
    {
        out.push(v[i].clone());
        i = i + 1;
    }
    assert(out.deep_view() =~= v.deep_view());
    out
}

#[derive(Debug)]
pub struct RunCreate {
    pub agent_id: Option<String>,
    pub input: Option<JsonValue>,
    pub metadata: Option<JsonValue>,
    pub config: Option<RunConfig>,
    pub webhook: Option<String>,
    pub stream_mode: Option<JsonValue>,
    pub on_disconnect: OnDisconnect,
    pub multitask_strategy: MultitaskStrategy,
    pub after_seconds: Option<i64>,
}

pub struct RunCreateV {
    pub agent_id: Option<Seq<char>>,
    pub input: Option<JsonV>,
    pub metadata: Option<JsonV>,
    pub config: Option<RunConfigV>,
    pub webhook: Option<Seq<char>>,
    pub stream_mode: Option<JsonV>,
    pub on_disconnect: OnDisconnect,
    pub multitask_strategy: MultitaskStrategy,
    pub after_seconds: Option<i64>,
}

impl DeepView for RunCreate {
    type V = RunCreateV;

    open spec fn deep_view(&self) -> RunCreateV {
        RunCreateV {
            agent_id: self.agent_id.deep_view(),
            input: self.input.deep_view(),
            metadata: self.metadata.deep_view(),
            config: self.config.deep_view(),
            webhook: self.webhook.deep_view(),
            stream_mode: self.stream_mode.deep_view(),
            on_disconnect: self.on_disconnect,
            multitask_strategy: self.multitask_strategy,
            after_seconds: self.after_seconds,
        }
    }
}

impl View for RunCreate {
    type V = RunCreateV;

    open spec fn view(&self) -> RunCreateV {
        self.deep_view()
    }
}

impl Clone for RunCreate {
    fn clone(&self) -> (r: Self)
        ensures
            r@ == self@,
    {
        let config = match &self.config {
            Some(c) => Some(c.clone()),
            None => None,
        };
        RunCreate {
            agent_id: self.agent_id.clone(),
            input: copy_json_opt(&self.input),
            metadata: copy_json_opt(&self.metadata),
            config,
            webhook: self.webhook.clone(),
            stream_mode: copy_json_opt(&self.stream_mode),
            on_disconnect: self.on_disconnect,
            multitask_strategy: self.multitask_strategy,
            after_seconds: self.after_seconds,
        }
    }
}

#[derive(Debug)]
pub struct RunCreateStateless {
    pub base: RunCreate,
    pub on_completion: OnCompletion,
}

pub struct RunCreateStatelessV {
    pub base: RunCreateV,
    pub on_completion: OnCompletion,
}

impl DeepView for RunCreateStateless {
    type V = RunCreateStatelessV;

    open spec fn deep_view(&self) -> RunCreateStatelessV {
        RunCreateStatelessV { base: self.base@, on_completion: self.on_completion }
    }
}

impl View for RunCreateStateless {
    type V = RunCreateStatelessV;

    open spec fn view(&self) -> RunCreateStatelessV {
        self.deep_view()
    }
}

impl Clone for RunCreateStateless {
    fn clone(&self) -> (r: Self)
        ensures
            r@ == self@,
    {
        RunCreateStateless { base: self.base.clone(), on_completion: self.on_completion }
    }
}

#[derive(Debug)]
pub struct RunCreateStateful {
    pub base: RunCreate,
    pub stream_subgraphs: bool,
    pub if_not_exists: IfNotExists,
}

pub struct RunCreateStatefulV {
    pub base: RunCreateV,
    pub stream_subgraphs: bool,
    pub if_not_exists: IfNotExists,
}

impl DeepView for RunCreateStateful {
    type V = RunCreateStatefulV;

    open spec fn deep_view(&self) -> RunCreateStatefulV {
        RunCreateStatefulV {
            base: self.base@,
            stream_subgraphs: self.stream_subgraphs,
            if_not_exists: self.if_not_exists,
        }
    }
}

impl View for RunCreateStateful {
    type V = RunCreateStatefulV;

    open spec fn view(&self) -> RunCreateStatefulV {
        self.deep_view()
    }
}

impl Clone for RunCreateStateful {
    fn clone(&self) -> (r: Self)
        ensures
            r@ == self@,
    {
        RunCreateStateful {
            base: self.base.clone(),
            stream_subgraphs: self.stream_subgraphs,
            if_not_exists: self.if_not_exists,
        }
    }
}

#[derive(Clone, Copy, PartialEq, Eq, Debug, Structural)]
pub struct Run {
    pub run_id: u128,
    pub thread_id: Option<u128>,
    pub agent_id: u128,
    pub created_at: Timestamp,
    pub updated_at: Timestamp,
    pub status: RunStatus,
}

#[derive(Debug)]
pub struct RunStateless {
    pub run: Run,
    pub creation: RunCreateStateless,
}

pub struct RunStatelessV {
    pub run: Run,
    pub creation: RunCreateStatelessV,
}

impl DeepView for RunStateless {
    type V = RunStatelessV;

    open spec fn deep_view(&self) -> RunStatelessV {
        self@
    }
}

impl View for RunStateless {
    type V = RunStatelessV;

    open spec fn view(&self) -> RunStatelessV {
        RunStatelessV { run: self.run, creation: self.creation@ }
    }
}

#[derive(Debug)]
pub struct RunStateful {
    pub run: Run,
    pub creation: RunCreateStateful,
}

pub struct RunStatefulV {
    pub run: Run,
    pub creation: RunCreateStatefulV,
}

impl DeepView for RunStateful {
    type V = RunStatefulV;

    open spec fn deep_view(&self) -> RunStatefulV {
        self@
    }
}

impl View for RunStateful {
    type V = RunStatefulV;

    open spec fn view(&self) -> RunStatefulV {
        RunStatefulV { run: self.run, creation: self.creation@ }
    }
}

// ── Run output types ─────────────────────────────────────────────────────────

#[derive(Debug)]
pub enum RunOutput {
    Result { values: Option<JsonValue>, messages: Option<Vec<Message>> },
    Interrupt { interrupt: JsonValue },
    Error { run_id: u128, errcode: i64, description: String },
}

pub enum RunOutputV {
    Result { values: Option<JsonV>, messages: Option<Seq<MessageV>> },
    Interrupt { interrupt: JsonV },
    Error { run_id: u128, errcode: i64, description: Seq<char> },
}

impl DeepView for RunOutput {
    type V = RunOutputV;

    open spec fn deep_view(&self) -> RunOutputV {
        match self {
            RunOutput::Result { values, messages } => RunOutputV::Result {
                values: values.deep_view(),
                messages: messages.deep_view(),
            },
            RunOutput::Interrupt { interrupt } => RunOutputV::Interrupt { interrupt: interrupt@ },
            RunOutput::Error { run_id, errcode, description } => RunOutputV::Error {
                run_id: *run_id,
                errcode: *errcode,
                description: description@,
            },
        }
    }
}

impl View for RunOutput {
    type V = RunOutputV;

    open spec fn view(&self) -> RunOutputV {
        self.deep_view()
    }
}

impl Clone for RunOutput {
    fn clone(&self) -> (r: Self)
        ensures
            r@ == self@,
    {
        match self {
            RunOutput::Result { values, messages } => RunOutput::Result {
                values: copy_json_opt(values),
                messages: copy_messages_opt(messages),
            },
            RunOutput::Interrupt { interrupt } => RunOutput::Interrupt {
                interrupt: copy_json(interrupt),
            },
            RunOutput::Error { run_id, errcode, description } => RunOutput::Error {
                run_id: *run_id,
                errcode: *errcode,
                description: description.clone(),
            },
        }
    }
}

#[derive(Debug)]
pub struct RunWaitResponseStateless {
    pub run: Option<RunStateless>,
    pub output: Option<RunOutput>,
}

#[derive(Debug)]
pub struct RunWaitResponseStateful {
    pub run: Option<RunStateful>,
    pub output: Option<RunOutput>,
}

// ── SSE streaming types ──────────────────────────────────────────────────────

#[derive(Debug)]
pub struct ValueRunResultUpdate {
    pub update_type: String,
    pub run_id: u128,
    pub status: RunStatus,
    pub values: JsonValue,
    pub messages: Option<Vec<Message>>,
}

pub struct ValueRunResultUpdateV {
    pub update_type: Seq<char>,
    pub run_id: u128,
    pub status: RunStatus,
    pub values: JsonV,
    pub messages: Option<Seq<MessageV>>,
}

impl View for ValueRunResultUpdate {
    type V = ValueRunResultUpdateV;

    open spec fn view(&self) -> ValueRunResultUpdateV {
        ValueRunResultUpdateV {
            update_type: self.update_type@,
            run_id: self.run_id,
            status: self.status,
            values: self.values@,
            messages: self.messages.deep_view(),
        }
    }
}

#[derive(Debug)]
pub struct RunOutputStream {
    pub id: String,
    pub event: String,
    pub data: JsonValue,
}

// ── Search requests ──────────────────────────────────────────────────────────

#[derive(Debug)]
pub struct RunSearchRequest {
    pub agent_id: Option<u128>,
    pub status: Option<RunStatus>,
    pub metadata: Option<JsonValue>,
    pub limit: i64,
    pub offset: i64,
}

#[derive(Debug)]
pub struct ResumePayload {
    pub data: JsonValue,
}

// ── Defaults ─────────────────────────────────────────────────────────────────

/// The page size of a search that names none.
pub fn default_limit() -> (r: i64)
    ensures
        r == 10,
{
    10
}

/// What a run does when its client disconnects, where the request says nothing.
pub fn default_on_disconnect() -> (r: OnDisconnect)
    ensures
        r == OnDisconnect::Cancel,
{
    OnDisconnect::Cancel
}

/// How a second run on a busy thread is handled, where the request says nothing.
pub fn default_multitask() -> (r: MultitaskStrategy)
    ensures
        r == MultitaskStrategy::Reject,
{
    MultitaskStrategy::Reject
}

/// What becomes of a stateless run once done, where the request says nothing.
pub fn default_on_completion() -> (r: OnCompletion)
    ensures
        r == OnCompletion::Delete,
{
    OnCompletion::Delete
}

/// What a run on a missing thread does, where the request says nothing.
pub fn default_if_not_exists() -> (r: IfNotExists)
    ensures
        r == IfNotExists::Reject,
{
    IfNotExists::Reject
}

/// What creating an existing thread does, where the request says nothing.
pub fn default_if_exists() -> (r: IfExists)
    ensures
        r == IfExists::Raise,
{
    IfExists::Raise
}

} // verus!
