//! Agents: the descriptor each model is registered with, search, and lookup.

use vstd::prelude::*;
use crate::acp_types::{
    Agent, AgentACPDescriptor, AgentACPDescriptorV, AgentACPSpec, AgentACPSpecV, AgentCapabilities,
    AgentMetadata, AgentMetadataV, AgentRef, AgentRefV, AgentSearchRequest, AgentV,
    StreamingCapabilities,
};
use crate::error::{AcpError, AcpErrorV, NOT_FOUND};
use crate::ids::{uuid_string, uuid_text};
use crate::json::{
    copy_json, copy_json_opt, json_str, lemma_json_members_view, lemma_json_seq_view, object1, object2, JsonV,
    JsonValue,
};
use crate::paging::{page, paginate};
use crate::state::{agent_id_from_alias, alias_agent_id, AgentEntry, AgentEntryV, AppState, StoreV};
use crate::text::{concat2, text_contains, text_contains_spec, text_eq, text_less, text_lt, text_string};

verus! {

broadcast use vstd::std_specs::vec::group_vec_axioms;

// ── Descriptors ──────────────────────────────────────────────────────────────

/// What the server knows of a model when it registers it as an agent.
#[derive(Debug)]
pub struct ModelInfo {
    pub alias: String,
    pub model_type: String,
    pub display_name: Option<String>,
    pub name: String,
    pub version: String,
    pub is_loaded: bool,
}

/// `{"type": t}`
pub open spec fn typed(t: Seq<char>) -> JsonV {
    JsonV::Object(seq![("type"@, JsonV::Str(t))])
}

/// The schema of a list of chat messages; `required` lists the members every
/// message must have, where it is given.
pub open spec fn messages_schema(required: bool) -> JsonV {
    let props = JsonV::Object(seq![("content"@, typed("string"@)), ("role"@, typed("string"@))]);
    let items = if required {
        JsonV::Object(
            seq![
                ("properties"@, props),
                ("required"@, JsonV::Array(seq![JsonV::Str("role"@), JsonV::Str("content"@)])),
                ("type"@, JsonV::Str("object"@)),
            ],
        )
    } else {
        JsonV::Object(seq![("properties"@, props), ("type"@, JsonV::Str("object"@))])
    };
    JsonV::Object(seq![("items"@, items), ("type"@, JsonV::Str("array"@))])
}

/// The input schema: an object with a required `messages` list.
pub open spec fn input_schema() -> JsonV {
    JsonV::Object(
        seq![
            ("properties"@, JsonV::Object(seq![("messages"@, messages_schema(true))])),
            ("required"@, JsonV::Array(seq![JsonV::Str("messages"@)])),
            ("type"@, JsonV::Str("object"@)),
        ],
    )
}

/// The output schema: an object with a `messages` list.
pub open spec fn output_schema() -> JsonV {
    JsonV::Object(
        seq![
            ("properties"@, JsonV::Object(seq![("messages"@, messages_schema(true))])),
            ("type"@, JsonV::Str("object"@)),
        ],
    )
}

/// `{"maximum": max, "minimum": min, "type": "number"}`
pub open spec fn number_range(min: Seq<char>, max: Seq<char>) -> JsonV {
    JsonV::Object(
        seq![
            ("maximum"@, JsonV::Number(max)),
            ("minimum"@, JsonV::Number(min)),
            ("type"@, JsonV::Str("number"@)),
        ],
    )
}

/// The config schema: temperature in [0, 2], max_tokens at least 1, top_p in
/// [0, 1].
pub open spec fn config_schema() -> JsonV {
    JsonV::Object(
        seq![
            (
                "properties"@,
                JsonV::Object(
                    seq![
                        (
                            "max_tokens"@,
                            JsonV::Object(
                                seq![("minimum"@, JsonV::Number("1"@)), ("type"@, JsonV::Str("integer"@))],
                            ),
                        ),
                        ("temperature"@, number_range("0.0"@, "2.0"@)),
                        ("top_p"@, number_range("0.0"@, "1.0"@)),
                    ],
                ),
            ),
            ("type"@, JsonV::Str("object"@)),
        ],
    )
}

/// The thread state schema: an object with a `messages` list.
pub open spec fn thread_state_schema() -> JsonV {
    JsonV::Object(
        seq![
            ("properties"@, JsonV::Object(seq![("messages"@, messages_schema(false))])),
            ("type"@, JsonV::Str("object"@)),
        ],
    )
}

/// What every agent can do: threads and value streaming; no interrupts,
/// callbacks or custom streaming.
pub open spec fn agent_capabilities() -> AgentCapabilities {
    AgentCapabilities {
        threads: true,
        interrupts: false,
        callbacks: false,
        streaming: Some(StreamingCapabilities { values: Some(true), custom: Some(false) }),
    }
}

/// The description of a model's agent.
pub open spec fn agent_description(alias: Seq<char>, model_type: Seq<char>, shown: Seq<char>) -> Seq<char> {
    "Foundry Local model '"@ + alias + "' ("@ + model_type + ") \u{2014} "@ + shown
}

/// The registry entry for a model.
pub open spec fn agent_entry_of(
    alias: Seq<char>,
    model_type: Seq<char>,
    display_name: Option<Seq<char>>,
    name: Seq<char>,
    version: Seq<char>,
    is_loaded: bool,
) -> AgentEntryV {
    let shown = match display_name {
        Some(d) => d,
        None => name,
    };
    let metadata = AgentMetadataV {
        agent_ref: AgentRefV { name: alias, version, url: None },
        description: agent_description(alias, model_type, shown),
    };
    AgentEntryV {
        agent: AgentV { agent_id: alias_agent_id(alias), metadata },
        descriptor: AgentACPDescriptorV {
            metadata,
            specs: AgentACPSpecV {
                capabilities: agent_capabilities(),
                input: input_schema(),
                output: output_schema(),
                config: config_schema(),
                thread_state: Some(thread_state_schema()),
                interrupts: None,
                custom_streaming_update: None,
            },
        },
        model_alias: alias,
        is_loaded,
    }
}

fn obj3(k1: &str, v1: JsonValue, k2: &str, v2: JsonValue, k3: &str, v3: JsonValue) -> (r: JsonValue)
    ensures
        r@ == JsonV::Object(seq![(k1@, v1@), (k2@, v2@), (k3@, v3@)]),
{
    broadcast use lemma_json_members_view;

    let mut m: Vec<(String, JsonValue)> = Vec::new();
    m.push((text_string(k1), v1));
    m.push((text_string(k2), v2));
    m.push((text_string(k3), v3));
    let ghost mv = m@;
    let r = JsonValue::Object(m);
    assert(r@ == JsonV::Object(crate::json::json_members_view(mv)));
    assert(r@->Object_0 =~= seq![(k1@, v1@), (k2@, v2@), (k3@, v3@)]);
    r
}

fn str_array(items: &[&str]) -> (r: JsonValue)
    ensures
        r@ == JsonV::Array(Seq::new(items@.len(), |i: int| JsonV::Str(items@[i]@))),
{
    broadcast use lemma_json_seq_view;

    let mut v: Vec<JsonValue> = Vec::new();
    let mut i: usize = 0;
    while i < items.len()
        invariant
            i <= items@.len(),
            v@.len() == i,
            forall|j: int| 0 <= j < i ==> (#[trigger] v@[j])@ == JsonV::Str(items@[j]@),
        decreases items.len() - i,
    {
        v.push(json_str(items[i]));
        i = i + 1;
    }
    let ghost vv = v@;
    let r = JsonValue::Array(v);
    assert(r@ == JsonV::Array(crate::json::json_seq_view(vv)));
    assert(r@->Array_0 =~= Seq::new(items@.len(), |i: int| JsonV::Str(items@[i]@)));
    r
}

fn new_typed(t: &str) -> (r: JsonValue)
    ensures
        r@ == typed(t@),
{
    object1("type", json_str(t))
}

fn new_messages_schema(required: bool) -> (r: JsonValue)
    ensures
        r@ == messages_schema(required),
{
    let props = object2("content", new_typed("string"), "role", new_typed("string"));
    let items = if required {
        let req = str_array(&["role", "content"]);
        assert(req@->Array_0 =~= seq![JsonV::Str("role"@), JsonV::Str("content"@)]);
        obj3("properties", props, "required", req, "type", json_str("object"))
    } else {
        object2("properties", props, "type", json_str("object"))
    };
    object2("items", items, "type", json_str("array"))
}

fn new_number_range(min: &str, max: &str) -> (r: JsonValue)
    ensures
        r@ == number_range(min@, max@),
{
    obj3(
        "maximum",
        JsonValue::Number(text_string(max)),
        "minimum",
        JsonValue::Number(text_string(min)),
        "type",
        json_str("number"),
    )
}

fn new_input_schema() -> (r: JsonValue)
    ensures
        r@ == input_schema(),
{
    let req = str_array(&["messages"]);
    assert(req@->Array_0 =~= seq![JsonV::Str("messages"@)]);
    obj3(
        "properties",
        object1("messages", new_messages_schema(true)),
        "required",
        req,
        "type",
        json_str("object"),
    )
}

fn new_output_schema() -> (r: JsonValue)
    ensures
        r@ == output_schema(),
{
    object2("properties", object1("messages", new_messages_schema(true)), "type", json_str("object"))
}

fn new_config_schema() -> (r: JsonValue)
    ensures
        r@ == config_schema(),
{
    let max_tokens = object2("minimum", JsonValue::Number(text_string("1")), "type", json_str("integer"));
    let props = obj3(
        "max_tokens",
        max_tokens,
        "temperature",
        new_number_range("0.0", "2.0"),
        "top_p",
        new_number_range("0.0", "1.0"),
    );
    object2("properties", props, "type", json_str("object"))
}

fn new_thread_state_schema() -> (r: JsonValue)
    ensures
        r@ == thread_state_schema(),
{
    object2("properties", object1("messages", new_messages_schema(false)), "type", json_str("object"))
}

/// Create an AgentEntry from a model.
pub fn make_agent_entry(info: ModelInfo) -> (r: AgentEntry)
    ensures
        r@ == agent_entry_of(
            info.alias@,
            info.model_type@,
            info.display_name.deep_view(),
            info.name@,
            info.version@,
            info.is_loaded,
        ),
{
    let id = agent_id_from_alias(info.alias.as_str());
    let shown = match &info.display_name {
        Some(d) => d.as_str(),
        None => info.name.as_str(),
    };
    let mut description = text_string("Foundry Local model '");
    description.append(info.alias.as_str());
    description.append("' (");
    description.append(info.model_type.as_str());
    description.append(") \u{2014} ");
    description.append(shown);
    let metadata = AgentMetadata {
        agent_ref: AgentRef { name: info.alias.clone(), version: info.version, url: None },
        description,
    };
    let specs = AgentACPSpec {
        capabilities: AgentCapabilities {
            threads: true,
            interrupts: false,
            callbacks: false,
            streaming: Some(StreamingCapabilities { values: Some(true), custom: Some(false) }),
        },
        input: new_input_schema(),
        output: new_output_schema(),
        config: new_config_schema(),
        thread_state: Some(new_thread_state_schema()),
        interrupts: None,
        custom_streaming_update: None,
    };
    AgentEntry {
        agent: Agent { agent_id: id, metadata: metadata.clone() },
        descriptor: AgentACPDescriptor { metadata, specs },
        model_alias: info.alias,
        is_loaded: info.is_loaded,
    }
}

// ── Search ───────────────────────────────────────────────────────────────────

/// An agent passes a search where its name contains the requested name and
/// its version equals the requested version (each where requested).
pub open spec fn agent_matches(name: Option<Seq<char>>, version: Option<Seq<char>>, a: AgentV) -> bool {
    &&& match name {
        Some(n) => text_contains_spec(a.metadata.agent_ref.name, n),
        None => true,
    }
    &&& match version {
        Some(v) => a.metadata.agent_ref.version == v,
        None => true,
    }
}

/// `s` with `x` placed before the first agent whose name comes after its own.
pub open spec fn insert_by_name(s: Seq<AgentV>, x: AgentV) -> Seq<AgentV>
    decreases s.len(),
{
    if s.len() == 0 {
        seq![x]
    } else if text_lt(x.metadata.agent_ref.name, s[0].metadata.agent_ref.name) {
        seq![x] + s
    } else {
        seq![s[0]] + insert_by_name(s.drop_first(), x)
    }
}

/// `s` ordered by name; agents of equal name keep their order.
pub open spec fn sort_by_name(s: Seq<AgentV>) -> Seq<AgentV>
    decreases s.len(),
{
    if s.len() == 0 {
        s
    } else {
        insert_by_name(sort_by_name(s.drop_last()), s.last())
    }
}

impl StoreV {
    /// The agents a search finds, ordered by name, before paging.
    pub open spec fn agent_search(self, name: Option<Seq<char>>, version: Option<Seq<char>>) -> Seq<AgentV> {
        sort_by_name(
            self.agents.map_values(|e: AgentEntryV| e.agent).filter(|a: AgentV| agent_matches(name, version, a)),
        )
    }

    /// The registered agent `id`, or the answer that there is none.
    pub open spec fn get_agent(self, id: u128) -> Result<AgentV, AcpErrorV> {
        if self.has_agent(id) {
            Ok(self.agent(id).agent)
        } else {
            Err(agent_not_found(id))
        }
    }
}

/// The answer to a request for an agent that is not registered.
pub open spec fn agent_not_found(id: u128) -> AcpErrorV {
    AcpErrorV { status: NOT_FOUND, message: "Agent not found: "@ + uuid_text(id) }
}

pub(crate) proof fn lemma_insert_at(s: Seq<AgentV>, x: AgentV, j: int)
    requires
        0 <= j <= s.len(),
        forall|k: int| 0 <= k < j ==> !text_lt(x.metadata.agent_ref.name, #[trigger] s[k].metadata.agent_ref.name),
        j < s.len() ==> text_lt(x.metadata.agent_ref.name, s[j].metadata.agent_ref.name),
    ensures
        insert_by_name(s, x) == s.insert(j, x),
    decreases s.len(),
{
    if s.len() == 0 {
        assert(seq![x] =~= s.insert(0, x));
    } else if j == 0 {
        assert(seq![x] + s =~= s.insert(0, x));
    } else {
        assert forall|k: int| 0 <= k < j - 1 implies !text_lt(
            x.metadata.agent_ref.name,
            #[trigger] s.drop_first()[k].metadata.agent_ref.name,
        ) by {
            assert(s.drop_first()[k] == s[k + 1]);
        }
        lemma_insert_at(s.drop_first(), x, j - 1);
        assert(seq![s[0]] + s.drop_first().insert(j - 1, x) =~= s.insert(j, x));
    }
}

fn insert_agent_by_name(out: &mut Vec<Agent>, x: Agent)
    ensures
        final(out).deep_view() == insert_by_name(old(out).deep_view(), x@),
{
    let ghost s0 = out.deep_view();
    let mut j: usize = 0;
    while j < out.len()
        invariant
            out.deep_view() == s0,
            j <= out.len(),
            forall|k: int| 0 <= k < j ==> !text_lt(x@.metadata.agent_ref.name, #[trigger] s0[k].metadata.agent_ref.name),
        ensures
            j <= out.len(),
            forall|k: int| 0 <= k < j ==> !text_lt(x@.metadata.agent_ref.name, #[trigger] s0[k].metadata.agent_ref.name),
            j < out.len() ==> text_lt(x@.metadata.agent_ref.name, s0[j as int].metadata.agent_ref.name),
        decreases out.len() - j,
    {
        if text_less(x.metadata.agent_ref.name.as_str(), out[j].metadata.agent_ref.name.as_str()) {
            break;
        }
        j = j + 1;
    }
    proof {
        lemma_insert_at(s0, x@, j as int);
    }
    let ghost xv = x@;
    out.insert(j, x);
    assert(out.deep_view() =~= s0.insert(j as int, xv));
}

impl AppState {
    /// POST /agents/search: agents whose name contains the requested name
    /// and whose version is the requested version, ordered by name, paged.
    pub fn search_agents(&self, req: &AgentSearchRequest) -> (r: Vec<Agent>)
        ensures
            r.deep_view() == page(
                self@.agent_search(req.name.deep_view(), req.version.deep_view()),
                req.offset as int,
                req.limit as int,
            ),
    {
        let ghost all = self@.agents.map_values(|e: AgentEntryV| e.agent);
        let ghost p = |a: AgentV| agent_matches(req.name.deep_view(), req.version.deep_view(), a);
        let mut out: Vec<Agent> = Vec::new();
        let mut i: usize = 0;
        while i < self.agents.len()
            invariant
                i <= self.agents.len(),
                all == self@.agents.map_values(|e: AgentEntryV| e.agent),
                p == (|a: AgentV| agent_matches(req.name.deep_view(), req.version.deep_view(), a)),
                out.deep_view() == sort_by_name(all.take(i as int).filter(p)),
            decreases self.agents.len() - i,
        {
            proof {
                assert(all.take(i + 1).drop_last() =~= all.take(i as int));
                reveal_with_fuel(Seq::<_>::filter, 1);
            }
            let a = &self.agents[i].agent;
            let name_ok = match &req.name {
                Some(n) => text_contains(a.metadata.agent_ref.name.as_str(), n.as_str()),
                None => true,
            };
            let version_ok = match &req.version {
                Some(v) => text_eq(a.metadata.agent_ref.version.as_str(), v.as_str()),
                None => true,
            };
            if name_ok && version_ok {
                let ghost f = all.take(i as int).filter(p);
                assert(all.take(i + 1).filter(p) == f.push(all[i as int]));
                assert(f.push(all[i as int]).drop_last() =~= f);
                insert_agent_by_name(&mut out, a.clone());
            } else {
                assert(all.take(i + 1).filter(p) == all.take(i as int).filter(p));
            }
            i = i + 1;
        }
        assert(all.take(self.agents.len() as int) =~= all);
        paginate(out, req.offset, req.limit)
    }

    /// GET /agents/:agent_id
    pub fn get_agent(&self, agent_id: u128) -> (r: Result<Agent, AcpError>)
        requires
            self@.wf(),
        ensures
            crate::error::result_view(r) == self@.get_agent(agent_id),
    {
        match self.find_agent(agent_id) {
            Some(i) => Ok(self.agents[i].agent.clone()),
            None => Err(agent_not_found_error(agent_id)),
        }
    }

    /// GET /agents/:agent_id/descriptor
    pub fn get_agent_descriptor(&self, agent_id: u128) -> (r: Result<AgentACPDescriptor, AcpError>)
        requires
            self@.wf(),
        ensures
            match r {
                Ok(d) => self@.has_agent(agent_id) && d@ == self@.agent(agent_id).descriptor,
                Err(e) => !self@.has_agent(agent_id) && e@ == agent_not_found(agent_id),
            },
    {
        match self.find_agent(agent_id) {
            Some(i) => Ok(copy_descriptor(&self.agents[i].descriptor)),
            None => Err(agent_not_found_error(agent_id)),
        }
    }
}

fn agent_not_found_error(id: u128) -> (r: AcpError)
    ensures
        r@ == agent_not_found(id),
{
    proof {
        reveal_strlit("Agent not found: ");
    }
    let t = uuid_string(id);
    AcpError::not_found(concat2("Agent not found: ", t.as_str()))
}

/// A copy of an agent descriptor.
pub fn copy_descriptor(d: &AgentACPDescriptor) -> (r: AgentACPDescriptor)
    ensures
        r@ == d@,
{
    let interrupts = match &d.specs.interrupts {
        Some(v) => {
            let mut out: Vec<JsonValue> = Vec::new();
            let mut i: usize = 0;
            while i < v.len()
                invariant
                    i <= v.len(),
                    out@.len() == i,
                    forall|j: int| 0 <= j < i ==> (#[trigger] out@[j])@ == v@[j]@,
                decreases v.len() - i,
            {
                out.push(copy_json(&v[i]));
                i = i + 1;
            }
            assert(out.deep_view() =~= v.deep_view());
            Some(out)
        },
        None => None,
    };
    AgentACPDescriptor {
        metadata: d.metadata.clone(),
        specs: AgentACPSpec {
            capabilities: d.specs.capabilities,
            input: copy_json(&d.specs.input),
            output: copy_json(&d.specs.output),
            config: copy_json(&d.specs.config),
            thread_state: copy_json_opt(&d.specs.thread_state),
            interrupts,
            custom_streaming_update: copy_json_opt(&d.specs.custom_streaming_update),
        },
    }
}

} // verus!
